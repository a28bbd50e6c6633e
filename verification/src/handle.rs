//! What is done about each message from the client.

use vstd::prelude::*;

use crate::documents::all_changed;
use crate::documents::all_fit;
use crate::documents::can_open;
use crate::documents::change_fits;
use crate::documents::changes_view;
use crate::documents::fits;
use crate::documents::lemma_can_open;
use crate::documents::lemma_first_fit;
use crate::documents::lemma_version_apart;
use crate::documents::opened;
use crate::documents::Change;
use crate::documents::Document;
use crate::documents::TextDocumentContentChangeEvent;
use crate::filter::is_asm_document;
use crate::filter::is_supported_asm_document;
use crate::filter::is_supported_asm_uri;
use crate::filter::may_be_asm;
use crate::lines::Position;
use crate::params::cast_change;
use crate::params::cast_close;
use crate::params::cast_completion;
use crate::params::cast_definition;
use crate::params::cast_diagnostic;
use crate::params::cast_hover;
use crate::params::cast_open;
use crate::params::cast_references;
use crate::params::cast_save;
use crate::params::cast_signature;
use crate::params::cast_symbols;
use crate::params::cast_tokens;
use crate::params::change_item;
use crate::params::close_document;
use crate::params::open_item;
use crate::params::save_document;
use crate::params::ChangeItem;
use crate::params::OpenItem;
use crate::protocol::notification_method;
use crate::protocol::request_method;
use crate::protocol::request_target;
use crate::protocol::ChangeDoesNotFit;
use crate::protocol::DidChangeTextDocumentParams;
use crate::protocol::DidCloseTextDocumentParams;
use crate::protocol::DidOpenTextDocumentParams;
use crate::protocol::Notification;
use crate::protocol::NotificationMethod;
use crate::protocol::NotificationStep;
use crate::protocol::Query;
use crate::protocol::QueryKind;
use crate::protocol::ReferenceParams;
use crate::protocol::Reply;
use crate::protocol::Request;
use crate::protocol::RequestMethod;
use crate::protocol::RequestStep;
use crate::protocol::Target;
use crate::protocol::TextDocumentIdentifier;
use crate::protocol::TextDocumentItem;
use crate::protocol::TextDocumentParams;
use crate::protocol::TextDocumentPositionParams;
use crate::protocol::VersionedTextDocumentIdentifier;
use crate::store::DocumentStore;
use crate::store::TreeEntry;
use crate::text::within_limit;
use crate::uri::is_uri;
use crate::uri::Uri;

verus! {

/// What is to be done about a request.
pub enum RequestOutcome {
    Nothing,
    Empty,
    Compute(QueryKind, Seq<char>, Seq<char>),
    Diagnose(Seq<char>),
}

/// What is to be done about a query: it is put to the document where this is open and, if the query
/// needs it, has a tree entry. Otherwise the request gets the empty response.
pub open spec fn query_outcome(
    kind: QueryKind,
    uri: Seq<char>,
    json: Seq<char>,
    store: DocumentStore,
) -> RequestOutcome {
    if store.documents().contains_key(uri) && (kind.needs_tree() ==> store.entries().contains_key(
        uri,
    )) {
        RequestOutcome::Compute(kind, uri, json)
    } else {
        RequestOutcome::Empty
    }
}

/// What is to be done about a request for diagnostics: only assembly files have any.
pub open spec fn diagnose_outcome(uri: Seq<char>, asm_uri: bool) -> RequestOutcome {
    if asm_uri {
        RequestOutcome::Diagnose(uri)
    } else {
        RequestOutcome::Nothing
    }
}

impl RequestStep {
    /// Whether this is what is to be done about the request with that identifier.
    pub open spec fn is_for(self, id: lsp_server::RequestId, outcome: RequestOutcome) -> bool {
        match outcome {
            RequestOutcome::Nothing => self is Nothing,
            RequestOutcome::Empty => self == RequestStep::Reply(Reply::Empty(id)),
            RequestOutcome::Compute(kind, uri, json) => self matches RequestStep::Compute(query)
                && query.id == id && query.kind == kind && query.uri@ == uri && query.json@ == json,
            RequestOutcome::Diagnose(uri) => self matches RequestStep::Diagnose(document)
                && document@ == uri && document.is_asm(),
        }
    }
}

/// Whether `step` is what is to be done about a request: nothing where its method is unknown or its
/// parameters are malformed, and otherwise what its query, or its diagnostics, come to.
pub open spec fn request_was_handled(
    store: DocumentStore,
    id: lsp_server::RequestId,
    method: Seq<char>,
    params: Seq<char>,
    step: RequestStep,
) -> bool {
    match request_method(method) {
        None => step is Unknown,
        Some(known) => match request_target(known, params) {
            None => step is Malformed,
            Some(Target { uri, kind: Some(kind) }) => step.is_for(
                id,
                query_outcome(kind, uri, params, store),
            ),
            Some(Target { uri, kind: None }) => exists|asm_uri: bool| #[trigger]
                may_be_asm(uri, asm_uri) && step.is_for(id, diagnose_outcome(uri, asm_uri)),
        },
    }
}

fn identified(document: &str) -> (r: TextDocumentIdentifier)
    requires
        is_uri(document@),
    ensures
        r.uri@ == document@,
        may_be_asm(document@, r.uri.is_asm()),
{
    TextDocumentIdentifier { uri: Uri::parse(document).unwrap() }
}

fn positioned(document: &str, position: Position, json: String) -> (r: TextDocumentPositionParams)
    requires
        is_uri(document@),
    ensures
        r.text_document.uri@ == document@,
        r.position == position,
        r.json == json,
{
    TextDocumentPositionParams { text_document: identified(document), position, json }
}

/// Handles a request from the client.
///
/// Nothing is sent where the method is unknown or the parameters are malformed.
pub fn handle_request(req: Request, doc_store: &DocumentStore) -> (r: RequestStep)
    requires
        doc_store.wf(),
        within_limit(req.params@),
    ensures
        request_was_handled(*doc_store, req.id, req.method@, req.params@, r),
{
    let Request { id, method, params: json } = req;
    let method = match RequestMethod::named(method.as_str()) {
        Some(method) => method,
        None => return RequestStep::Unknown,
    };
    match method {
        RequestMethod::Hover => match cast_hover(id, json.as_str()) {
            Some((id, uri, position)) => {
                let params = positioned(uri.as_str(), position, json);
                handle_hover_request(id, &params, doc_store)
            },
            None => RequestStep::Malformed,
        },
        RequestMethod::Completion => match cast_completion(id, json.as_str()) {
            Some((id, uri, position)) => {
                let params = positioned(uri.as_str(), position, json);
                handle_completion_request(id, &params, doc_store)
            },
            None => RequestStep::Malformed,
        },
        RequestMethod::GotoDefinition => match cast_definition(id, json.as_str()) {
            Some((id, uri, position)) => {
                let params = positioned(uri.as_str(), position, json);
                handle_goto_def_request(id, &params, doc_store)
            },
            None => RequestStep::Malformed,
        },
        RequestMethod::DocumentSymbol => match cast_symbols(id, json.as_str()) {
            Some((id, uri)) => {
                let params = TextDocumentParams { text_document: identified(uri.as_str()), json };
                handle_document_symbols_request(id, &params, doc_store)
            },
            None => RequestStep::Malformed,
        },
        RequestMethod::SignatureHelp => match cast_signature(id, json.as_str()) {
            Some((id, uri, position)) => {
                let params = positioned(uri.as_str(), position, json);
                handle_signature_help_request(id, &params, doc_store)
            },
            None => RequestStep::Malformed,
        },
        RequestMethod::References => match cast_references(id, json.as_str()) {
            Some((id, uri, position, include_declaration)) => {
                let text_document_position = positioned(uri.as_str(), position, json);
                let params = ReferenceParams { text_document_position, include_declaration };
                handle_references_request(id, &params, doc_store)
            },
            None => RequestStep::Malformed,
        },
        RequestMethod::SemanticTokensFull => match cast_tokens(id, json.as_str()) {
            Some((id, uri)) => {
                let params = TextDocumentParams { text_document: identified(uri.as_str()), json };
                handle_semantic_tokens_full_request(id, &params, doc_store)
            },
            None => RequestStep::Malformed,
        },
        RequestMethod::DocumentDiagnostic => match cast_diagnostic(id, json.as_str()) {
            Some((_, document)) => {
                let uri = identified(document.as_str()).uri;
                if is_supported_asm_uri(&uri) {
                    RequestStep::Diagnose(uri)
                } else {
                    RequestStep::Nothing
                }
            },
            None => RequestStep::Malformed,
        },
    }
}

/// Puts a query to a document whose tree it needs.
fn query_with_tree(
    kind: QueryKind,
    id: lsp_server::RequestId,
    uri: &Uri,
    json: &str,
    doc_store: &DocumentStore,
) -> (r: RequestStep)
    requires
        doc_store.wf(),
        kind.needs_tree(),
    ensures
        r.is_for(id, query_outcome(kind, uri@, json@, *doc_store)),
{
    if doc_store.document(uri).is_some() && doc_store.tree_entry(uri).is_some() {
        RequestStep::Compute(Query { id, kind, uri: uri.clone(), json: json.to_owned() })
    } else {
        RequestStep::Reply(Reply::Empty(id))
    }
}

/// Handles a hover request: the empty response where the document is not open.
pub fn handle_hover_request(
    id: lsp_server::RequestId,
    params: &TextDocumentPositionParams,
    doc_store: &DocumentStore,
) -> (r: RequestStep)
    requires
        doc_store.wf(),
    ensures
        r.is_for(
            id,
            query_outcome(
                QueryKind::Hover(params.position),
                params.text_document.uri@,
                params.json@,
                *doc_store,
            ),
        ),
{
    let uri = &params.text_document.uri;
    if doc_store.document(uri).is_some() {
        let kind = QueryKind::Hover(params.position);
        RequestStep::Compute(Query { id, kind, uri: uri.clone(), json: params.json.clone() })
    } else {
        RequestStep::Reply(Reply::Empty(id))
    }
}

/// Handles a completion request: the empty response where the document has no text or no
/// tree.
pub fn handle_completion_request(
    id: lsp_server::RequestId,
    params: &TextDocumentPositionParams,
    doc_store: &DocumentStore,
) -> (r: RequestStep)
    requires
        doc_store.wf(),
    ensures
        r.is_for(
            id,
            query_outcome(
                QueryKind::Completion(params.position),
                params.text_document.uri@,
                params.json@,
                *doc_store,
            ),
        ),
{
    query_with_tree(
        QueryKind::Completion(params.position),
        id,
        &params.text_document.uri,
        params.json.as_str(),
        doc_store,
    )
}

/// Handles a go to definition request: the empty response where the document has no text or no
/// tree.
pub fn handle_goto_def_request(
    id: lsp_server::RequestId,
    params: &TextDocumentPositionParams,
    doc_store: &DocumentStore,
) -> (r: RequestStep)
    requires
        doc_store.wf(),
    ensures
        r.is_for(
            id,
            query_outcome(
                QueryKind::GotoDefinition(params.position),
                params.text_document.uri@,
                params.json@,
                *doc_store,
            ),
        ),
{
    query_with_tree(
        QueryKind::GotoDefinition(params.position),
        id,
        &params.text_document.uri,
        params.json.as_str(),
        doc_store,
    )
}

/// Handles a document symbols request: the empty response where the document has no text or no
/// tree.
pub fn handle_document_symbols_request(
    id: lsp_server::RequestId,
    params: &TextDocumentParams,
    doc_store: &DocumentStore,
) -> (r: RequestStep)
    requires
        doc_store.wf(),
    ensures
        r.is_for(
            id,
            query_outcome(
                QueryKind::DocumentSymbol,
                params.text_document.uri@,
                params.json@,
                *doc_store,
            ),
        ),
{
    query_with_tree(
        QueryKind::DocumentSymbol,
        id,
        &params.text_document.uri,
        params.json.as_str(),
        doc_store,
    )
}

/// Handles a signature help request: the empty response where the document has no text or no
/// tree.
pub fn handle_signature_help_request(
    id: lsp_server::RequestId,
    params: &TextDocumentPositionParams,
    doc_store: &DocumentStore,
) -> (r: RequestStep)
    requires
        doc_store.wf(),
    ensures
        r.is_for(
            id,
            query_outcome(
                QueryKind::SignatureHelp(params.position),
                params.text_document.uri@,
                params.json@,
                *doc_store,
            ),
        ),
{
    query_with_tree(
        QueryKind::SignatureHelp(params.position),
        id,
        &params.text_document.uri,
        params.json.as_str(),
        doc_store,
    )
}

/// Handles a full semantic tokens request: the empty response where the document has no text or no
/// tree.
pub fn handle_semantic_tokens_full_request(
    id: lsp_server::RequestId,
    params: &TextDocumentParams,
    doc_store: &DocumentStore,
) -> (r: RequestStep)
    requires
        doc_store.wf(),
    ensures
        r.is_for(
            id,
            query_outcome(
                QueryKind::SemanticTokensFull,
                params.text_document.uri@,
                params.json@,
                *doc_store,
            ),
        ),
{
    query_with_tree(
        QueryKind::SemanticTokensFull,
        id,
        &params.text_document.uri,
        params.json.as_str(),
        doc_store,
    )
}

/// Handles a references request: the empty response where the document has no text or no
/// tree.
pub fn handle_references_request(
    id: lsp_server::RequestId,
    params: &ReferenceParams,
    doc_store: &DocumentStore,
) -> (r: RequestStep)
    requires
        doc_store.wf(),
    ensures
        r.is_for(
            id,
            query_outcome(
                QueryKind::References {
                    position: params.text_document_position.position,
                    include_declaration: params.include_declaration,
                },
                params.text_document_position.text_document.uri@,
                params.text_document_position.json@,
                *doc_store,
            ),
        ),
{
    let kind = QueryKind::References {
        position: params.text_document_position.position,
        include_declaration: params.include_declaration,
    };
    query_with_tree(
        kind,
        id,
        &params.text_document_position.text_document.uri,
        params.text_document_position.json.as_str(),
        doc_store,
    )
}

/// `after` is `before` with a document opened: its text is there, with a tree of it.
pub open spec fn was_opened(
    before: DocumentStore,
    after: DocumentStore,
    uri: Seq<char>,
    language_id: Seq<char>,
    version: i32,
    text: Seq<char>,
) -> bool {
    &&& after.documents() == before.documents().insert(
        uri,
        opened(language_id, version, text, true),
    )
    &&& after.entries() == before.entries().insert(uri, after.entries()[uri])
    &&& after.entries()[uri].tree matches Some(tree) && tree@ == text
}

/// `after` is `before` with a document changed: its text and version are new, its tree is dropped.
pub open spec fn was_changed(
    before: DocumentStore,
    after: DocumentStore,
    uri: Seq<char>,
    version: i32,
    changes: Seq<Change>,
) -> bool {
    &&& after.documents() == before.documents().insert(
        uri,
        Document { version, ..all_changed(before.documents()[uri], changes) },
    )
    &&& after.entries() == before.entries().insert(
        uri,
        TreeEntry { tree: None, ..before.entries()[uri] },
    )
}

/// `after` is `before` without a document, its text and its tree.
pub open spec fn was_closed(before: DocumentStore, after: DocumentStore, uri: Seq<char>) -> bool {
    &&& after.documents() == before.documents().remove(uri)
    &&& after.entries() == before.entries().remove(uri)
}

/// Whether changes to a document are followed: it is an assembly file that was opened.
pub open spec fn follows_changes(store: DocumentStore, uri: Seq<char>, asm_uri: bool) -> bool {
    asm_uri && store.entries().contains_key(uri)
}

/// Handles the notification that a document was opened. Documents that are not assembly are left
/// alone.
pub fn handle_did_open_text_document_notification(
    params: &DidOpenTextDocumentParams,
    doc_store: &mut DocumentStore,
)
    requires
        old(doc_store).wf(),
        is_asm_document(
            params.text_document.uri.is_asm(),
            Some(params.text_document.language_id@),
        ) ==> can_open(params.text_document.text@),
    ensures
        final(doc_store).wf(),
        if is_asm_document(
            params.text_document.uri.is_asm(),
            Some(params.text_document.language_id@),
        ) {
            was_opened(
                *old(doc_store),
                *final(doc_store),
                params.text_document.uri@,
                params.text_document.language_id@,
                params.text_document.version,
                params.text_document.text@,
            )
        } else {
            *final(doc_store) == *old(doc_store)
        },
{
    let item = &params.text_document;
    if !is_supported_asm_document(&item.uri, Some(item.language_id.as_str())) {
        return ;
    }
    doc_store.open(&item.uri, item.language_id.as_str(), item.version, item.text.as_str());
}

/// Handles the notification that a document was changed.
///
/// The text is updated and the cached syntax tree is dropped, so that the next request parses the
/// text anew. Documents that are not assembly files, or that were not opened, are left alone.
pub fn handle_did_change_text_document_notification(
    params: &DidChangeTextDocumentParams,
    doc_store: &mut DocumentStore,
) -> (r: Result<(), ChangeDoesNotFit>)
    requires
        old(doc_store).wf(),
        follows_changes(
            *old(doc_store),
            params.text_document.uri@,
            params.text_document.uri.is_asm(),
        ) ==> all_fit(
            old(doc_store).documents()[params.text_document.uri@],
            changes_view(params.content_changes@),
        ),
    ensures
        r is Ok,
        final(doc_store).wf(),
        if follows_changes(
            *old(doc_store),
            params.text_document.uri@,
            params.text_document.uri.is_asm(),
        ) {
            was_changed(
                *old(doc_store),
                *final(doc_store),
                params.text_document.uri@,
                params.text_document.version,
                changes_view(params.content_changes@),
            )
        } else {
            *final(doc_store) == *old(doc_store)
        },
{
    let uri = &params.text_document.uri;
    if !is_supported_asm_uri(uri) || doc_store.tree_entry(uri).is_none() {
        return Ok(());
    }
    proof {
        doc_store.lemma_wf();
    }
    doc_store.change(uri, params.text_document.version, &params.content_changes);
    Ok(())
}

/// Handles the notification that a document was closed. Documents that are neither assembly files
/// nor open are left alone.
pub fn handle_did_close_text_document_notification(
    params: &DidCloseTextDocumentParams,
    doc_store: &mut DocumentStore,
)
    requires
        old(doc_store).wf(),
    ensures
        final(doc_store).wf(),
        was_closed(*old(doc_store), *final(doc_store), params.text_document.uri@),
        !params.text_document.uri.is_asm() && !old(doc_store).entries().contains_key(
            params.text_document.uri@,
        ) ==> *final(doc_store) == *old(doc_store),
{
    let uri = &params.text_document.uri;
    if !is_supported_asm_uri(uri) && doc_store.tree_entry(uri).is_none() {
        proof {
            doc_store.lemma_wf();
            assert(doc_store.documents() =~= doc_store.documents().remove(uri@));
            assert(doc_store.entries() =~= doc_store.entries().remove(uri@));
        }
        return ;
    }
    doc_store.close(uri);
}

/// What `try_did_change` leaves of a document whose changes are followed: all changes are made, or
/// those before the first that does not fit.
pub open spec fn changes_were_tried(
    before: DocumentStore,
    after: DocumentStore,
    uri: Seq<char>,
    version: i32,
    changes: Seq<Change>,
    r: Result<(), ChangeDoesNotFit>,
) -> bool {
    match r {
        Ok(()) => {
            &&& all_fit(before.documents()[uri], changes)
            &&& was_changed(before, after, uri, version, changes)
        },
        Err(ChangeDoesNotFit { index }) => {
            let made = changes.take(index as int);
            &&& index < changes.len()
            &&& all_fit(before.documents()[uri], made)
            &&& !fits(all_changed(before.documents()[uri], made), changes[index as int])
            &&& !all_fit(before.documents()[uri], changes)
            &&& if index == 0 {
                after.documents() == before.documents() && after.entries() == before.entries()
            } else {
                was_changed(before, after, uri, version, made)
            }
        },
    }
}

/// Handles the notification that a document was changed, whatever the changes are: it makes them
/// one after the other, and stops at the first that does not fit the document.
pub fn try_did_change(params: &DidChangeTextDocumentParams, doc_store: &mut DocumentStore) -> (r:
    Result<(), ChangeDoesNotFit>)
    requires
        old(doc_store).wf(),
    ensures
        final(doc_store).wf(),
        if follows_changes(
            *old(doc_store),
            params.text_document.uri@,
            params.text_document.uri.is_asm(),
        ) {
            changes_were_tried(
                *old(doc_store),
                *final(doc_store),
                params.text_document.uri@,
                params.text_document.version,
                changes_view(params.content_changes@),
                r,
            )
        } else {
            r is Ok && *final(doc_store) == *old(doc_store)
        },
{
    let uri = &params.text_document.uri;
    let version = params.text_document.version;
    let changes = &params.content_changes;
    if !is_supported_asm_uri(uri) || doc_store.tree_entry(uri).is_none() {
        return Ok(());
    }
    if changes.len() == 0 {
        return handle_did_change_text_document_notification(params, doc_store);
    }
    let ghost before = *doc_store;
    let ghost document = before.documents()[uri@];
    let ghost all = changes_view(changes@);
    assert(before.documents().contains_key(uri@)) by {
        before.lemma_wf();
    }
    let mut i: usize = 0;
    while i < changes.len()
        invariant
            *uri == params.text_document.uri,
            version == params.text_document.version,
            changes@ == params.content_changes@,
            before == *old(doc_store),
            document == before.documents()[uri@],
            all == changes_view(changes@),
            before.wf(),
            before.documents().contains_key(uri@),
            follows_changes(before, uri@, uri.is_asm()),
            doc_store.wf(),
            i <= changes@.len(),
            all_fit(document, all.take(i as int)),
            i == 0 ==> *doc_store == before,
            i > 0 ==> was_changed(before, *doc_store, uri@, version, all.take(i as int)),
        decreases changes@.len() - i,
    {
        let ghost made = all.take(i as int);
        let ghost now = doc_store.documents()[uri@];
        proof {
            doc_store.lemma_wf();
            lemma_version_apart(document, version, made);
            lemma_version_apart(all_changed(document, made), version, seq![all[i as int]]);
            assert(all.take(i + 1).drop_last() =~= made);
        }
        let fitting = match doc_store.document(uri) {
            Some(document) => change_fits(document, &changes[i]),
            None => false,
        };
        if !fitting {
            proof {
                if all_fit(document, all) {
                    lemma_first_fit(document, all, i as int);
                }
            }
            return Err(ChangeDoesNotFit { index: i });
        }
        let mut content_changes: Vec<TextDocumentContentChangeEvent> = Vec::new();
        content_changes.push(changes[i].clone());
        let text_document = VersionedTextDocumentIdentifier { uri: uri.clone(), version };
        let one = DidChangeTextDocumentParams { text_document, content_changes };
        let ghost single = changes_view(one.content_changes@);
        proof {
            assert(all_fit(now, single.drop_last()));
            assert(all_fit(now, single));
        }
        let _ = handle_did_change_text_document_notification(&one, doc_store);
        proof {
            assert(doc_store.documents() =~= before.documents().insert(
                uri@,
                Document { version, ..all_changed(document, all.take(i + 1)) },
            ));
            assert(doc_store.entries() =~= before.entries().insert(
                uri@,
                TreeEntry { tree: None, ..before.entries()[uri@] },
            ));
        }
        i += 1;
    }
    assert(all.take(changes@.len() as int) =~= all);
    Ok(())
}

/// What an opened document comes to where the system at hand says so of its URI.
pub open spec fn open_came_to(
    before: DocumentStore,
    after: DocumentStore,
    item: OpenItem,
    asm_uri: bool,
) -> bool {
    if is_asm_document(asm_uri, Some(item.language_id)) {
        was_opened(before, after, item.uri, item.language_id, item.version, item.text)
    } else {
        after == before
    }
}

/// What the notification that a document was opened comes to.
pub open spec fn open_was_handled(
    before: DocumentStore,
    after: DocumentStore,
    params: Seq<char>,
    r: Result<NotificationStep, ChangeDoesNotFit>,
) -> bool {
    match open_item(params) {
        Some(item) => {
            &&& r == Ok::<_, ChangeDoesNotFit>(NotificationStep::Done)
            &&& exists|asm_uri: bool| #[trigger]
                may_be_asm(item.uri, asm_uri) && open_came_to(before, after, item, asm_uri)
        },
        None => r == Ok::<_, ChangeDoesNotFit>(NotificationStep::Malformed) && after == before,
    }
}

/// What a changed document comes to where the system at hand says so of its URI.
pub open spec fn change_came_to(
    before: DocumentStore,
    after: DocumentStore,
    item: ChangeItem,
    asm_uri: bool,
    r: Result<(), ChangeDoesNotFit>,
) -> bool {
    if follows_changes(before, item.uri, asm_uri) {
        changes_were_tried(before, after, item.uri, item.version, item.changes, r)
    } else {
        r is Ok && after == before
    }
}

/// What the notification that a document was changed comes to.
pub open spec fn change_was_handled(
    before: DocumentStore,
    after: DocumentStore,
    params: Seq<char>,
    r: Result<NotificationStep, ChangeDoesNotFit>,
) -> bool {
    match change_item(params) {
        Some(item) => {
            let tried = match r {
                Ok(_) => Ok(()),
                Err(misfit) => Err(misfit),
            };
            &&& r is Ok ==> r == Ok::<_, ChangeDoesNotFit>(NotificationStep::Done)
            &&& exists|asm_uri: bool| #[trigger]
                may_be_asm(item.uri, asm_uri) && change_came_to(before, after, item, asm_uri, tried)
        },
        None => r == Ok::<_, ChangeDoesNotFit>(NotificationStep::Malformed) && after == before,
    }
}

/// What the notification that a document was closed comes to.
pub open spec fn close_was_handled(
    before: DocumentStore,
    after: DocumentStore,
    params: Seq<char>,
    r: Result<NotificationStep, ChangeDoesNotFit>,
) -> bool {
    match close_document(params) {
        Some(uri) => {
            &&& r == Ok::<_, ChangeDoesNotFit>(NotificationStep::Done)
            &&& was_closed(before, after, uri)
        },
        None => r == Ok::<_, ChangeDoesNotFit>(NotificationStep::Malformed) && after == before,
    }
}

/// What a saved document comes to where the system at hand says so of its URI.
pub open spec fn save_came_to(
    before: DocumentStore,
    uri: Seq<char>,
    asm_uri: bool,
    r: Result<NotificationStep, ChangeDoesNotFit>,
) -> bool {
    if asm_uri && before.entries().contains_key(uri) {
        r matches Ok(NotificationStep::Diagnose(document)) && document@ == uri && document.is_asm()
    } else {
        r == Ok::<_, ChangeDoesNotFit>(NotificationStep::Done)
    }
}

/// What the notification that a document was saved comes to: diagnostics for an assembly file that
/// was opened.
pub open spec fn save_was_handled(
    before: DocumentStore,
    after: DocumentStore,
    params: Seq<char>,
    r: Result<NotificationStep, ChangeDoesNotFit>,
) -> bool {
    &&& after == before
    &&& match save_document(params) {
        Some(uri) => exists|asm_uri: bool| #[trigger]
            may_be_asm(uri, asm_uri) && save_came_to(before, uri, asm_uri, r),
        None => r == Ok::<_, ChangeDoesNotFit>(NotificationStep::Malformed),
    }
}

/// What a notification comes to: nothing where its method is unknown.
pub open spec fn notification_was_handled(
    before: DocumentStore,
    after: DocumentStore,
    method: Seq<char>,
    params: Seq<char>,
    r: Result<NotificationStep, ChangeDoesNotFit>,
) -> bool {
    match notification_method(method) {
        Some(NotificationMethod::DidOpen) => open_was_handled(before, after, params, r),
        Some(NotificationMethod::DidChange) => change_was_handled(before, after, params, r),
        Some(NotificationMethod::DidClose) => close_was_handled(before, after, params, r),
        Some(NotificationMethod::DidSave) => save_was_handled(before, after, params, r),
        None => r == Ok::<_, ChangeDoesNotFit>(NotificationStep::Unknown) && after == before,
    }
}

/// Handles a notification from the client.
///
/// Nothing is done where the method is unknown or the parameters are malformed. Changes are made up
/// to the first that does not fit its document.
pub fn handle_notification(notif: &Notification, doc_store: &mut DocumentStore) -> (r: Result<
    NotificationStep,
    ChangeDoesNotFit,
>)
    requires
        old(doc_store).wf(),
        within_limit(notif.params@),
    ensures
        final(doc_store).wf(),
        notification_was_handled(
            *old(doc_store),
            *final(doc_store),
            notif.method@,
            notif.params@,
            r,
        ),
{
    let params = notif.params.as_str();
    match NotificationMethod::named(notif.method.as_str()) {
        Some(NotificationMethod::DidOpen) => {
            let (document, language_id, version, text) = match cast_open(params) {
                Some(item) => item,
                None => return Ok(NotificationStep::Malformed),
            };
            let uri = identified(document.as_str()).uri;
            assert(may_be_asm(open_item(notif.params@)->0.uri, uri.is_asm()));
            proof {
                lemma_can_open(text@);
            }
            let text_document = TextDocumentItem { uri, language_id, version, text };
            let params = DidOpenTextDocumentParams { text_document };
            handle_did_open_text_document_notification(&params, doc_store);
            Ok(NotificationStep::Done)
        },
        Some(NotificationMethod::DidChange) => {
            let (document, version, content_changes) = match cast_change(params) {
                Some(item) => item,
                None => return Ok(NotificationStep::Malformed),
            };
            let uri = identified(document.as_str()).uri;
            assert(may_be_asm(change_item(notif.params@)->0.uri, uri.is_asm()));
            let text_document = VersionedTextDocumentIdentifier { uri, version };
            let params = DidChangeTextDocumentParams { text_document, content_changes };
            match try_did_change(&params, doc_store) {
                Ok(()) => Ok(NotificationStep::Done),
                Err(misfit) => Err(misfit),
            }
        },
        Some(NotificationMethod::DidClose) => {
            let document = match cast_close(params) {
                Some(document) => document,
                None => return Ok(NotificationStep::Malformed),
            };
            let uri = identified(document.as_str()).uri;
            let params = DidCloseTextDocumentParams {
                text_document: TextDocumentIdentifier { uri },
            };
            handle_did_close_text_document_notification(&params, doc_store);
            Ok(NotificationStep::Done)
        },
        Some(NotificationMethod::DidSave) => {
            let document = match cast_save(params) {
                Some(document) => document,
                None => return Ok(NotificationStep::Malformed),
            };
            let uri = identified(document.as_str()).uri;
            assert(may_be_asm(save_document(notif.params@)->0, uri.is_asm()));
            if !is_supported_asm_uri(&uri) || doc_store.tree_entry(&uri).is_none() {
                return Ok(NotificationStep::Done);
            }
            Ok(NotificationStep::Diagnose(uri))
        },
        None => Ok(NotificationStep::Unknown),
    }
}

} // verus!
