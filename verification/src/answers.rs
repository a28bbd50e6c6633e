//! What the client gets for its requests, in terms of their parameters and of the open documents.

use vstd::prelude::*;

use crate::documents::Change;
use crate::handle::query_outcome;
use crate::handle::request_was_handled;
use crate::handle::was_changed;
use crate::params::completion_target;
use crate::params::definition_target;
use crate::params::diagnostic_document;
use crate::params::hover_target;
use crate::params::references_target;
use crate::params::signature_target;
use crate::params::symbols_document;
use crate::params::tokens_document;
use crate::path::extension;
use crate::protocol::notification_method;
use crate::protocol::request_method;
use crate::protocol::NotificationMethod;
use crate::protocol::Query;
use crate::protocol::QueryKind;
use crate::protocol::Reply;
use crate::protocol::RequestMethod;
use crate::protocol::RequestStep;
use crate::protocol::Response;
use crate::store::DocumentStore;
use crate::text::ascii_lowercase;
use crate::uri::uri_path;

verus! {

/// No two of the methods of requests are the same.
pub proof fn lemma_request_methods_differ()
    ensures
        "textDocument/hover"@.len() == 18,
        "textDocument/completion"@.len() == 23,
        "textDocument/definition"@.len() == 23,
        "textDocument/documentSymbol"@.len() == 27,
        "textDocument/signatureHelp"@.len() == 26,
        "textDocument/references"@.len() == 23,
        "textDocument/semanticTokens/full"@.len() == 32,
        "textDocument/diagnostic"@.len() == 23,
        "textDocument/completion"@[13] == 'c',
        "textDocument/definition"@[13] == 'd',
        "textDocument/definition"@[14] == 'e',
        "textDocument/diagnostic"@[13] == 'd',
        "textDocument/diagnostic"@[14] == 'i',
        "textDocument/references"@[13] == 'r',
{
    reveal_strlit("textDocument/hover");
    reveal_strlit("textDocument/completion");
    reveal_strlit("textDocument/definition");
    reveal_strlit("textDocument/documentSymbol");
    reveal_strlit("textDocument/signatureHelp");
    reveal_strlit("textDocument/references");
    reveal_strlit("textDocument/semanticTokens/full");
    reveal_strlit("textDocument/diagnostic");
}

/// No two of the methods of notifications are the same.
pub proof fn lemma_notification_methods_differ()
    ensures
        "textDocument/didOpen"@.len() == 20,
        "textDocument/didChange"@.len() == 22,
        "textDocument/didClose"@.len() == 21,
        "textDocument/didSave"@.len() == 20,
        "textDocument/didOpen"@[16] == 'O',
        "textDocument/didSave"@[16] == 'S',
{
    reveal_strlit("textDocument/didOpen");
    reveal_strlit("textDocument/didChange");
    reveal_strlit("textDocument/didClose");
    reveal_strlit("textDocument/didSave");
}

/// Each request has a method of its own, and every other method names none.
pub proof fn law_methods_of_requests(method: Seq<char>)
    ensures
        request_method(method) == Some(RequestMethod::Hover) <==> method == "textDocument/hover"@,
        request_method(method) == Some(RequestMethod::Completion) <==> method
            == "textDocument/completion"@,
        request_method(method) == Some(RequestMethod::GotoDefinition) <==> method
            == "textDocument/definition"@,
        request_method(method) == Some(RequestMethod::DocumentSymbol) <==> method
            == "textDocument/documentSymbol"@,
        request_method(method) == Some(RequestMethod::SignatureHelp) <==> method
            == "textDocument/signatureHelp"@,
        request_method(method) == Some(RequestMethod::References) <==> method
            == "textDocument/references"@,
        request_method(method) == Some(RequestMethod::SemanticTokensFull) <==> method
            == "textDocument/semanticTokens/full"@,
        request_method(method) == Some(RequestMethod::DocumentDiagnostic) <==> method
            == "textDocument/diagnostic"@,
{
    lemma_request_methods_differ();
}

/// Each notification has a method of its own, and every other method names none.
pub proof fn law_methods_of_notifications(method: Seq<char>)
    ensures
        notification_method(method) == Some(NotificationMethod::DidOpen) <==> method
            == "textDocument/didOpen"@,
        notification_method(method) == Some(NotificationMethod::DidChange) <==> method
            == "textDocument/didChange"@,
        notification_method(method) == Some(NotificationMethod::DidClose) <==> method
            == "textDocument/didClose"@,
        notification_method(method) == Some(NotificationMethod::DidSave) <==> method
            == "textDocument/didSave"@,
{
    lemma_notification_methods_differ();
}

/// A hover request is put to the open document that it names, as a hover at the position that it
/// names, and else gets the empty response.
pub proof fn law_hover_is_asked(
    store: DocumentStore,
    id: lsp_server::RequestId,
    params: Seq<char>,
    step: RequestStep,
)
    requires
        request_was_handled(store, id, "textDocument/hover"@, params, step),
    ensures
        match hover_target(params) {
            Some((uri, position)) => if store.documents().contains_key(uri) {
                &&& step is Compute
                &&& step->Compute_0.id == id
                &&& step->Compute_0.kind == QueryKind::Hover(position)
                &&& step->Compute_0.uri@ == uri
                &&& step->Compute_0.json@ == params
            } else {
                step == RequestStep::Reply(Reply::Empty(id))
            },
            None => step is Malformed,
        },
{
    law_methods_of_requests("textDocument/hover"@);
}

/// A completion request is put to the open document that it names, as one for completions at the
/// position that it names, whether or not the tree is up to date, and else gets the empty response.
pub proof fn law_completion_is_asked(
    store: DocumentStore,
    id: lsp_server::RequestId,
    params: Seq<char>,
    step: RequestStep,
)
    requires
        request_was_handled(store, id, "textDocument/completion"@, params, step),
    ensures
        match completion_target(params) {
            Some((uri, position)) => if store.documents().contains_key(uri)
                && store.entries().contains_key(uri) {
                &&& step is Compute
                &&& step->Compute_0.id == id
                &&& step->Compute_0.kind == QueryKind::Completion(position)
                &&& step->Compute_0.uri@ == uri
                &&& step->Compute_0.json@ == params
            } else {
                step == RequestStep::Reply(Reply::Empty(id))
            },
            None => step is Malformed,
        },
{
    law_methods_of_requests("textDocument/completion"@);
}

/// A definition request is put to the open document that it names, as one for the definition at the
/// position that it names, whether or not the tree is up to date, and else gets the empty response.
pub proof fn law_definition_is_asked(
    store: DocumentStore,
    id: lsp_server::RequestId,
    params: Seq<char>,
    step: RequestStep,
)
    requires
        request_was_handled(store, id, "textDocument/definition"@, params, step),
    ensures
        match definition_target(params) {
            Some((uri, position)) => if store.documents().contains_key(uri)
                && store.entries().contains_key(uri) {
                &&& step is Compute
                &&& step->Compute_0.id == id
                &&& step->Compute_0.kind == QueryKind::GotoDefinition(position)
                &&& step->Compute_0.uri@ == uri
                &&& step->Compute_0.json@ == params
            } else {
                step == RequestStep::Reply(Reply::Empty(id))
            },
            None => step is Malformed,
        },
{
    law_methods_of_requests("textDocument/definition"@);
}

/// A symbols request is put to the open document that it names, as one for its symbols, whether or
/// not the tree is up to date, and else gets the empty response.
pub proof fn law_symbols_are_asked(
    store: DocumentStore,
    id: lsp_server::RequestId,
    params: Seq<char>,
    step: RequestStep,
)
    requires
        request_was_handled(store, id, "textDocument/documentSymbol"@, params, step),
    ensures
        match symbols_document(params) {
            Some(uri) => if store.documents().contains_key(uri)
                && store.entries().contains_key(uri) {
                &&& step is Compute
                &&& step->Compute_0.id == id
                &&& step->Compute_0.kind == QueryKind::DocumentSymbol
                &&& step->Compute_0.uri@ == uri
                &&& step->Compute_0.json@ == params
            } else {
                step == RequestStep::Reply(Reply::Empty(id))
            },
            None => step is Malformed,
        },
{
    law_methods_of_requests("textDocument/documentSymbol"@);
}

/// A signature help request is put to the open document that it names, as one for help at the
/// position that it names, whether or not the tree is up to date, and else gets the empty response.
pub proof fn law_signature_help_is_asked(
    store: DocumentStore,
    id: lsp_server::RequestId,
    params: Seq<char>,
    step: RequestStep,
)
    requires
        request_was_handled(store, id, "textDocument/signatureHelp"@, params, step),
    ensures
        match signature_target(params) {
            Some((uri, position)) => if store.documents().contains_key(uri)
                && store.entries().contains_key(uri) {
                &&& step is Compute
                &&& step->Compute_0.id == id
                &&& step->Compute_0.kind == QueryKind::SignatureHelp(position)
                &&& step->Compute_0.uri@ == uri
                &&& step->Compute_0.json@ == params
            } else {
                step == RequestStep::Reply(Reply::Empty(id))
            },
            None => step is Malformed,
        },
{
    law_methods_of_requests("textDocument/signatureHelp"@);
}

/// A references request is put to the open document that it names, as one for references at the
/// position that it names, with declarations where it asks for them, whether or not the tree is up
/// to date, and else gets the empty response.
pub proof fn law_references_are_asked(
    store: DocumentStore,
    id: lsp_server::RequestId,
    params: Seq<char>,
    step: RequestStep,
)
    requires
        request_was_handled(store, id, "textDocument/references"@, params, step),
    ensures
        match references_target(params) {
            Some((uri, position, include_declaration)) => if store.documents().contains_key(uri)
                && store.entries().contains_key(uri) {
                &&& step is Compute
                &&& step->Compute_0.id == id
                &&& step->Compute_0.kind == (QueryKind::References {
                    position,
                    include_declaration,
                })
                &&& step->Compute_0.uri@ == uri
                &&& step->Compute_0.json@ == params
            } else {
                step == RequestStep::Reply(Reply::Empty(id))
            },
            None => step is Malformed,
        },
{
    law_methods_of_requests("textDocument/references"@);
}

/// A semantic tokens request is put to the open document that it names, as one for its tokens,
/// whether or not the tree is up to date, and else gets the empty response.
pub proof fn law_tokens_are_asked(
    store: DocumentStore,
    id: lsp_server::RequestId,
    params: Seq<char>,
    step: RequestStep,
)
    requires
        request_was_handled(store, id, "textDocument/semanticTokens/full"@, params, step),
    ensures
        match tokens_document(params) {
            Some(uri) => if store.documents().contains_key(uri)
                && store.entries().contains_key(uri) {
                &&& step is Compute
                &&& step->Compute_0.id == id
                &&& step->Compute_0.kind == QueryKind::SemanticTokensFull
                &&& step->Compute_0.uri@ == uri
                &&& step->Compute_0.json@ == params
            } else {
                step == RequestStep::Reply(Reply::Empty(id))
            },
            None => step is Malformed,
        },
{
    law_methods_of_requests("textDocument/semanticTokens/full"@);
}

/// A request for diagnostics leads to the named file being diagnosed where its extension is `asm`
/// or `s` in whatever case, unless the system at hand may take the beginning of its path for a
/// prefix, and to nothing where its extension is another.
pub proof fn law_diagnostics_are_requested(
    store: DocumentStore,
    id: lsp_server::RequestId,
    params: Seq<char>,
    step: RequestStep,
)
    requires
        request_was_handled(store, id, "textDocument/diagnostic"@, params, step),
    ensures
        match diagnostic_document(params) {
            Some(uri) => {
                let path = uri_path(uri)->0;
                let named = uri_path(uri) is Some && extension(path) is Some && (ascii_lowercase(
                    extension(path)->0,
                ) == "asm"@ || ascii_lowercase(extension(path)->0) == "s"@);
                let prefixed = path.len() >= 2 && (path[1] == ':' || path[0] == '/' && path[1]
                    == '/');
                &&& step is Nothing || step is Diagnose && step->Diagnose_0@ == uri
                &&& named && !prefixed ==> step is Diagnose
                &&& !named ==> step is Nothing
            },
            None => step is Malformed,
        },
{
    law_methods_of_requests("textDocument/diagnostic"@);
}

/// A request of any other method leads to nothing.
pub proof fn law_other_requests_are_unknown(
    store: DocumentStore,
    id: lsp_server::RequestId,
    method: Seq<char>,
    params: Seq<char>,
    step: RequestStep,
)
    requires
        request_was_handled(store, id, method, params, step),
        method != "textDocument/hover"@,
        method != "textDocument/completion"@,
        method != "textDocument/definition"@,
        method != "textDocument/documentSymbol"@,
        method != "textDocument/signatureHelp"@,
        method != "textDocument/references"@,
        method != "textDocument/semanticTokens/full"@,
        method != "textDocument/diagnostic"@,
    ensures
        step is Unknown,
{
    law_methods_of_requests(method);
}

/// A query is put to its document as it is, under its own identifier, where the document is open
/// and has a tree entry, or is only asked for a hover. Else the request gets the empty response.
pub proof fn law_queries_are_put_as_they_are(
    store: DocumentStore,
    id: lsp_server::RequestId,
    kind: QueryKind,
    uri: Seq<char>,
    json: Seq<char>,
    step: RequestStep,
)
    requires
        step.is_for(id, query_outcome(kind, uri, json, store)),
    ensures
        if store.documents().contains_key(uri) && (kind is Hover || store.entries().contains_key(
            uri,
        )) {
            &&& step is Compute
            &&& step->Compute_0.id == id
            &&& step->Compute_0.kind == kind
            &&& step->Compute_0.uri@ == uri
            &&& step->Compute_0.json@ == json
        } else {
            step == RequestStep::Reply(Reply::Empty(id))
        },
{
}

/// A document that was changed is asked what the request asks, before its tree is made anew.
pub proof fn law_changed_document_is_asked(
    before: DocumentStore,
    after: DocumentStore,
    uri: Seq<char>,
    version: i32,
    changes: Seq<Change>,
    id: lsp_server::RequestId,
    kind: QueryKind,
    json: Seq<char>,
    step: RequestStep,
)
    requires
        was_changed(before, after, uri, version, changes),
        step.is_for(id, query_outcome(kind, uri, json, after)),
    ensures
        after.entries()[uri].tree is None,
        step is Compute,
        step->Compute_0.id == id,
        step->Compute_0.kind == kind,
        step->Compute_0.uri@ == uri,
        step->Compute_0.json@ == json,
{
}

/// What a query finds is the result of the response, whatever was asked, and only where it finds
/// nothing is the response empty. Either goes out under the identifier of the request.
pub proof fn law_what_is_found_is_sent(
    query: Query,
    found: Option<serde_json::Value>,
    reply: Reply,
)
    requires
        query.is_answered(found, reply),
    ensures
        found matches Some(value) ==> reply == Reply::Response(
            Response { id: query.id, result: Some(value), error: None },
        ),
        found is None ==> reply == Reply::Empty(query.id),
        reply.id() == query.id,
{
}

/// A reply that is given at once is sent as it is, a query leads to its answer, and nothing else
/// leads to a reply.
pub proof fn law_steps_lead_to_their_replies(
    step: RequestStep,
    found: Option<serde_json::Value>,
    reply: Option<Reply>,
)
    requires
        step.leads_to(found, reply),
    ensures
        step matches RequestStep::Reply(now) ==> reply == Some(now),
        step matches RequestStep::Compute(query) ==> match found {
            Some(value) => reply == Some(
                Reply::Response(Response { id: query.id, result: Some(value), error: None }),
            ),
            None => reply == Some(Reply::Empty(query.id)),
        },
        !(step is Reply) && !(step is Compute) ==> reply is None,
{
}

} // verus!
