//! What holds of the server as a whole.

use vstd::prelude::*;

use crate::diagnostics::chosen;
use crate::diagnostics::commands_for;
use crate::diagnostics::wants_diagnostics;
use crate::diagnostics::Component;
use crate::diagnostics::Config;
use crate::diagnostics::SourceFile;
use crate::documents::all_changed;
use crate::documents::all_fit;
use crate::documents::lemma_all_changed_keeps;
use crate::documents::lemma_version_apart;
use crate::documents::Change;
use crate::documents::Document;
use crate::filter::is_asm_language;
use crate::filter::is_asm_path;
use crate::filter::is_asm_uri;
use crate::filter::may_be_asm;
use crate::handle::change_was_handled;
use crate::handle::notification_was_handled;
use crate::handle::query_outcome;
use crate::handle::request_was_handled;
use crate::handle::save_was_handled;
use crate::handle::was_changed;
use crate::handle::was_closed;
use crate::handle::was_opened;
use crate::handle::RequestOutcome;
use crate::params::change_item;
use crate::params::close_document;
use crate::params::open_item;
use crate::params::save_document;
use crate::path::extension;
use crate::path::file_name;
use crate::path::last_position;
use crate::path::lemma_last_position;
use crate::path::may_have_prefix;
use crate::protocol::notification_method;
use crate::protocol::request_method;
use crate::protocol::request_target;
use crate::protocol::ChangeDoesNotFit;
use crate::protocol::NotificationMethod;
use crate::protocol::NotificationStep;
use crate::protocol::QueryKind;
use crate::protocol::Reply;
use crate::protocol::RequestMethod;
use crate::protocol::RequestStep;
use crate::protocol::Response;
use crate::protocol::Target;
use crate::store::DocumentStore;
use crate::text::ascii_lowercase;
use crate::uri::uri_path;

verus! {

/// The case of ASCII letters in a language id does not matter.
pub proof fn law_language_case(a: Seq<char>, b: Seq<char>)
    requires
        ascii_lowercase(a) == ascii_lowercase(b),
    ensures
        is_asm_language(a) == is_asm_language(b),
{
}

/// The case of ASCII letters in an extension does not matter.
pub proof fn law_extension_case(a: Seq<char>, b: Seq<char>)
    requires
        extension(a) is Some,
        extension(b) is Some,
        ascii_lowercase(extension(a)->0) == ascii_lowercase(extension(b)->0),
    ensures
        is_asm_path(a) == is_asm_path(b),
{
}

/// A file is told by its name alone, whatever directory it is in.
pub proof fn law_directory_does_not_matter(directory: Seq<char>, name: Seq<char>)
    requires
        name.len() > 0,
        !name.contains('/'),
        name != seq!['.'],
        name != seq!['.', '.'],
    ensures
        file_name(directory + seq!['/'] + name) == Some(name),
        is_asm_path(directory + seq!['/'] + name) == is_asm_path(name),
{
    let path = directory + seq!['/'] + name;
    let slash = directory.len() as int;
    lemma_last_position(path, '/');
    assert(path[slash] == '/');
    assert(last_position(path, '/') == slash);
    assert(path.skip(slash + 1) =~= name);
    lemma_last_position(name, '/');
    assert(last_position(name, '/') == -1);
    assert(name.skip(0) =~= name);
}

/// Opening a document keeps the store consistent.
pub proof fn law_open_keeps_consistency(
    before: DocumentStore,
    after: DocumentStore,
    uri: Seq<char>,
    language_id: Seq<char>,
    version: i32,
    text: Seq<char>,
)
    requires
        before.is_consistent(),
        was_opened(before, after, uri, language_id, version, text),
    ensures
        after.is_consistent(),
{
}

/// Changing a document keeps the store consistent: the tree of the old text is gone.
pub proof fn law_change_keeps_consistency(
    before: DocumentStore,
    after: DocumentStore,
    uri: Seq<char>,
    version: i32,
    changes: Seq<Change>,
)
    requires
        before.is_consistent(),
        was_changed(before, after, uri, version, changes),
    ensures
        after.is_consistent(),
        after.entries()[uri].tree is None,
{
}

/// Closing a document keeps the store consistent.
pub proof fn law_close_keeps_consistency(
    before: DocumentStore,
    after: DocumentStore,
    uri: Seq<char>,
)
    requires
        before.is_consistent(),
        was_closed(before, after, uri),
    ensures
        after.is_consistent(),
{
}

/// Every notification keeps the store consistent: texts and tree entries are there for the same
/// documents.
pub proof fn law_notifications_keep_consistency(
    before: DocumentStore,
    after: DocumentStore,
    method: Seq<char>,
    params: Seq<char>,
    r: Result<NotificationStep, ChangeDoesNotFit>,
)
    requires
        before.is_consistent(),
        notification_was_handled(before, after, method, params, r),
    ensures
        after.is_consistent(),
        forall|uri: Seq<char>|
            after.documents().contains_key(uri) <==> #[trigger] after.entries().contains_key(uri),
{
    assert(after.entries().dom() == after.documents().dom());
}

/// What is opened under one URI leaves every other document, and its tree, as they are.
pub proof fn law_open_leaves_others(
    before: DocumentStore,
    after: DocumentStore,
    uri: Seq<char>,
    language_id: Seq<char>,
    version: i32,
    text: Seq<char>,
    other: Seq<char>,
)
    requires
        was_opened(before, after, uri, language_id, version, text),
        other != uri,
    ensures
        after.documents().contains_key(other) == before.documents().contains_key(other),
        before.documents().contains_key(other) ==> after.documents()[other]
            == before.documents()[other],
        after.entries().contains_key(other) == before.entries().contains_key(other),
        before.entries().contains_key(other) ==> after.entries()[other] == before.entries()[other],
{
}

/// What changes under one URI leaves every other document, and its tree, as they are.
pub proof fn law_change_leaves_others(
    before: DocumentStore,
    after: DocumentStore,
    uri: Seq<char>,
    version: i32,
    changes: Seq<Change>,
    other: Seq<char>,
)
    requires
        was_changed(before, after, uri, version, changes),
        other != uri,
    ensures
        after.documents().contains_key(other) == before.documents().contains_key(other),
        before.documents().contains_key(other) ==> after.documents()[other]
            == before.documents()[other],
        after.entries().contains_key(other) == before.entries().contains_key(other),
        before.entries().contains_key(other) ==> after.entries()[other] == before.entries()[other],
{
}

/// What is closed under one URI leaves every other document, and its tree, as they are.
pub proof fn law_close_leaves_others(
    before: DocumentStore,
    after: DocumentStore,
    uri: Seq<char>,
    other: Seq<char>,
)
    requires
        was_closed(before, after, uri),
        other != uri,
    ensures
        after.documents().contains_key(other) == before.documents().contains_key(other),
        before.documents().contains_key(other) ==> after.documents()[other]
            == before.documents()[other],
        after.entries().contains_key(other) == before.entries().contains_key(other),
        before.entries().contains_key(other) ==> after.entries()[other] == before.entries()[other],
{
}

/// Whether a document was changed, or its tree made anew.
pub open spec fn was_worked_on(
    before: DocumentStore,
    after: DocumentStore,
    uri: Seq<char>,
) -> bool {
    ||| exists|version: i32, changes: Seq<Change>|
        #[trigger] was_changed(before, after, uri, version, changes)
    ||| before.is_refreshed_to(after, uri)
}

/// Working on a document, however often, leaves all others as they are.
pub proof fn law_work_leaves_others(stores: Seq<DocumentStore>, uri: Seq<char>)
    requires
        stores.len() > 0,
        forall|i: int|
            0 <= i < stores.len() - 1 ==> was_worked_on(#[trigger] stores[i], stores[i + 1], uri),
    ensures
        stores.last().documents().remove(uri) == stores[0].documents().remove(uri),
        stores.last().entries().remove(uri) == stores[0].entries().remove(uri),
    decreases stores.len(),
{
    if stores.len() > 1 {
        let fewer = stores.drop_last();
        assert forall|i: int| 0 <= i < fewer.len() - 1 implies was_worked_on(
            #[trigger] fewer[i],
            fewer[i + 1],
            uri,
        ) by {
            assert(was_worked_on(stores[i], stores[i + 1], uri));
        }
        law_work_leaves_others(fewer, uri);
        let before = stores[stores.len() - 2];
        assert(was_worked_on(before, stores[stores.len() - 2 + 1], uri));
        let after = stores.last();
        assert(after.documents().remove(uri) =~= before.documents().remove(uri));
        assert(after.entries().remove(uri) =~= before.entries().remove(uri));
    }
}

/// Closing undoes opening, whatever was done to the document in between: one that was not open
/// before is gone without a trace.
pub proof fn law_close_undoes_open(
    before: DocumentStore,
    between: Seq<DocumentStore>,
    after: DocumentStore,
    uri: Seq<char>,
    language_id: Seq<char>,
    version: i32,
    text: Seq<char>,
)
    requires
        before.is_consistent(),
        !before.documents().contains_key(uri),
        between.len() > 0,
        was_opened(before, between[0], uri, language_id, version, text),
        forall|i: int|
            0 <= i < between.len() - 1 ==> was_worked_on(
                #[trigger] between[i],
                between[i + 1],
                uri,
            ),
        was_closed(between.last(), after, uri),
    ensures
        after.documents() == before.documents(),
        after.entries() == before.entries(),
{
    law_work_leaves_others(between, uri);
    assert(between[0].documents().remove(uri) =~= before.documents());
    assert(between[0].entries().remove(uri) =~= before.entries());
}

/// Opening a document again is opening it once, as it was opened last.
pub proof fn law_last_open_counts(
    before: DocumentStore,
    between: DocumentStore,
    after: DocumentStore,
    uri: Seq<char>,
    first: (Seq<char>, i32, Seq<char>),
    last: (Seq<char>, i32, Seq<char>),
)
    requires
        was_opened(before, between, uri, first.0, first.1, first.2),
        was_opened(between, after, uri, last.0, last.1, last.2),
    ensures
        was_opened(before, after, uri, last.0, last.1, last.2),
{
    let document = after.documents()[uri];
    assert(after.documents() =~= before.documents().insert(uri, document));
    assert(after.entries() =~= before.entries().insert(uri, after.entries()[uri]));
}

/// A document that was opened can be asked anything.
pub proof fn law_opened_can_be_asked(
    before: DocumentStore,
    after: DocumentStore,
    uri: Seq<char>,
    language_id: Seq<char>,
    version: i32,
    text: Seq<char>,
    kind: QueryKind,
    json: Seq<char>,
)
    requires
        was_opened(before, after, uri, language_id, version, text),
    ensures
        query_outcome(kind, uri, json, after) == RequestOutcome::Compute(kind, uri, json),
{
}

/// A document that was closed can be asked nothing: every query gets the empty response.
pub proof fn law_closed_cannot_be_asked(
    before: DocumentStore,
    after: DocumentStore,
    uri: Seq<char>,
    kind: QueryKind,
    json: Seq<char>,
)
    requires
        was_closed(before, after, uri),
    ensures
        query_outcome(kind, uri, json, after) == RequestOutcome::Empty,
{
}

/// In a consistent store a document that can be asked one thing can be asked everything.
pub proof fn law_all_queries_alike(
    store: DocumentStore,
    uri: Seq<char>,
    one: QueryKind,
    other: QueryKind,
    json: Seq<char>,
)
    requires
        store.is_consistent(),
    ensures
        query_outcome(one, uri, json, store) is Compute <==> query_outcome(
            other,
            uri,
            json,
            store,
        ) is Compute,
        query_outcome(one, uri, json, store) is Compute <==> store.documents().contains_key(uri),
{
}

/// A well-formed request that is not one for diagnostics comes to what its query comes to, with the
/// position and all the other parameters of the request.
pub proof fn law_requests_reach_their_handlers(
    store: DocumentStore,
    id: lsp_server::RequestId,
    method: Seq<char>,
    params: Seq<char>,
    step: RequestStep,
    known: RequestMethod,
    kind: QueryKind,
    uri: Seq<char>,
)
    requires
        request_was_handled(store, id, method, params, step),
        request_method(method) == Some(known),
        request_target(known, params) == Some((Target { uri, kind: Some(kind) })),
    ensures
        step.is_for(id, query_outcome(kind, uri, params, store)),
{
}

/// Every well-formed request that is not one for diagnostics gets exactly one reply, under its own
/// identifier and without an error: at once and empty where the document is not open, and otherwise
/// with what the query finds.
pub proof fn law_well_formed_requests_are_answered(
    store: DocumentStore,
    id: lsp_server::RequestId,
    method: Seq<char>,
    params: Seq<char>,
    step: RequestStep,
    known: RequestMethod,
    target: Target,
    found: Option<serde_json::Value>,
    reply: Option<Reply>,
)
    requires
        store.is_consistent(),
        request_was_handled(store, id, method, params, step),
        request_method(method) == Some(known),
        known != RequestMethod::DocumentDiagnostic,
        request_target(known, params) == Some(target),
        step.leads_to(found, reply),
    ensures
        reply is Some,
        reply->0.id() == id,
        reply->0 matches Reply::Response(response) ==> response.error is None,
        if store.documents().contains_key(target.uri) {
            &&& step is Compute
            &&& match found {
                Some(value) => reply->0 == Reply::Response(
                    Response { id, result: Some(value), error: None },
                ),
                None => reply->0 == Reply::Empty(id),
            }
        } else {
            step is Reply && reply->0 == Reply::Empty(id)
        },
{
}

/// A request for diagnostics is never answered with a response. For an assembly file, open or not,
/// it leads to the file being diagnosed, which is done where diagnostics are switched on. For other
/// files it leads to nothing.
pub proof fn law_diagnostics_requests_follow_the_switch(
    store: DocumentStore,
    id: lsp_server::RequestId,
    method: Seq<char>,
    params: Seq<char>,
    step: RequestStep,
    uri: Seq<char>,
    cfg: Config,
)
    requires
        request_was_handled(store, id, method, params, step),
        request_method(method) == Some(RequestMethod::DocumentDiagnostic),
        request_target(RequestMethod::DocumentDiagnostic, params) == Some(
            (Target { uri, kind: None }),
        ),
    ensures
        forall|found: Option<serde_json::Value>, reply: Option<Reply>| #[trigger]
            step.leads_to(found, reply) ==> reply is None,
        match step {
            RequestStep::Diagnose(document) => {
                &&& document@ == uri
                &&& is_asm_uri(uri)
                &&& wants_diagnostics(document.is_asm(), cfg) == cfg.is_switched_on()
            },
            _ => step is Nothing && may_be_asm(uri, false),
        },
{
}

/// Saving an assembly file that is open leads to its being diagnosed, which is done where
/// diagnostics are switched on. Saving any other file leads to nothing.
pub proof fn law_saves_follow_the_switch(
    before: DocumentStore,
    after: DocumentStore,
    params: Seq<char>,
    r: Result<NotificationStep, ChangeDoesNotFit>,
    uri: Seq<char>,
    cfg: Config,
)
    requires
        save_document(params) == Some(uri),
        save_was_handled(before, after, params, r),
    ensures
        after == before,
        match r {
            Ok(NotificationStep::Diagnose(document)) => {
                &&& document@ == uri
                &&& is_asm_uri(uri)
                &&& before.entries().contains_key(uri)
                &&& wants_diagnostics(document.is_asm(), cfg) == cfg.is_switched_on()
            },
            _ => {
                &&& r == Ok::<_, ChangeDoesNotFit>(NotificationStep::Done)
                &&& may_be_asm(uri, false) || !before.entries().contains_key(uri)
            },
        },
{
}

/// A URI whose path no system takes for one with a prefix names an assembly file on every system,
/// or on none.
pub proof fn law_systems_agree(uri: Seq<char>, here: bool, there: bool)
    requires
        uri_path(uri) is Some,
        !may_have_prefix(uri_path(uri)->0),
        may_be_asm(uri, here),
        may_be_asm(uri, there),
    ensures
        here == there,
        here == is_asm_uri(uri),
{
}

/// Diagnostics are only ever produced for assembly files.
pub proof fn law_only_asm_is_diagnosed(
    store: DocumentStore,
    id: lsp_server::RequestId,
    method: Seq<char>,
    params: Seq<char>,
    step: RequestStep,
)
    requires
        request_was_handled(store, id, method, params, step),
    ensures
        step matches RequestStep::Diagnose(uri) ==> uri.is_asm() && is_asm_uri(uri@),
{
}

/// After a change, the next request works on the tree of the changed text.
pub proof fn law_change_then_parse(
    before: DocumentStore,
    changed: DocumentStore,
    after: DocumentStore,
    uri: Seq<char>,
    version: i32,
    changes: Seq<Change>,
)
    requires
        was_changed(before, changed, uri, version, changes),
        changed.is_refreshed_to(after, uri),
    ensures
        after.entries()[uri].tree is Some,
        after.entries()[uri].tree->0@ == all_changed(before.documents()[uri], changes).text,
        after.documents()[uri].text == after.entries()[uri].tree->0@,
{
}

/// A document that was changed is as one that is opened with the changed text: its next request
/// works on a tree of the same text, and can be the same.
pub proof fn law_changed_is_as_opened_afresh(
    before: DocumentStore,
    changed: DocumentStore,
    after: DocumentStore,
    empty: DocumentStore,
    opened: DocumentStore,
    afresh: DocumentStore,
    uri: Seq<char>,
    version: i32,
    changes: Seq<Change>,
    language_id: Seq<char>,
    opened_version: i32,
    kind: QueryKind,
    json: Seq<char>,
)
    requires
        was_changed(before, changed, uri, version, changes),
        changed.is_refreshed_to(after, uri),
        was_opened(
            empty,
            opened,
            uri,
            language_id,
            opened_version,
            changed.documents()[uri].text,
        ),
        opened.is_refreshed_to(afresh, uri),
    ensures
        after.documents()[uri].text == afresh.documents()[uri].text,
        after.entries()[uri].tree is Some,
        afresh.entries()[uri].tree is Some,
        after.entries()[uri].tree->0@ == afresh.entries()[uri].tree->0@,
        query_outcome(kind, uri, json, after) == query_outcome(kind, uri, json, afresh),
{
}

/// Changes leave the language of a document as it is, and give it the version that they came with.
pub proof fn law_changes_keep_language(
    before: DocumentStore,
    after: DocumentStore,
    uri: Seq<char>,
    version: i32,
    changes: Seq<Change>,
)
    requires
        was_changed(before, after, uri, version, changes),
    ensures
        after.documents()[uri].language_id == before.documents()[uri].language_id,
        after.documents()[uri].version == version,
{
    lemma_all_changed_keeps(before.documents()[uri], changes);
}

/// Changes may come in one notification or in two.
pub proof fn law_changes_in_steps(
    before: DocumentStore,
    between: DocumentStore,
    after: DocumentStore,
    uri: Seq<char>,
    first_version: i32,
    first: Seq<Change>,
    version: i32,
    second: Seq<Change>,
)
    requires
        was_changed(before, between, uri, first_version, first),
        was_changed(between, after, uri, version, second),
    ensures
        was_changed(before, after, uri, version, first + second),
{
    let document = before.documents()[uri];
    lemma_changes_in_steps(document, first, second);
    lemma_version_apart(all_changed(document, first), first_version, second);
    assert(after.documents() =~= before.documents().insert(
        uri,
        Document { version, ..all_changed(document, first + second) },
    ));
    assert(after.entries() =~= before.entries().insert(uri, after.entries()[uri]));
}

/// Making changes one list after the other is making the joined list of them.
pub proof fn lemma_changes_in_steps(document: Document, first: Seq<Change>, second: Seq<Change>)
    ensures
        all_changed(document, first + second) == all_changed(all_changed(document, first), second),
        all_fit(document, first + second) == (all_fit(document, first) && all_fit(
            all_changed(document, first),
            second,
        )),
    decreases second.len(),
{
    if second.len() == 0 {
        assert(first + second =~= first);
    } else {
        assert((first + second).drop_last() =~= first + second.drop_last());
        lemma_changes_in_steps(document, first, second.drop_last());
    }
}

/// A change without a range sets the text, whatever it was and whatever was changed before.
pub proof fn law_full_change_sets_text(document: Document, changes: Seq<Change>, text: Seq<char>)
    ensures
        all_changed(document, changes.push(Change { range: None, text })).text == text,
{
    assert(changes.push(Change { range: None, text }).drop_last() =~= changes);
}

/// A document that only its language id makes assembly keeps the text that it was opened with: a
/// notification of changes leaves the store as it is.
pub proof fn law_changes_need_asm_uri(
    before: DocumentStore,
    after: DocumentStore,
    params: Seq<char>,
    r: Result<NotificationStep, ChangeDoesNotFit>,
)
    requires
        change_was_handled(before, after, params, r),
        change_item(params) matches Some(item) ==> !is_asm_uri(item.uri),
    ensures
        r is Ok,
        after == before,
{
}

/// A request whose parameters are corrupted, or whose method is unknown, is told apart as such, and
/// gets no reply.
pub proof fn law_corrupted_requests_are_ignored(
    store: DocumentStore,
    id: lsp_server::RequestId,
    method: Seq<char>,
    params: Seq<char>,
    step: RequestStep,
    found: Option<serde_json::Value>,
    reply: Option<Reply>,
)
    requires
        request_was_handled(store, id, method, params, step),
        request_method(method) matches Some(known) ==> request_target(known, params) is None,
        step.leads_to(found, reply),
    ensures
        step is Malformed || step is Unknown,
        step is Unknown <==> request_method(method) is None,
        reply is None,
{
}

/// A notification whose parameters are corrupted, or whose method is unknown, is told apart as
/// such, and leaves the store as it is.
pub proof fn law_corrupted_notifications_are_ignored(
    before: DocumentStore,
    after: DocumentStore,
    method: Seq<char>,
    params: Seq<char>,
    r: Result<NotificationStep, ChangeDoesNotFit>,
)
    requires
        notification_was_handled(before, after, method, params, r),
        match notification_method(method) {
            Some(NotificationMethod::DidOpen) => open_item(params) is None,
            Some(NotificationMethod::DidChange) => change_item(params) is None,
            Some(NotificationMethod::DidClose) => close_document(params) is None,
            Some(NotificationMethod::DidSave) => save_document(params) is None,
            None => true,
        },
    ensures
        r == Ok::<_, ChangeDoesNotFit>(
            if notification_method(method) is None {
                NotificationStep::Unknown
            } else {
                NotificationStep::Malformed
            },
        ),
        after == before,
{
}

/// A notification only ever leads to diagnostics for an assembly file that is open, and then leaves
/// the store as it is.
pub proof fn law_only_open_asm_is_diagnosed(
    before: DocumentStore,
    after: DocumentStore,
    method: Seq<char>,
    params: Seq<char>,
    r: Result<NotificationStep, ChangeDoesNotFit>,
)
    requires
        notification_was_handled(before, after, method, params, r),
    ensures
        r matches Ok(NotificationStep::Diagnose(uri)) ==> {
            &&& is_asm_uri(uri@)
            &&& before.entries().contains_key(uri@)
            &&& after == before
        },
{
}

/// The commands that are run for a file are those that are for it, each once and in their order.
pub proof fn law_commands_are_those_for_the_file(
    sources: Seq<SourceFile>,
    path: Seq<Component>,
    n: int,
)
    requires
        0 <= n <= sources.len() <= usize::MAX,
    ensures
        forall|i: usize|
            #![trigger commands_for(sources, path, n).contains(i)]
            commands_for(sources, path, n).contains(i) <==> i < n && sources[i as int].is_for(path),
        forall|a: int, b: int|
            0 <= a < b < commands_for(sources, path, n).len() ==> #[trigger] commands_for(
                sources,
                path,
                n,
            )[a] < #[trigger] commands_for(sources, path, n)[b],
    decreases n,
{
    if n > 0 {
        law_commands_are_those_for_the_file(sources, path, n - 1);
        let fewer = commands_for(sources, path, n - 1);
        let all = commands_for(sources, path, n);
        assert forall|i: usize| #![trigger all.contains(i)]
            all.contains(i) <==> i < n && sources[i as int].is_for(path) by {
            if sources[n - 1].is_for(path) {
                assert(all[fewer.len() as int] == n - 1);
                if fewer.contains(i) {
                    let a = choose|a: int| 0 <= a < fewer.len() && fewer[a] == i;
                    assert(all[a] == i);
                }
            }
        }
        assert forall|a: int, b: int| 0 <= a < b < all.len() implies #[trigger] all[a]
            < #[trigger] all[b] by {
            if b == fewer.len() {
                assert(fewer.contains(fewer[a]));
            }
        }
    }
}

/// The commands that are run for a file are those of the list that are for it.
pub proof fn law_chosen_commands_are_those_for_the_file(
    sources: Seq<SourceFile>,
    path: Seq<Component>,
)
    requires
        sources.len() <= usize::MAX,
    ensures
        chosen(sources, path) == sources.filter(|source: SourceFile| source.is_for(path)),
    decreases sources.len(),
{
    reveal(Seq::filter);
    if sources.len() > 0 {
        let n = sources.len() - 1;
        let fewer = sources.drop_last();
        law_chosen_commands_are_those_for_the_file(fewer, path);
        lemma_commands_for_prefix(sources, path, n);
        law_commands_are_those_for_the_file(sources, path, n);
        let first = commands_for(sources, path, n);
        assert forall|a: int| 0 <= a < first.len() implies fewer[#[trigger] first[a] as int]
            == sources[first[a] as int] by {
            assert(first.contains(first[a]));
        }
        assert(chosen(fewer, path) =~= first.map_values(|i: usize| sources[i as int]));
    }
    assert(chosen(sources, path) =~= sources.filter(|source: SourceFile| source.is_for(path)));
}

proof fn lemma_commands_for_prefix(sources: Seq<SourceFile>, path: Seq<Component>, n: int)
    requires
        0 <= n < sources.len(),
    ensures
        commands_for(sources.drop_last(), path, n) == commands_for(sources, path, n),
    decreases n,
{
    if n > 0 {
        lemma_commands_for_prefix(sources, path, n - 1);
    }
}

/// Commands for other files, or for files that are missing, have no part in the plan: lists that
/// have the same commands for a file lead to the same commands run, and to the default command
/// alike.
pub proof fn law_other_commands_do_not_matter(
    a: Seq<SourceFile>,
    b: Seq<SourceFile>,
    path: Seq<Component>,
)
    requires
        a.len() <= usize::MAX,
        b.len() <= usize::MAX,
        a.filter(|source: SourceFile| source.is_for(path)) == b.filter(
            |source: SourceFile| source.is_for(path),
        ),
    ensures
        chosen(a, path) == chosen(b, path),
        commands_for(a, path, a.len() as int).len() == commands_for(b, path, b.len() as int).len(),
{
    law_chosen_commands_are_those_for_the_file(a, path);
    law_chosen_commands_are_those_for_the_file(b, path);
    assert(chosen(a, path).len() == chosen(b, path).len());
}

} // verus!
