//! What notifications do to the open documents, in terms of their parameters.

use vstd::prelude::*;

use crate::answers::law_methods_of_notifications;
use crate::documents::all_changed;
use crate::documents::all_fit;
use crate::documents::changed;
use crate::documents::fits;
use crate::documents::Change;
use crate::documents::Document;
use crate::handle::notification_was_handled;
use crate::handle::was_changed;
use crate::handle::was_closed;
use crate::handle::was_opened;
use crate::lines::line_starts;
use crate::params::change_item;
use crate::params::close_document;
use crate::params::open_item;
use crate::params::save_document;
use crate::params::ChangeItem;
use crate::path::extension;
use crate::protocol::ChangeDoesNotFit;
use crate::protocol::NotificationStep;
use crate::store::DocumentStore;
use crate::store::TreeEntry;
use crate::text::ascii_lowercase;
use crate::uri::uri_path;

verus! {

/// A document is opened where its language id is `asm` or `assembly`, or its extension `asm` or
/// `s`, each in whatever case. Its text is then there as it was sent, with a tree of it, and all
/// other documents are as they were. Where neither is so, nothing changes. Where the system at hand
/// may take the beginning of the path for a prefix, one of the two is done.
pub proof fn law_assembly_is_opened(
    before: DocumentStore,
    after: DocumentStore,
    params: Seq<char>,
    r: Result<NotificationStep, ChangeDoesNotFit>,
)
    requires
        notification_was_handled(before, after, "textDocument/didOpen"@, params, r),
    ensures
        match open_item(params) {
            Some(item) => {
                let path = uri_path(item.uri)->0;
                let spoken = ascii_lowercase(item.language_id) == "asm"@ || ascii_lowercase(
                    item.language_id,
                ) == "assembly"@;
                let named = uri_path(item.uri) is Some && extension(path) is Some && (
                ascii_lowercase(extension(path)->0) == "asm"@ || ascii_lowercase(
                    extension(path)->0,
                ) == "s"@);
                let prefixed = path.len() >= 2 && (path[1] == ':' || path[0] == '/' && path[1]
                    == '/');
                let kept = {
                    &&& after.documents() == before.documents().insert(
                        item.uri,
                        Document {
                            language_id: item.language_id,
                            version: item.version,
                            text: item.text,
                            starts: line_starts(item.text),
                            utf16: true,
                        },
                    )
                    &&& after.entries() == before.entries().insert(
                        item.uri,
                        after.entries()[item.uri],
                    )
                    &&& after.entries()[item.uri].tree is Some
                    &&& after.entries()[item.uri].tree->0@ == item.text
                };
                &&& r == Ok::<_, ChangeDoesNotFit>(NotificationStep::Done)
                &&& spoken || named && !prefixed ==> kept
                &&& !spoken && !named ==> after == before
                &&& kept || after == before
            },
            None => r == Ok::<_, ChangeDoesNotFit>(NotificationStep::Malformed) && after == before,
        },
{
    law_methods_of_notifications("textDocument/didOpen"@);
    if let Some(item) = open_item(params) {
        assert(after != before ==> after.documents().contains_key(item.uri));
    }
}

/// The document that some first changes of a list leave, and whether these fit, is told by making
/// them one after the other.
proof fn lemma_made_in_order(document: Document, changes: Seq<Change>, steps: Seq<Document>, n: int)
    requires
        0 <= n <= changes.len(),
        steps.len() == changes.len() + 1,
        steps[0] == document,
        forall|i: int|
            0 <= i < changes.len() ==> #[trigger] steps[i + 1] == changed(steps[i], changes[i]),
    ensures
        all_changed(document, changes.take(n)) == steps[n],
        all_fit(document, changes.take(n)) <==> forall|i: int|
            0 <= i < n ==> fits(#[trigger] steps[i], changes[i]),
    decreases n,
{
    if n > 0 {
        lemma_made_in_order(document, changes, steps, n - 1);
        assert(changes.take(n).drop_last() =~= changes.take(n - 1));
        assert(changes.take(n).last() == changes[n - 1]);
        assert(steps[n - 1 + 1] == changed(steps[n - 1], changes[n - 1]));
    }
}

/// The changes of a notification are made to the open document in the order in which they are
/// listed: the first to the text as it was, and each one after that to the text that the one before
/// it left. The version is that of the notification, the tree is dropped, and all other documents
/// are as they were. This comes to pass where every change fits the text that it meets. Else those
/// before the first that does not are made, and that one is named.
pub proof fn law_changes_are_made_in_their_order(
    before: DocumentStore,
    after: DocumentStore,
    params: Seq<char>,
    r: Result<NotificationStep, ChangeDoesNotFit>,
    item: ChangeItem,
    steps: Seq<Document>,
)
    requires
        notification_was_handled(before, after, "textDocument/didChange"@, params, r),
        change_item(params) == Some(item),
        before.entries().contains_key(item.uri),
        steps.len() == item.changes.len() + 1,
        steps[0] == before.documents()[item.uri],
        forall|i: int|
            0 <= i < item.changes.len() ==> #[trigger] steps[i + 1] == changed(
                steps[i],
                item.changes[i],
            ),
    ensures
        ({
            let path = uri_path(item.uri)->0;
            let named = uri_path(item.uri) is Some && extension(path) is Some && (ascii_lowercase(
                extension(path)->0,
            ) == "asm"@ || ascii_lowercase(extension(path)->0) == "s"@);
            let prefixed = path.len() >= 2 && (path[1] == ':' || path[0] == '/' && path[1] == '/');
            let fitting = forall|i: int|
                0 <= i < item.changes.len() ==> fits(#[trigger] steps[i], item.changes[i]);
            let made = {
                &&& after.documents() == before.documents().insert(
                    item.uri,
                    Document { version: item.version, ..steps.last() },
                )
                &&& after.documents()[item.uri].text == steps.last().text
                &&& after.entries() == before.entries().insert(
                    item.uri,
                    TreeEntry { tree: None, ..before.entries()[item.uri] },
                )
            };
            &&& r is Ok ==> r == Ok::<_, ChangeDoesNotFit>(NotificationStep::Done)
            &&& named && !prefixed ==> (r is Ok <==> fitting)
            &&& named && !prefixed && fitting ==> made
            &&& !named ==> r is Ok && after == before
            &&& r is Ok ==> made || after == before
            &&& r matches Err(misfit) ==> {
                &&& misfit.index < item.changes.len()
                &&& !fits(steps[misfit.index as int], item.changes[misfit.index as int])
                &&& forall|i: int|
                    0 <= i < misfit.index ==> fits(#[trigger] steps[i], item.changes[i])
                &&& misfit.index == 0 ==> after.documents() == before.documents()
                    && after.entries() == before.entries()
                &&& misfit.index > 0 ==> after.documents() == before.documents().insert(
                    item.uri,
                    Document { version: item.version, ..steps[misfit.index as int] },
                ) && after.entries() == before.entries().insert(
                    item.uri,
                    TreeEntry { tree: None, ..before.entries()[item.uri] },
                )
            }
        }),
{
    law_methods_of_notifications("textDocument/didChange"@);
    let document = before.documents()[item.uri];
    let n = item.changes.len() as int;
    lemma_made_in_order(document, item.changes, steps, n);
    assert(item.changes.take(n) =~= item.changes);
    if let Err(misfit) = r {
        let index = misfit.index as int;
        if index < n {
            lemma_made_in_order(document, item.changes, steps, index);
        }
    }
}

/// Two changes are made in the order in which they are listed.
pub proof fn law_the_first_change_is_made_first(
    before: DocumentStore,
    after: DocumentStore,
    params: Seq<char>,
    r: Result<NotificationStep, ChangeDoesNotFit>,
    item: ChangeItem,
    a: Change,
    b: Change,
)
    requires
        notification_was_handled(before, after, "textDocument/didChange"@, params, r),
        change_item(params) == Some(item),
        item.changes == seq![a, b],
        before.entries().contains_key(item.uri),
        r is Ok,
        after != before,
    ensures
        after.documents()[item.uri].text == changed(
            changed(before.documents()[item.uri], a),
            b,
        ).text,
        after.documents()[item.uri].version == item.version,
        after.entries()[item.uri].tree is None,
{
    let document = before.documents()[item.uri];
    let steps = seq![document, changed(document, a), changed(changed(document, a), b)];
    law_changes_are_made_in_their_order(before, after, params, r, item, steps);
}

/// Changes to a document that is not open, and changes that are malformed, change nothing.
pub proof fn law_other_changes_are_passed_over(
    before: DocumentStore,
    after: DocumentStore,
    params: Seq<char>,
    r: Result<NotificationStep, ChangeDoesNotFit>,
)
    requires
        notification_was_handled(before, after, "textDocument/didChange"@, params, r),
    ensures
        change_item(params) is None ==> r == Ok::<_, ChangeDoesNotFit>(NotificationStep::Malformed)
            && after == before,
        change_item(params) matches Some(item) ==> !before.entries().contains_key(item.uri)
            ==> r == Ok::<_, ChangeDoesNotFit>(NotificationStep::Done) && after == before,
{
    law_methods_of_notifications("textDocument/didChange"@);
}

/// A document that is closed is gone, text and tree, and all others are as they were.
pub proof fn law_closed_documents_are_gone(
    before: DocumentStore,
    after: DocumentStore,
    params: Seq<char>,
    r: Result<NotificationStep, ChangeDoesNotFit>,
)
    requires
        notification_was_handled(before, after, "textDocument/didClose"@, params, r),
    ensures
        match close_document(params) {
            Some(uri) => {
                &&& r == Ok::<_, ChangeDoesNotFit>(NotificationStep::Done)
                &&& after.documents() == before.documents().remove(uri)
                &&& after.entries() == before.entries().remove(uri)
            },
            None => r == Ok::<_, ChangeDoesNotFit>(NotificationStep::Malformed) && after == before,
        },
{
    law_methods_of_notifications("textDocument/didClose"@);
}

/// A save of an open file whose extension is `asm` or `s`, in whatever case, leads to that file
/// being diagnosed, unless the system at hand may take the beginning of its path for a prefix. A
/// save of any other file leads to nothing, and no save changes a document.
pub proof fn law_saved_assembly_is_diagnosed(
    before: DocumentStore,
    after: DocumentStore,
    params: Seq<char>,
    r: Result<NotificationStep, ChangeDoesNotFit>,
)
    requires
        notification_was_handled(before, after, "textDocument/didSave"@, params, r),
    ensures
        after == before,
        match save_document(params) {
            Some(uri) => {
                let path = uri_path(uri)->0;
                let named = uri_path(uri) is Some && extension(path) is Some && (ascii_lowercase(
                    extension(path)->0,
                ) == "asm"@ || ascii_lowercase(extension(path)->0) == "s"@);
                let prefixed = path.len() >= 2 && (path[1] == ':' || path[0] == '/' && path[1]
                    == '/');
                let open = before.entries().contains_key(uri);
                &&& r is Ok
                &&& r->Ok_0 is Done || r->Ok_0 is Diagnose && r->Ok_0->Diagnose_0@ == uri
                &&& named && !prefixed && open ==> r->Ok_0 is Diagnose
                &&& !named || !open ==> r->Ok_0 is Done
            },
            None => r == Ok::<_, ChangeDoesNotFit>(NotificationStep::Malformed),
        },
{
    law_methods_of_notifications("textDocument/didSave"@);
}

/// A notification of any other method changes nothing and leads to nothing.
pub proof fn law_other_notifications_are_unknown(
    before: DocumentStore,
    after: DocumentStore,
    method: Seq<char>,
    params: Seq<char>,
    r: Result<NotificationStep, ChangeDoesNotFit>,
)
    requires
        notification_was_handled(before, after, method, params, r),
        method != "textDocument/didOpen"@,
        method != "textDocument/didChange"@,
        method != "textDocument/didClose"@,
        method != "textDocument/didSave"@,
    ensures
        r == Ok::<_, ChangeDoesNotFit>(NotificationStep::Unknown),
        after == before,
{
    law_methods_of_notifications(method);
}

/// An opened document has the language, the version and the text that it was opened with, and a
/// tree of that text. All other documents are as they were.
pub proof fn law_opened_text_is_kept(
    before: DocumentStore,
    after: DocumentStore,
    uri: Seq<char>,
    language_id: Seq<char>,
    version: i32,
    text: Seq<char>,
)
    requires
        was_opened(before, after, uri, language_id, version, text),
    ensures
        after.documents() == before.documents().insert(
            uri,
            Document { language_id, version, text, starts: line_starts(text), utf16: true },
        ),
        after.entries().remove(uri) == before.entries().remove(uri),
        after.entries().contains_key(uri),
        after.entries()[uri].tree is Some,
        after.entries()[uri].tree->0@ == text,
{
    assert(after.entries().remove(uri) =~= before.entries().remove(uri));
}

/// A document that was changed has what its changes, made in their order, leave of it, and the
/// version that they came with. Its tree is dropped and its parser kept. All other documents are as
/// they were.
pub proof fn law_changed_text_is_kept(
    before: DocumentStore,
    after: DocumentStore,
    uri: Seq<char>,
    version: i32,
    changes: Seq<Change>,
    steps: Seq<Document>,
)
    requires
        was_changed(before, after, uri, version, changes),
        steps.len() == changes.len() + 1,
        steps[0] == before.documents()[uri],
        forall|i: int|
            0 <= i < changes.len() ==> #[trigger] steps[i + 1] == changed(steps[i], changes[i]),
    ensures
        after.documents() == before.documents().insert(
            uri,
            Document { version, ..steps.last() },
        ),
        after.entries() == before.entries().insert(
            uri,
            TreeEntry { tree: None, parser: before.entries()[uri].parser },
        ),
{
    lemma_made_in_order(before.documents()[uri], changes, steps, changes.len() as int);
    assert(changes.take(changes.len() as int) =~= changes);
}

/// Closing a document takes its text and its tree away, and nothing else.
pub proof fn law_closing_takes_away(before: DocumentStore, after: DocumentStore, uri: Seq<char>)
    requires
        was_closed(before, after, uri),
    ensures
        after.documents() == before.documents().remove(uri),
        after.entries() == before.entries().remove(uri),
{
}

/// Whether changes fit is whether each one fits the document that those before it leave.
pub proof fn law_changes_fit_one_by_one(
    document: Document,
    changes: Seq<Change>,
    steps: Seq<Document>,
)
    requires
        steps.len() == changes.len() + 1,
        steps[0] == document,
        forall|i: int|
            0 <= i < changes.len() ==> #[trigger] steps[i + 1] == changed(steps[i], changes[i]),
    ensures
        all_fit(document, changes) <==> forall|i: int|
            0 <= i < changes.len() ==> fits(#[trigger] steps[i], changes[i]),
        all_changed(document, changes) == steps.last(),
{
    lemma_made_in_order(document, changes, steps, changes.len() as int);
    assert(changes.take(changes.len() as int) =~= changes);
}

/// In a consistent store every document that is open has a tree entry, and no other has. A tree
/// that is kept is of the text that its document has.
pub proof fn law_consistency(store: DocumentStore, uri: Seq<char>)
    requires
        store.is_consistent(),
    ensures
        store.documents().contains_key(uri) <==> store.entries().contains_key(uri),
        store.entries().contains_key(uri) && store.entries()[uri].tree is Some
            ==> store.entries()[uri].tree->0@ == store.documents()[uri].text,
{
    assert(store.entries().dom().contains(uri) <==> store.documents().dom().contains(uri));
}

/// Refreshing an open document leaves it with a tree of the text that it has, made anew only where
/// there was none. Texts, and the trees of other documents, are as they were.
pub proof fn law_refreshed_tree_is_of_the_text(
    before: DocumentStore,
    after: DocumentStore,
    uri: Seq<char>,
)
    requires
        before.is_refreshed_to(after, uri),
    ensures
        after.documents() == before.documents(),
        after.entries().remove(uri) == before.entries().remove(uri),
        before.documents().contains_key(uri) ==> {
            &&& after.entries().contains_key(uri)
            &&& after.entries()[uri].tree is Some
            &&& after.entries()[uri].tree->0@ == before.documents()[uri].text
            &&& before.entries()[uri].tree is Some ==> after.entries()[uri]
                == before.entries()[uri]
        },
        !before.documents().contains_key(uri) ==> after.entries() == before.entries(),
{
    assert(after.entries().remove(uri) =~= before.entries().remove(uri));
}

} // verus!
