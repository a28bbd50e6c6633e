//! Open documents: what they hold, and how changes move them.

use std::str::FromStr;
use lsp_types::notification::Notification as _;
use vstd::prelude::*;
use vstd::utf8::encode_utf8;

use crate::lines::count_breaks;
use crate::lines::has_place;
use crate::lines::landing_line;
use crate::lines::last_line;
use crate::lines::lemma_breaks;
use crate::lines::lemma_landing;
use crate::lines::lemma_line_starts;
use crate::lines::lemma_moved_starts;
use crate::lines::lemma_place;
use crate::lines::line_starts;
use crate::lines::moved_starts;
use crate::lines::place_of;
use crate::lines::range_fits;
use crate::lines::replaced;
use crate::lines::valid_starts;
use crate::lines::Position;
use crate::lines::Range;
use crate::text::document_sized;
use crate::text::lemma_bytes_cut;
use crate::text::lemma_bytes_joined;
use crate::text::lemma_bytes_of_characters;
use crate::text::lemma_bytes_ordered;
use crate::text::lemma_line_feed_before;
use crate::text::within_limit;
use crate::uri::is_uri;

verus! {

/// A change to a document: `text` takes the place of `range`, or of the whole where there is none.
#[derive(Debug)]
pub struct TextDocumentContentChangeEvent {
    pub range: Option<Range>,
    pub range_length: Option<u32>,
    pub text: String,
}

/// What a change says of the text.
pub struct Change {
    pub range: Option<Range>,
    pub text: Seq<char>,
}

impl View for TextDocumentContentChangeEvent {
    type V = Change;

    open spec fn view(&self) -> Change {
        Change { range: self.range, text: self.text@ }
    }
}

impl Clone for TextDocumentContentChangeEvent {
    fn clone(&self) -> (r: Self)
        ensures
            r@ == self@,
            r.range_length == self.range_length,
    {
        TextDocumentContentChangeEvent {
            range: self.range,
            range_length: self.range_length,
            text: self.text.clone(),
        }
    }
}

/// What a list of changes says of the text, change by change.
pub open spec fn changes_view(changes: Seq<TextDocumentContentChangeEvent>) -> Seq<Change> {
    changes.map_values(|change: TextDocumentContentChangeEvent| change@)
}

/// What an open document holds.
pub struct Document {
    pub language_id: Seq<char>,
    pub version: i32,
    pub text: Seq<char>,
    /// The places at which the lines of the document are taken to start.
    pub starts: Seq<int>,
    /// Whether positions in the document count UTF-16 code units.
    pub utf16: bool,
}

/// What the collection of open documents holds, by the text of each document's URI.
pub uninterp spec fn documents_of(store: lsp_textdocument::TextDocuments) -> Map<
    Seq<char>,
    Document,
>;

/// Whether positions in the documents that the collection opens count UTF-16 code units.
pub uninterp spec fn opens_utf16(store: lsp_textdocument::TextDocuments) -> bool;

/// What one document of the collection holds.
pub uninterp spec fn document_of(document: lsp_textdocument::FullTextDocument) -> Document;

/// Whether positions in a document count UTF-16 code units, its text is not too long, and its lines
/// can be counted and start where lines can start.
pub open spec fn in_bounds(document: Document) -> bool {
    &&& document.utf16
    &&& document_sized(document.text)
    &&& document.starts.len() <= u32::MAX
    &&& valid_starts(document.text, document.starts)
}

/// A document as it is opened.
pub open spec fn opened(
    language_id: Seq<char>,
    version: i32,
    text: Seq<char>,
    utf16: bool,
) -> Document {
    Document { language_id, version, text, starts: line_starts(text), utf16 }
}

/// A document after one change to its text.
pub open spec fn changed(document: Document, change: Change) -> Document {
    match change.range {
        None => Document { text: change.text, starts: line_starts(change.text), ..document },
        Some(range) => {
            let start = place_of(document.text, document.starts, range.start);
            let end = place_of(document.text, document.starts, range.end);
            Document {
                text: replaced(document.text, start, end, change.text),
                starts: moved_starts(document.text, document.starts, range, change.text),
                ..document
            }
        },
    }
}

/// A document after changes to its text, one after the other.
pub open spec fn all_changed(document: Document, changes: Seq<Change>) -> Document
    decreases changes.len(),
{
    if changes.len() == 0 {
        document
    } else {
        changed(all_changed(document, changes.drop_last()), changes.last())
    }
}

/// Whether a document can be opened with a text: the text is not too long and its lines can be
/// counted.
pub open spec fn can_open(text: Seq<char>) -> bool {
    document_sized(text) && line_starts(text).len() <= u32::MAX
}

/// Whether the lines after a range, where there are any, can be moved when `new` takes its place:
/// by how many bytes is counted in an `i32`.
pub open spec fn can_move(text: Seq<char>, starts: Seq<int>, range: Range, new: Seq<char>) -> bool {
    let start = place_of(text, starts, range.start);
    let end = place_of(text, starts, range.end);
    last_line(text, starts, range) + 1 < starts.len() ==> {
        &&& encode_utf8(new).len() <= i32::MAX
        &&& encode_utf8(new).len() - encode_utf8(text.subrange(start, end)).len() >= i32::MIN
    }
}

/// Whether a change can be made to a document: the text that comes of it is not too long and its
/// lines can be counted, and the range, where there is one, can be replaced and what follows moved.
pub open spec fn fits(document: Document, change: Change) -> bool {
    &&& document_sized(changed(document, change).text)
    &&& changed(document, change).starts.len() <= u32::MAX
    &&& change.range matches Some(range) ==> {
        &&& range_fits(document.text, document.starts, range)
        &&& can_move(document.text, document.starts, range, change.text)
    }
}

/// Whether changes can be made to a document, one after the other.
pub open spec fn all_fit(document: Document, changes: Seq<Change>) -> bool
    decreases changes.len(),
{
    changes.len() == 0 || {
        &&& all_fit(document, changes.drop_last())
        &&& fits(all_changed(document, changes.drop_last()), changes.last())
    }
}

/// A document is in bounds when it is opened with a text that it can be opened with.
pub proof fn lemma_opened_in_bounds(language_id: Seq<char>, version: i32, text: Seq<char>)
    requires
        can_open(text),
    ensures
        in_bounds(opened(language_id, version, text, true)),
{
    lemma_line_starts(text);
}

/// A document can be opened with a text that is no longer than a message.
pub proof fn lemma_can_open(text: Seq<char>)
    requires
        within_limit(text),
    ensures
        can_open(text),
{
    lemma_line_starts(text);
    lemma_bytes_of_characters(text);
}

/// Changes that fit keep a document in bounds.
pub proof fn lemma_all_changed_in_bounds(document: Document, changes: Seq<Change>)
    requires
        in_bounds(document),
        all_fit(document, changes),
    ensures
        in_bounds(all_changed(document, changes)),
    decreases changes.len(),
{
    if changes.len() > 0 {
        let before = all_changed(document, changes.drop_last());
        lemma_all_changed_in_bounds(document, changes.drop_last());
        match changes.last().range {
            None => lemma_line_starts(changes.last().text),
            Some(range) => lemma_moved_starts(
                before.text,
                before.starts,
                range,
                changes.last().text,
            ),
        }
    }
}

/// Changes leave the language of a document, and how its positions count, as they are.
pub proof fn lemma_all_changed_keeps(document: Document, changes: Seq<Change>)
    ensures
        all_changed(document, changes).language_id == document.language_id,
        all_changed(document, changes).utf16 == document.utf16,
    decreases changes.len(),
{
    if changes.len() > 0 {
        lemma_all_changed_keeps(document, changes.drop_last());
    }
}

/// The version of a document has no part in what changes do to it.
pub proof fn lemma_version_apart(document: Document, version: i32, changes: Seq<Change>)
    ensures
        all_changed(Document { version, ..document }, changes) == (Document {
            version,
            ..all_changed(document, changes)
        }),
        all_fit(Document { version, ..document }, changes) == all_fit(document, changes),
    decreases changes.len(),
{
    if changes.len() > 0 {
        lemma_version_apart(document, version, changes.drop_last());
    }
}

/// Where changes fit, the first of them fit, and the next one fits the document that these leave.
pub proof fn lemma_first_fit(document: Document, changes: Seq<Change>, i: int)
    requires
        all_fit(document, changes),
        0 <= i <= changes.len(),
    ensures
        all_fit(document, changes.take(i)),
        i < changes.len() ==> fits(all_changed(document, changes.take(i)), changes[i]),
    decreases changes.len(),
{
    if i == changes.len() {
        assert(changes.take(i) =~= changes);
    } else {
        let first = changes.drop_last();
        if i == first.len() {
            assert(changes.take(i) =~= first);
        } else {
            lemma_first_fit(document, first, i);
            assert(first.take(i) =~= changes.take(i));
        }
    }
}

/// The collection of open documents of `lsp_textdocument`.
#[verifier::external_type_specification]
#[verifier::external_body]
pub struct ExTextDocuments(lsp_textdocument::TextDocuments);

/// One open document of `lsp_textdocument`.
#[verifier::external_type_specification]
#[verifier::external_body]
pub struct ExFullTextDocument(lsp_textdocument::FullTextDocument);

/// Calls `lsp_textdocument::TextDocuments::new`: no document is open, and those that will be
/// opened count positions in UTF-16 code units.
#[verifier::external_body]
pub(crate) fn new_documents() -> (r: lsp_textdocument::TextDocuments)
    ensures
        documents_of(r).dom() == Set::<Seq<char>>::empty(),
        opens_utf16(r),
{
    lsp_textdocument::TextDocuments::new()
}

/// Calls `lsp_textdocument::TextDocuments::listen` with a `textDocument/didOpen` notification: the
/// document is opened in the place of any that had its URI, with its lines starting after its line
/// breaks.
#[verifier::external_body]
pub(crate) fn listen_open(
    store: &mut lsp_textdocument::TextDocuments,
    uri: &str,
    language_id: &str,
    version: i32,
    text: &str,
)
    requires
        is_uri(uri@),
        can_open(text@),
    ensures
        documents_of(*final(store)) == documents_of(*old(store)).insert(
            uri@,
            opened(language_id@, version, text@, opens_utf16(*old(store))),
        ),
        opens_utf16(*final(store)) == opens_utf16(*old(store)),
{
    let uri = lsp_types::Uri::from_str(uri).unwrap();
    let (language_id, text) = (language_id.to_string(), text.to_string());
    let text_document = lsp_types::TextDocumentItem { uri, language_id, version, text };
    let params = lsp_types::DidOpenTextDocumentParams { text_document };
    let params = serde_json::to_value(params).unwrap();
    store.listen(lsp_types::notification::DidOpenTextDocument::METHOD, &params);
}

/// Calls `lsp_textdocument::TextDocuments::listen` with a `textDocument/didChange` notification:
/// where the document is open its text is changed, change by change, and its version is set.
///
/// What a change does to the text and to where its lines start is `changed`. A change that does not
/// fit makes the call panic or, where the lines after a range cannot be moved, leaves these at
/// wrong places.
#[verifier::external_body]
pub(crate) fn listen_change(
    store: &mut lsp_textdocument::TextDocuments,
    uri: &str,
    version: i32,
    changes: &Vec<TextDocumentContentChangeEvent>,
)
    requires
        is_uri(uri@),
        documents_of(*old(store)).contains_key(uri@) ==> {
            &&& in_bounds(documents_of(*old(store))[uri@])
            &&& all_fit(documents_of(*old(store))[uri@], changes_view(changes@))
        },
    ensures
        !documents_of(*old(store)).contains_key(uri@) ==> documents_of(*final(store))
            == documents_of(*old(store)),
        documents_of(*old(store)).contains_key(uri@) ==> documents_of(*final(store))
            == documents_of(*old(store)).insert(
            uri@,
            Document {
                version,
                ..all_changed(documents_of(*old(store))[uri@], changes_view(changes@))
            },
        ),
        opens_utf16(*final(store)) == opens_utf16(*old(store)),
{
    let content_changes = changes.iter().map(|change| lsp_types::TextDocumentContentChangeEvent {
        range: change.range.map(|range| lsp_types::Range::new(
            lsp_types::Position::new(range.start.line, range.start.character),
            lsp_types::Position::new(range.end.line, range.end.character),
        )),
        range_length: change.range_length,
        text: change.text.clone(),
    }).collect();
    let uri = lsp_types::Uri::from_str(uri).unwrap();
    let text_document = lsp_types::VersionedTextDocumentIdentifier { uri, version };
    let params = lsp_types::DidChangeTextDocumentParams { text_document, content_changes };
    let params = serde_json::to_value(params).unwrap();
    store.listen(lsp_types::notification::DidChangeTextDocument::METHOD, &params);
}

/// Calls `lsp_textdocument::TextDocuments::listen` with a `textDocument/didClose` notification: the
/// document is dropped.
#[verifier::external_body]
pub(crate) fn listen_close(store: &mut lsp_textdocument::TextDocuments, uri: &str)
    requires
        is_uri(uri@),
    ensures
        documents_of(*final(store)) == documents_of(*old(store)).remove(uri@),
        opens_utf16(*final(store)) == opens_utf16(*old(store)),
{
    let uri = lsp_types::Uri::from_str(uri).unwrap();
    let text_document = lsp_types::TextDocumentIdentifier { uri };
    let params = lsp_types::DidCloseTextDocumentParams { text_document };
    let params = serde_json::to_value(params).unwrap();
    store.listen(lsp_types::notification::DidCloseTextDocument::METHOD, &params);
}

/// Calls `lsp_textdocument::TextDocuments::get_document`: the document of that URI, where it is
/// open.
#[verifier::external_body]
pub(crate) fn get_document<'a>(store: &'a lsp_textdocument::TextDocuments, uri: &str) -> (r: Option<
    &'a lsp_textdocument::FullTextDocument,
>)
    requires
        is_uri(uri@),
    ensures
        match r {
            Some(document) => documents_of(*store).contains_key(uri@) && document_of(*document)
                == documents_of(*store)[uri@],
            None => !documents_of(*store).contains_key(uri@),
        },
{
    store.get_document(&lsp_types::Uri::from_str(uri).unwrap())
}

/// Calls `lsp_textdocument::FullTextDocument::get_content` without a range: the whole text.
#[verifier::external_body]
pub(crate) fn get_content(document: &lsp_textdocument::FullTextDocument) -> (r: &str)
    ensures
        r@ == document_of(*document).text,
{
    document.get_content(None)
}

/// Calls `lsp_textdocument::FullTextDocument::line_count`: the number of places where lines start.
#[verifier::external_body]
fn line_count(document: &lsp_textdocument::FullTextDocument) -> (r: u32)
    requires
        in_bounds(document_of(*document)),
    ensures
        r == document_of(*document).starts.len(),
{
    document.line_count()
}

/// Calls `lsp_textdocument::FullTextDocument::offset_at`: the number of bytes before the place that
/// the position names.
#[verifier::external_body]
fn offset_at(document: &lsp_textdocument::FullTextDocument, position: Position) -> (r: u32)
    requires
        in_bounds(document_of(*document)),
    ensures
        r == encode_utf8(
            document_of(*document).text.take(
                place_of(document_of(*document).text, document_of(*document).starts, position),
            ),
        ).len(),
{
    document.offset_at(lsp_types::Position::new(position.line, position.character))
}

/// The number of bytes before the place of a position, and the line that the place belongs to, or
/// `None` where the place cannot be told to a line.
fn find_place(document: &lsp_textdocument::FullTextDocument, position: Position) -> (r: Option<
    (usize, usize),
>)
    requires
        in_bounds(document_of(*document)),
    ensures
        ({
            let text = document_of(*document).text;
            let starts = document_of(*document).starts;
            match r {
                Some((offset, line)) => {
                    &&& has_place(text, starts, position)
                    &&& offset == encode_utf8(text.take(place_of(text, starts, position))).len()
                    &&& line == landing_line(text, starts, position)
                },
                None => !has_place(text, starts, position),
            }
        }),
{
    let bytes = get_content(document).as_bytes();
    let length = bytes.len();
    let lines = line_count(document);
    let offset = offset_at(document, position) as usize;
    let beginning = offset_at(document, Position { line: position.line, character: 0 }) as usize;
    proof {
        let text = document_of(*document).text;
        let starts = document_of(*document).starts;
        let place = place_of(text, starts, position);
        lemma_place(text, starts, position);
        lemma_place(text, starts, Position { line: position.line, character: 0 });
        lemma_bytes_ordered(text, place, 0);
        assert(text.take(0) =~= Seq::<char>::empty());
        assert(text.take(text.len() as int) =~= text);
        if text.len() > 0 {
            lemma_line_feed_before(text, text.len() as int);
        }
        if place > 0 {
            lemma_line_feed_before(text, place);
        }
        if position.line < lines {
            lemma_bytes_ordered(text, place, starts[position.line as int]);
            lemma_bytes_ordered(text, starts[position.line as int], place);
        }
        if has_place(text, starts, position) {
            lemma_landing(text, starts, position);
        }
    }
    if position.line >= lines && length > 0 && bytes[length - 1] == 0x0a {
        return None;
    }
    if offset == 0 {
        Some((0, 0))
    } else if bytes[offset - 1] == 0x0a && beginning != offset {
        Some((offset, position.line as usize + 1))
    } else {
        Some((offset, position.line as usize))
    }
}

/// Whether a change can be made to a document.
pub fn change_fits(
    document: &lsp_textdocument::FullTextDocument,
    change: &TextDocumentContentChangeEvent,
) -> (r: bool)
    requires
        in_bounds(document_of(*document)),
    ensures
        r == fits(document_of(*document), change@),
{
    let ghost text = document_of(*document).text;
    let ghost starts = document_of(*document).starts;
    let ghost new = change.text@;
    let range = match change.range {
        None => {
            let length = change.text.as_str().as_bytes().len();
            return length <= 0xffff_ffff && count_breaks(change.text.as_str()) < 0xffff_ffff;
        },
        Some(range) => range,
    };
    let (start, first) = match find_place(document, range.start) {
        Some(found) => found,
        None => return false,
    };
    let (end, last) = match find_place(document, range.end) {
        Some(found) => found,
        None => return false,
    };
    let lines = line_count(document) as usize;
    proof {
        lemma_place(text, starts, range.start);
        lemma_place(text, starts, range.end);
        lemma_bytes_ordered(
            text,
            place_of(text, starts, range.start),
            place_of(text, starts, range.end),
        );
        lemma_bytes_cut(text, place_of(text, starts, range.end));
    }
    if start > end || first > last || first >= lines {
        return false;
    }
    let length = get_content(document).as_bytes().len();
    let added = change.text.as_str().as_bytes().len();
    let removed = end - start;
    let left = length - removed;
    let moving = last < lines - 1;
    let last = if last < lines {
        last
    } else {
        lines - 1
    };
    let kept = lines - (last - first);
    let brought = count_breaks(change.text.as_str());
    proof {
        let from = place_of(text, starts, range.start);
        let to = place_of(text, starts, range.end);
        lemma_bytes_joined(text.take(from) + new, text.skip(to));
        lemma_bytes_joined(text.take(from), new);
        lemma_bytes_cut(text.take(to), from);
        assert(text.take(to).take(from) =~= text.take(from));
        assert(text.take(to).skip(from) =~= text.subrange(from, to));
        lemma_breaks(new, from);
    }
    if moving && (added > 0x7fff_ffff || removed > added && removed - added > 0x8000_0000) {
        return false;
    }
    added <= 0xffff_ffff && left <= 0xffff_ffff - added && brought <= 0xffff_ffff - kept
}

} // verus!
