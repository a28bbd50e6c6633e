//! What changes do to texts and their lines, in terms of characters.

use vstd::prelude::*;
use vstd::utf8::encode_utf8;

use crate::documents::can_move;
use crate::documents::can_open;
use crate::documents::changed;
use crate::documents::changes_view;
use crate::documents::fits;
use crate::documents::in_bounds;
use crate::documents::opened;
use crate::documents::Change;
use crate::documents::Document;
use crate::documents::TextDocumentContentChangeEvent;
use crate::lines::breaks;
use crate::lines::characters_within;
use crate::lines::landing_line;
use crate::lines::last_line;
use crate::lines::lemma_breaks;
use crate::lines::lemma_landing;
use crate::lines::lemma_line_starts;
use crate::lines::lemma_moved_starts;
use crate::lines::lemma_place;
use crate::lines::line_starts;
use crate::lines::moved_starts;
use crate::lines::place_of;
use crate::lines::range_fits;
use crate::lines::replaced;
use crate::lines::utf16_width;
use crate::lines::valid_starts;
use crate::lines::Position;
use crate::lines::Range;
use crate::text::lemma_bytes_cut;
use crate::text::lemma_bytes_joined;

verus! {

/// The places after the line breaks of a text are those after a line feed, and those after a
/// carriage return that no line feed follows. They come in their order, each once.
pub proof fn law_breaks_are_line_breaks(text: Seq<char>, at: int)
    ensures
        forall|k: int| #[trigger]
            breaks(text, at).contains(k) <==> at < k <= at + text.len() && (text[k - at - 1] == '\n'
                || text[k - at - 1] == '\r' && !(k < at + text.len() && text[k - at] == '\n')),
        forall|i: int, j: int|
            0 <= i < j < breaks(text, at).len() ==> #[trigger] breaks(text, at)[i]
                < #[trigger] breaks(text, at)[j],
    decreases text.len(),
{
    let all = breaks(text, at);
    if text.len() > 0 {
        let n: int = if text[0] == '\r' && text.len() > 1 && text[1] == '\n' {
            2
        } else {
            1
        };
        let rest = text.skip(n);
        let later = breaks(rest, at + n);
        law_breaks_are_line_breaks(rest, at + n);
        lemma_breaks(rest, at + n);
        let first = all.len() - later.len();
        assert forall|k: int| #[trigger] all.contains(k) <==> at < k <= at + text.len() && (
        text[k - at - 1] == '\n' || text[k - at - 1] == '\r' && !(k < at + text.len() && text[k
            - at] == '\n')) by {
            assert(later.contains(k) <==> at + n < k <= at + n + rest.len() && (rest[k - at - n - 1]
                == '\n' || rest[k - at - n - 1] == '\r' && !(k < at + n + rest.len() && rest[k - at
                - n] == '\n')));
            if all.contains(k) {
                let i = choose|i: int| 0 <= i < all.len() && all[i] == k;
                if i >= first {
                    assert(later[i - first] == k);
                }
            }
            if later.contains(k) {
                let i = choose|i: int| 0 <= i < later.len() && later[i] == k;
                assert(all[i + first] == k);
            }
            if first == 1 {
                assert(all[0] == at + n);
            }
        }
        assert forall|i: int, j: int| 0 <= i < j < all.len() implies #[trigger] all[i]
            < #[trigger] all[j] by {
            assert(all[j] == later[j - first]);
            if i >= first {
                assert(all[i] == later[i - first]);
            }
        }
    }
}

/// A line starts at the beginning of a text, and after every line break of it: a line feed, or a
/// carriage return that no line feed follows. The lines come in their order, each once.
pub proof fn law_lines_start_after_line_breaks(text: Seq<char>)
    ensures
        forall|k: int| #[trigger]
            line_starts(text).contains(k) <==> k == 0 || 0 < k <= text.len() && (text[k - 1] == '\n'
                || text[k - 1] == '\r' && !(k < text.len() && text[k] == '\n')),
        forall|i: int, j: int|
            0 <= i < j < line_starts(text).len() ==> #[trigger] line_starts(text)[i]
                < #[trigger] line_starts(text)[j],
{
    law_breaks_are_line_breaks(text, 0);
    lemma_breaks(text, 0);
    let starts = line_starts(text);
    let later = breaks(text, 0);
    assert forall|k: int| #[trigger] starts.contains(k) <==> k == 0 || later.contains(k) by {
        if starts.contains(k) {
            let i = choose|i: int| 0 <= i < starts.len() && starts[i] == k;
            if i > 0 {
                assert(later[i - 1] == k);
            }
        }
        if later.contains(k) {
            let i = choose|i: int| 0 <= i < later.len() && later[i] == k;
            assert(starts[i + 1] == k);
        }
        assert(starts[0] == 0);
    }
    assert forall|k: int| #[trigger] starts.contains(k) <==> k == 0 || 0 < k <= text.len() && (
    text[k - 1] == '\n' || text[k - 1] == '\r' && !(k < text.len() && text[k] == '\n')) by {
        assert(later.contains(k) <==> 0 < k <= 0 + text.len() && (text[k - 0 - 1] == '\n' || text[k
            - 0 - 1] == '\r' && !(k < 0 + text.len() && text[k - 0] == '\n')));
    }
}

/// The number of UTF-16 code units that a text takes.
pub open spec fn utf16_length(text: Seq<char>) -> int
    decreases text.len(),
{
    if text.len() == 0 {
        0
    } else {
        utf16_length(text.drop_last()) + utf16_width(text.last())
    }
}

/// A character takes one UTF-16 code unit, or two where it lies beyond the first plane.
pub proof fn law_utf16_widths(c: char)
    ensures
        c as u32 <= 0xffff ==> utf16_width(c) == 1,
        c as u32 > 0xffff ==> utf16_width(c) == 2,
{
}

proof fn lemma_utf16_length_first(text: Seq<char>)
    requires
        text.len() > 0,
    ensures
        utf16_length(text) == utf16_width(text[0]) + utf16_length(text.skip(1)),
    decreases text.len(),
{
    if text.len() > 1 {
        lemma_utf16_length_first(text.drop_last());
        assert(text.drop_last().skip(1) =~= text.skip(1).drop_last());
    } else {
        assert(text.skip(1) =~= Seq::<char>::empty());
        assert(text.drop_last() =~= Seq::<char>::empty());
    }
}

/// The characters within a number of UTF-16 code units are as many as there is room for, and no
/// more.
pub proof fn law_characters_within(line: Seq<char>, units: int)
    requires
        units >= 0,
    ensures
        0 <= characters_within(line, units) <= line.len(),
        utf16_length(line.take(characters_within(line, units))) <= units,
        characters_within(line, units) < line.len() ==> utf16_length(
            line.take(characters_within(line, units) + 1),
        ) > units,
    decreases line.len(),
{
    let n = characters_within(line, units);
    if line.len() == 0 || utf16_width(line[0]) > units {
        assert(line.take(0) =~= Seq::<char>::empty());
        if line.len() > 0 {
            lemma_utf16_length_first(line.take(1));
            assert(line.take(1).skip(1) =~= Seq::<char>::empty());
        }
    } else {
        law_characters_within(line.skip(1), units - utf16_width(line[0]));
        lemma_utf16_length_first(line.take(n));
        assert(line.take(n).skip(1) =~= line.skip(1).take(n - 1));
        if n < line.len() {
            lemma_utf16_length_first(line.take(n + 1));
            assert(line.take(n + 1).skip(1) =~= line.skip(1).take(n));
        }
    }
}

/// The place of a position is on its line, after as many characters as its UTF-16 code units have
/// room for, and no further than where the next line starts or the text ends. A line that there is
/// not has its place at the end of the text.
pub proof fn law_positions_name_places(text: Seq<char>, starts: Seq<int>, position: Position)
    requires
        valid_starts(text, starts),
    ensures
        ({
            let place = place_of(text, starts, position);
            if position.line < starts.len() {
                let start = starts[position.line as int];
                let end = if position.line + 1 < starts.len() {
                    starts[position.line + 1]
                } else {
                    text.len() as int
                };
                &&& start <= place <= end
                &&& utf16_length(text.subrange(start, place)) <= position.character
                &&& place < end ==> utf16_length(text.subrange(start, place + 1))
                    > position.character
            } else {
                place == text.len()
            }
        }),
{
    lemma_place(text, starts, position);
    let line = position.line as int;
    if line < starts.len() {
        let start = starts[line];
        let end = if line + 1 < starts.len() {
            starts[line + 1]
        } else {
            text.len() as int
        };
        let inside = text.subrange(start, end);
        let n = characters_within(inside, position.character as int);
        law_characters_within(inside, position.character as int);
        assert(inside.take(n) =~= text.subrange(start, start + n));
        if n < inside.len() {
            assert(inside.take(n + 1) =~= text.subrange(start, start + n + 1));
        }
    }
}

/// A change puts its text in the place of its range, from the place that the start of the range
/// names up to the place that its end names, and leaves all before and after as it is. Without a
/// range its text takes the place of the whole. Language and version stay.
pub proof fn law_change_replaces_its_range(document: Document, change: Change)
    ensures
        match change.range {
            None => {
                &&& changed(document, change).text == change.text
                &&& changed(document, change).starts == line_starts(change.text)
            },
            Some(range) => {
                let start = place_of(document.text, document.starts, range.start);
                let end = place_of(document.text, document.starts, range.end);
                changed(document, change).text == document.text.take(start) + change.text
                    + document.text.skip(end)
            },
        },
        changed(document, change).language_id == document.language_id,
        changed(document, change).version == document.version,
        changed(document, change).utf16 == document.utf16,
{
}

/// A document is opened with its text as it is, and its lines after its line breaks.
pub proof fn law_opened_as_it_is(
    language_id: Seq<char>,
    version: i32,
    text: Seq<char>,
    utf16: bool,
)
    ensures
        opened(language_id, version, text, utf16) == (Document {
            language_id,
            version,
            text,
            starts: line_starts(text),
            utf16,
        }),
        can_open(text) <==> encode_utf8(text).len() <= 0xffff_ffff && line_starts(text).len()
            <= 0xffff_ffff,
{
}

/// A list of changes is read change by change, each with its range and its text.
pub proof fn law_changes_are_read_one_by_one(changes: Seq<TextDocumentContentChangeEvent>, i: int)
    requires
        0 <= i < changes.len(),
    ensures
        changes_view(changes).len() == changes.len(),
        changes_view(changes)[i].range == changes[i].range,
        changes_view(changes)[i].text == changes[i].text@,
{
}

proof fn lemma_same_when_sorted(a: Seq<int>, b: Seq<int>)
    requires
        forall|i: int, j: int| 0 <= i < j < a.len() ==> #[trigger] a[i] < #[trigger] a[j],
        forall|i: int, j: int| 0 <= i < j < b.len() ==> #[trigger] b[i] < #[trigger] b[j],
        forall|k: int| a.contains(k) <==> #[trigger] b.contains(k),
    ensures
        a == b,
    decreases a.len(),
{
    if a.len() == 0 {
        if b.len() > 0 {
            assert(b.contains(b[0]));
        }
        assert(a =~= b);
    } else {
        assert(a.contains(a.last()));
        assert(b.contains(a.last()));
        let i = choose|i: int| 0 <= i < b.len() && b[i] == a.last();
        assert(b.contains(b.last()));
        let j = choose|j: int| 0 <= j < a.len() && a[j] == b.last();
        assert(a.last() == b.last());
        let (fewer_a, fewer_b) = (a.drop_last(), b.drop_last());
        assert forall|k: int| fewer_a.contains(k) <==> #[trigger] fewer_b.contains(k) by {
            if fewer_a.contains(k) {
                let m = choose|m: int| 0 <= m < fewer_a.len() && fewer_a[m] == k;
                assert(a[m] == k && a.contains(k));
                assert(b.contains(k));
                let m = choose|m: int| 0 <= m < b.len() && b[m] == k;
                assert(fewer_b[m] == k);
            }
            if fewer_b.contains(k) {
                let m = choose|m: int| 0 <= m < fewer_b.len() && fewer_b[m] == k;
                assert(b[m] == k && b.contains(k));
                assert(a.contains(k));
                let m = choose|m: int| 0 <= m < a.len() && a[m] == k;
                assert(fewer_a[m] == k);
            }
        }
        lemma_same_when_sorted(fewer_a, fewer_b);
        assert(a =~= fewer_a.push(a.last()));
        assert(b =~= fewer_b.push(b.last()));
    }
}

/// Where lines end in line feeds alone, a change of a range leaves the lines starting where those
/// of the new text start.
#[verifier::rlimit(40)]
pub proof fn law_lines_follow_the_text(document: Document, range: Range, new: Seq<char>)
    requires
        document.starts == line_starts(document.text),
        !document.text.contains('\r'),
        !new.contains('\r'),
        range_fits(document.text, document.starts, range),
    ensures
        changed(document, Change { range: Some(range), text: new }).starts == line_starts(
            changed(document, Change { range: Some(range), text: new }).text,
        ),
{
    let text = document.text;
    let starts = document.starts;
    let start = place_of(text, starts, range.start);
    let end = place_of(text, starts, range.end);
    let first = landing_line(text, starts, range.start);
    let last = last_line(text, starts, range);
    let after = replaced(text, start, end, new);
    let added = breaks(new, start);
    let all = moved_starts(text, starts, range, new);
    let by = new.len() - (end - start);
    let shift = last + 1 - (first + 1) - added.len();
    lemma_line_starts(text);
    law_lines_start_after_line_breaks(text);
    law_breaks_are_line_breaks(new, start);
    lemma_breaks(new, start);
    lemma_place(text, starts, range.start);
    lemma_place(text, starts, range.end);
    lemma_landing(text, starts, range.start);
    lemma_landing(text, starts, range.end);
    lemma_moved_starts(text, starts, range, new);
    law_lines_start_after_line_breaks(after);
    assert forall|k: int| 0 <= k < after.len() implies #[trigger] after[k] != '\r' by {
        if k < start {
            assert(text.contains(text[k]));
        } else if k < start + new.len() {
            assert(new.contains(new[k - start]));
        } else {
            assert(text.contains(text[k - by]));
        }
    }
    assert forall|k: int| 0 <= k < text.len() implies #[trigger] text[k] != '\r' by {
        assert(text.contains(text[k]));
    }
    assert forall|i: int| last < i < starts.len() implies end < #[trigger] starts[i] by {
        assert(starts.contains(starts[i]));
        assert(starts[last] < starts[i]);
    }
    assert(all.len() == first + 1 + added.len() + (starts.len() - (last + 1)));
    assert forall|i: int| 0 <= i < all.len() implies #[trigger] all[i] == if i <= first {
        starts[i]
    } else if i <= first + added.len() {
        added[i - first - 1]
    } else {
        starts[i + shift] + by
    } by {}
    assert forall|i: int, j: int| 0 <= i < j < all.len() implies #[trigger] all[i]
        < #[trigger] all[j] by {
        if i <= first {
            assert(starts[i] <= starts[first]);
        }
        if j <= first {
            assert(starts[i] < starts[j]);
        } else if first < i && j <= first + added.len() {
            assert(added[i - first - 1] < added[j - first - 1]);
        } else if first + added.len() < i {
            assert(starts[i + shift] < starts[j + shift]);
        }
    }
    assert forall|k: int| all.contains(k) <==> #[trigger] line_starts(after).contains(k) by {
        if all.contains(k) {
            let i = choose|i: int| 0 <= i < all.len() && all[i] == k;
            if i <= first {
                assert(starts.contains(starts[i]));
                assert(starts[i] <= starts[first]);
                if k > 0 {
                    assert(after[k - 1] == text[k - 1]);
                }
            } else if i <= first + added.len() {
                assert(added.contains(added[i - first - 1]));
                assert(new.contains(new[k - start - 1]));
                assert(after[k - 1] == new[k - start - 1]);
            } else {
                let was = starts[i + shift];
                assert(starts.contains(was));
                assert(after[k - 1] == text[was - 1]);
            }
        }
        if line_starts(after).contains(k) {
            if k == 0 {
                assert(all[0] == 0);
            } else {
                assert(after[k - 1] != '\r');
                assert(after[k - 1] == '\n');
                assert(all.contains(k - 1 + 1));
            }
        }
    }
    lemma_same_when_sorted(all, line_starts(after));
}

proof fn lemma_more_units(line: Seq<char>, fewer: int, more: int)
    requires
        fewer <= more,
    ensures
        characters_within(line, fewer) <= characters_within(line, more),
    decreases line.len(),
{
    if line.len() > 0 && utf16_width(line[0]) <= fewer {
        lemma_more_units(line.skip(1), fewer - utf16_width(line[0]), more - utf16_width(line[0]));
    } else if line.len() > 0 && utf16_width(line[0]) <= more {
        lemma_more_units(line.skip(1), more - utf16_width(line[0]), more - utf16_width(line[0]));
        lemma_not_negative(line.skip(1), more - utf16_width(line[0]));
    }
}

proof fn lemma_not_negative(line: Seq<char>, units: int)
    ensures
        characters_within(line, units) >= 0,
    decreases line.len(),
{
    if line.len() > 0 && utf16_width(line[0]) <= units {
        lemma_not_negative(line.skip(1), units - utf16_width(line[0]));
    }
}

/// A range on lines that the text has, whose start is not after its end, can be replaced.
pub proof fn law_ordinary_ranges_fit(text: Seq<char>, starts: Seq<int>, range: Range)
    requires
        valid_starts(text, starts),
        range.end.line < starts.len(),
        range.start.line < range.end.line || range.start.line == range.end.line
            && range.start.character <= range.end.character,
    ensures
        range_fits(text, starts, range),
{
    let start = place_of(text, starts, range.start);
    let end = place_of(text, starts, range.end);
    lemma_place(text, starts, range.start);
    lemma_place(text, starts, range.end);
    lemma_landing(text, starts, range.start);
    lemma_landing(text, starts, range.end);
    let line = range.start.line as int;
    if range.start.line == range.end.line {
        let next = if line + 1 < starts.len() {
            starts[line + 1]
        } else {
            text.len() as int
        };
        lemma_more_units(
            text.subrange(starts[line], next),
            range.start.character as int,
            range.end.character as int,
        );
    } else {
        assert(starts[line + 1] <= starts[range.end.line as int]);
    }
}

/// A range can be replaced exactly where it runs forwards, starts on a line that there is, ends on
/// one unless the text does not end in a line feed, and does not start on a later line than it ends
/// on. Of the last there are two exceptions: a start at the beginning of the text, and a range that
/// starts where the line after its end does, just after the line feed of a line that is not empty.
/// In an empty text every range can be replaced.
pub proof fn law_ranges_that_fit(text: Seq<char>, starts: Seq<int>, range: Range)
    requires
        valid_starts(text, starts),
    ensures
        ({
            let start = place_of(text, starts, range.start);
            let end = place_of(text, starts, range.end);
            let from = range.start.line as int;
            let to = range.end.line as int;
            range_fits(text, starts, range) <==> text.len() == 0 || {
                &&& start <= end
                &&& from < starts.len()
                &&& to < starts.len() || text.last() != '\n'
                &&& from <= to || start == 0 || from == to + 1 && start == end && text[start - 1]
                    == '\n' && starts[to] != start
            }
        }),
{
    let start = place_of(text, starts, range.start);
    let end = place_of(text, starts, range.end);
    let from = range.start.line as int;
    let to = range.end.line as int;
    lemma_place(text, starts, range.start);
    lemma_place(text, starts, range.end);
    if from < starts.len() || text.len() == 0 || text.last() != '\n' {
        lemma_landing(text, starts, range.start);
    }
    if to < starts.len() || text.len() == 0 || text.last() != '\n' {
        lemma_landing(text, starts, range.end);
    }
    if from < to && to < starts.len() {
        assert(starts[from + 1] <= starts[to]);
    }
    if to < from && from < starts.len() {
        assert(starts[to + 1] <= starts[from]);
    }
}

/// A change of a range that can be replaced fits a document, unless what comes of it is too long.
pub proof fn law_short_changes_fit(document: Document, range: Range, new: Seq<char>)
    requires
        in_bounds(document),
        range_fits(document.text, document.starts, range),
        encode_utf8(document.text).len() + encode_utf8(new).len() <= 0x7fff_ffff,
        document.starts.len() + new.len() <= 0xffff_ffff,
    ensures
        fits(document, Change { range: Some(range), text: new }),
{
    let text = document.text;
    let starts = document.starts;
    let start = place_of(text, starts, range.start);
    let end = place_of(text, starts, range.end);
    lemma_place(text, starts, range.start);
    lemma_place(text, starts, range.end);
    lemma_landing(text, starts, range.start);
    lemma_landing(text, starts, range.end);
    lemma_breaks(new, start);
    lemma_bytes_cut(text, end);
    lemma_bytes_cut(text.take(end), start);
    assert(text.take(end).take(start) =~= text.take(start));
    assert(text.take(end).skip(start) =~= text.subrange(start, end));
    lemma_bytes_joined(text.take(start) + new, text.skip(end));
    lemma_bytes_joined(text.take(start), new);
}

/// A change without a range fits every document that could be opened with its text.
pub proof fn law_full_changes_fit(document: Document, new: Seq<char>)
    ensures
        fits(document, Change { range: None, text: new }) <==> encode_utf8(new).len() <= 0xffff_ffff
            && line_starts(new).len() <= 0xffff_ffff,
{
}

/// Where a change of a range fits, the range runs forwards, it starts on a line that there is, its
/// ends can be told to lines where the text ends in a line feed, and what comes of it is not too
/// long.
pub proof fn law_what_fits(document: Document, range: Range, new: Seq<char>)
    requires
        in_bounds(document),
        fits(document, Change { range: Some(range), text: new }),
    ensures
        place_of(document.text, document.starts, range.start) <= place_of(
            document.text,
            document.starts,
            range.end,
        ),
        document.text.len() > 0 && place_of(document.text, document.starts, range.start) > 0
            ==> range.start.line < document.starts.len(),
        document.text.len() > 0 && document.text.last() == '\n' ==> range.start.line
            < document.starts.len() && range.end.line < document.starts.len(),
        range.start.line > range.end.line + 1 ==> place_of(
            document.text,
            document.starts,
            range.start,
        ) == 0,
        encode_utf8(
            document.text.take(place_of(document.text, document.starts, range.start)) + new
                + document.text.skip(place_of(document.text, document.starts, range.end)),
        ).len() <= 0xffff_ffff,
        can_move(document.text, document.starts, range, new),
{
    lemma_landing(document.text, document.starts, range.start);
    lemma_landing(document.text, document.starts, range.end);
}

/// A change of a range fits exactly where the range can be replaced, the text that comes of it
/// takes no more than `u32::MAX` bytes and has no more lines than that, and the lines after the
/// range, if there are any, move by a number of bytes that an `i32` can hold.
pub proof fn law_changes_that_fit(document: Document, range: Range, new: Seq<char>)
    requires
        in_bounds(document),
    ensures
        ({
            let text = document.text;
            let starts = document.starts;
            let start = place_of(text, starts, range.start);
            let end = place_of(text, starts, range.end);
            let change = Change { range: Some(range), text: new };
            fits(document, change) <==> {
                &&& range_fits(text, starts, range)
                &&& encode_utf8(text.take(start) + new + text.skip(end)).len() <= 0xffff_ffff
                &&& changed(document, change).starts.len() <= 0xffff_ffff
                &&& landing_line(text, starts, range.end) + 1 < starts.len() ==> {
                    &&& encode_utf8(new).len() <= 0x7fff_ffff
                    &&& encode_utf8(text.subrange(start, end)).len() - encode_utf8(new).len()
                        <= 0x8000_0000
                }
            }
        }),
{
}

/// A document in bounds counts positions in UTF-16 code units, has at most `u32::MAX` bytes and as
/// many lines, the first line at its beginning, the others in their order and within the text, and
/// one after every line feed.
pub proof fn law_bounds(document: Document)
    requires
        in_bounds(document),
    ensures
        document.utf16,
        encode_utf8(document.text).len() <= 0xffff_ffff,
        0 < document.starts.len() <= 0xffff_ffff,
        document.starts[0] == 0,
        forall|i: int, j: int|
            0 <= i <= j < document.starts.len() ==> 0 <= #[trigger] document.starts[i]
                <= #[trigger] document.starts[j] <= document.text.len(),
        forall|k: int|
            0 <= k < document.text.len() && #[trigger] document.text[k] == '\n'
                ==> document.starts.contains(k + 1),
{
    assert forall|i: int| 0 <= i < document.starts.len() implies 0
        <= #[trigger] document.starts[i] by {
        assert(document.starts[0] <= document.starts[i]);
    }
}

} // verus!
