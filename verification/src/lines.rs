//! Where the lines of a text start, and which place in it a position names.
//!
//! A place in a text is the number of characters before it.

use vstd::prelude::*;

use crate::text::characters;

verus! {

/// A line of a document, and a number of UTF-16 code units into it. Both count from 0.
#[derive(Clone, Copy, Debug, PartialEq, Eq, Structural)]
pub struct Position {
    pub line: u32,
    pub character: u32,
}

/// A stretch of a document, from `start` up to but not including `end`.
#[derive(Clone, Copy, Debug, PartialEq, Eq, Structural)]
pub struct Range {
    pub start: Position,
    pub end: Position,
}

/// The places after the line breaks of `text`, where `text` itself is at the place `at`. A line
/// break is `\n`, `\r`, or the two together as `\r\n`.
pub open spec fn breaks(text: Seq<char>, at: int) -> Seq<int>
    decreases text.len(),
{
    if text.len() == 0 {
        Seq::empty()
    } else if text[0] == '\r' && text.len() > 1 && text[1] == '\n' {
        seq![at + 2] + breaks(text.skip(2), at + 2)
    } else if text[0] == '\n' || text[0] == '\r' {
        seq![at + 1] + breaks(text.skip(1), at + 1)
    } else {
        breaks(text.skip(1), at + 1)
    }
}

/// The places at which the lines of a text start when it is first read.
pub open spec fn line_starts(text: Seq<char>) -> Seq<int> {
    seq![0int] + breaks(text, 0)
}

/// The number of UTF-16 code units that a character takes.
pub open spec fn utf16_width(c: char) -> int {
    if c as u32 <= 0xffff {
        1
    } else {
        2
    }
}

/// The number of characters at the front of `line` that take no more than `units` UTF-16 code units
/// together.
pub open spec fn characters_within(line: Seq<char>, units: int) -> int
    decreases line.len(),
{
    if line.len() == 0 || utf16_width(line[0]) > units {
        0
    } else {
        1 + characters_within(line.skip(1), units - utf16_width(line[0]))
    }
}

/// The place at which a line ends, its line break included.
pub open spec fn line_end(text: Seq<char>, starts: Seq<int>, line: int) -> int {
    if line + 1 < starts.len() {
        starts[line + 1]
    } else {
        text.len() as int
    }
}

/// The place that a position names. What lies beyond the end of a line is taken back to its end,
/// and a line beyond the last is taken back to the end of the text.
pub open spec fn place_of(text: Seq<char>, starts: Seq<int>, position: Position) -> int {
    let line = position.line as int;
    if line < starts.len() {
        starts[line] + characters_within(
            text.subrange(starts[line], line_end(text, starts, line)),
            position.character as int,
        )
    } else {
        text.len() as int
    }
}

/// Whether the place that a position names can be told to a line: the line exists, or the text does
/// not end in a line feed.
pub open spec fn has_place(text: Seq<char>, starts: Seq<int>, position: Position) -> bool {
    position.line < starts.len() || text.len() == 0 || text.last() != '\n'
}

/// The line that the place of a position belongs to: the first for the beginning of the text, and
/// the next one where the place is just after a line feed and the line itself starts elsewhere.
pub open spec fn landing_line(text: Seq<char>, starts: Seq<int>, position: Position) -> int {
    let place = place_of(text, starts, position);
    let line = position.line as int;
    if place == 0 {
        0
    } else if text[place - 1] == '\n' && starts[line] != place {
        line + 1
    } else {
        line
    }
}

/// Whether a range can be replaced: its ends have places and lines in this order, and it starts on
/// a line that the text has.
pub open spec fn range_fits(text: Seq<char>, starts: Seq<int>, range: Range) -> bool {
    &&& has_place(text, starts, range.start)
    &&& has_place(text, starts, range.end)
    &&& place_of(text, starts, range.start) <= place_of(text, starts, range.end)
    &&& landing_line(text, starts, range.start) <= landing_line(text, starts, range.end)
    &&& landing_line(text, starts, range.start) < starts.len()
}

/// `text` with what is between two places replaced by `new`.
pub open spec fn replaced(text: Seq<char>, start: int, end: int, new: Seq<char>) -> Seq<char> {
    text.take(start) + new + text.skip(end)
}

/// The last line that a range touches.
pub open spec fn last_line(text: Seq<char>, starts: Seq<int>, range: Range) -> int {
    let line = landing_line(text, starts, range.end);
    if line < starts.len() {
        line
    } else {
        starts.len() - 1
    }
}

/// Where lines start once `new` has taken the place of a range: those up to the line on which the
/// range starts stay, the line breaks of `new` bring theirs, and those after the last line that the
/// range touches move with their text.
pub open spec fn moved_starts(
    text: Seq<char>,
    starts: Seq<int>,
    range: Range,
    new: Seq<char>,
) -> Seq<int> {
    let start = place_of(text, starts, range.start);
    let end = place_of(text, starts, range.end);
    let kept = starts.take(landing_line(text, starts, range.start) + 1);
    let moved = starts.skip(last_line(text, starts, range) + 1);
    kept + breaks(new, start) + moved.map_values(|place: int| place - (end - start) + new.len())
}

/// Whether lines can start at these places in a text: the first at its beginning, the others in
/// their order, and one after every line feed.
pub open spec fn valid_starts(text: Seq<char>, starts: Seq<int>) -> bool {
    &&& starts.len() > 0
    &&& starts[0] == 0
    &&& forall|i: int, j: int|
        0 <= i <= j < starts.len() ==> #[trigger] starts[i] <= #[trigger] starts[j]
    &&& forall|i: int| 0 <= i < starts.len() ==> #[trigger] starts[i] <= text.len()
    &&& forall|k: int| 0 <= k < text.len() && #[trigger] text[k] == '\n' ==> starts.contains(k + 1)
}

/// The places after line breaks come in their order, no more than one for each character, and one
/// for each line feed.
pub proof fn lemma_breaks(text: Seq<char>, at: int)
    ensures
        breaks(text, at).len() <= text.len(),
        breaks(text, at).len() == breaks(text, 0).len(),
        forall|i: int|
            0 <= i < breaks(text, at).len() ==> at < #[trigger] breaks(text, at)[i] <= at
                + text.len(),
        forall|i: int, j: int|
            0 <= i <= j < breaks(text, at).len() ==> #[trigger] breaks(text, at)[i]
                <= #[trigger] breaks(text, at)[j],
        forall|k: int|
            0 <= k < text.len() && #[trigger] text[k] == '\n' ==> breaks(text, at).contains(
                at + k + 1,
            ),
    decreases text.len(),
{
    if text.len() > 0 {
        let n: int = if text[0] == '\r' && text.len() > 1 && text[1] == '\n' {
            2
        } else {
            1
        };
        let rest = text.skip(n);
        lemma_breaks(rest, at + n);
        lemma_breaks(rest, n);
        let later = breaks(rest, at + n);
        let all = breaks(text, at);
        let first = all.len() - later.len();
        assert forall|k: int|
            0 <= k < text.len() && #[trigger] text[k] == '\n' implies all.contains(at + k + 1) by {
            if k < n {
                assert(all[0] == at + n);
                assert(k == n - 1);
            } else {
                assert(rest[k - n] == '\n');
                let i = choose|i: int| 0 <= i < later.len() && later[i] == at + n + (k - n) + 1;
                assert(all[first + i] == later[i]);
            }
        }
        assert forall|i: int| 0 <= i < all.len() implies at < #[trigger] all[i] <= at
            + text.len() by {
            if i >= first {
                assert(all[i] == later[i - first]);
            }
        }
        assert forall|i: int, j: int| 0 <= i <= j < all.len() implies #[trigger] all[i]
            <= #[trigger] all[j] by {
            if j >= first {
                assert(all[j] == later[j - first]);
                if i >= first {
                    assert(all[i] == later[i - first]);
                }
            }
        }
    }
}

/// The lines of a text that is first read start at valid places, at most one more than characters.
pub proof fn lemma_line_starts(text: Seq<char>)
    ensures
        valid_starts(text, line_starts(text)),
        line_starts(text).len() <= text.len() + 1,
{
    lemma_breaks(text, 0);
    let starts = line_starts(text);
    let later = breaks(text, 0);
    assert forall|k: int| 0 <= k < text.len() && #[trigger] text[k] == '\n' implies starts.contains(
        k + 1,
    ) by {
        let i = choose|i: int| 0 <= i < later.len() && later[i] == 0 + k + 1;
        assert(starts[i + 1] == k + 1);
    }
}

proof fn lemma_characters_within(line: Seq<char>, units: int)
    ensures
        0 <= characters_within(line, units) <= line.len(),
    decreases line.len(),
{
    if line.len() > 0 && utf16_width(line[0]) <= units {
        lemma_characters_within(line.skip(1), units - utf16_width(line[0]));
    }
}

/// The place of a position lies within its line, and within the text. The place of the beginning of
/// a line is where this starts.
pub proof fn lemma_place(text: Seq<char>, starts: Seq<int>, position: Position)
    requires
        valid_starts(text, starts),
    ensures
        0 <= place_of(text, starts, position) <= text.len(),
        position.line < starts.len() ==> starts[position.line as int] <= place_of(
            text,
            starts,
            position,
        ) <= line_end(text, starts, position.line as int),
        position.line < starts.len() && position.character == 0 ==> place_of(text, starts, position)
            == starts[position.line as int],
{
    let line = position.line as int;
    if line < starts.len() {
        assert(starts[0] <= starts[line] <= line_end(text, starts, line) <= text.len());
        lemma_characters_within(
            text.subrange(starts[line], line_end(text, starts, line)),
            position.character as int,
        );
    }
}

/// The line that a place belongs to starts at or before it, and later lines at or after it. Just
/// after a line feed, it starts there.
pub proof fn lemma_landing(text: Seq<char>, starts: Seq<int>, position: Position)
    requires
        valid_starts(text, starts),
        has_place(text, starts, position),
    ensures
        ({
            let place = place_of(text, starts, position);
            let line = landing_line(text, starts, position);
            &&& 0 <= line <= position.line + 1
            &&& line < starts.len() ==> starts[line] <= place
            &&& line >= starts.len() ==> place == text.len()
            &&& forall|i: int| line < i < starts.len() ==> place <= #[trigger] starts[i]
            &&& place > 0 && text[place - 1] == '\n' ==> {
                line < starts.len() && starts[line] == place
            }
        }),
{
    lemma_place(text, starts, position);
    let place = place_of(text, starts, position);
    let line = position.line as int;
    if place > 0 && line < starts.len() {
        if text[place - 1] == '\n' && starts[line] != place {
            assert(starts.contains(place - 1 + 1));
            let m = choose|m: int| 0 <= m < starts.len() && starts[m] == place;
            assert(line < m);
            assert(starts[line + 1] <= starts[m]);
        } else if line + 1 < starts.len() {
            assert(place <= starts[line + 1]);
        }
    }
}

/// Where a range fits, lines start at valid places after it is replaced.
pub proof fn lemma_moved_starts(text: Seq<char>, starts: Seq<int>, range: Range, new: Seq<char>)
    requires
        valid_starts(text, starts),
        range_fits(text, starts, range),
    ensures
        valid_starts(
            replaced(
                text,
                place_of(text, starts, range.start),
                place_of(text, starts, range.end),
                new,
            ),
            moved_starts(text, starts, range, new),
        ),
{
    let start = place_of(text, starts, range.start);
    let end = place_of(text, starts, range.end);
    let first = landing_line(text, starts, range.start);
    let last = last_line(text, starts, range);
    lemma_place(text, starts, range.start);
    lemma_place(text, starts, range.end);
    lemma_landing(text, starts, range.start);
    lemma_landing(text, starts, range.end);
    lemma_breaks(new, start);
    let after = replaced(text, start, end, new);
    let added = breaks(new, start);
    let all = moved_starts(text, starts, range, new);
    let by = new.len() - (end - start);
    let shift = last + 1 - (first + 1) - added.len();
    assert(all.len() == first + 1 + added.len() + (starts.len() - (last + 1)));
    assert forall|i: int| 0 <= i < all.len() implies #[trigger] all[i] == if i <= first {
        starts[i]
    } else if i <= first + added.len() {
        added[i - first - 1]
    } else {
        starts[i + shift] + by
    } by {}
    assert forall|i: int| 0 <= i < all.len() implies {
        &&& i <= first ==> #[trigger] all[i] <= start
        &&& first < i <= first + added.len() ==> start < all[i] <= start + new.len()
        &&& first + added.len() < i ==> start + new.len() <= all[i] <= after.len()
    } by {
        if i <= first {
            assert(starts[i] <= starts[first]);
        }
    }
    assert forall|i: int, j: int| 0 <= i <= j < all.len() implies #[trigger] all[i]
        <= #[trigger] all[j] by {
        if j <= first {
            assert(starts[i] <= starts[j]);
        } else if first < i && j <= first + added.len() {
            assert(added[i - first - 1] <= added[j - first - 1]);
        } else if first + added.len() < i {
            assert(starts[i + shift] <= starts[j + shift]);
        }
    }
    assert forall|k: int| 0 <= k < after.len() && #[trigger] after[k] == '\n' implies all.contains(
        k + 1,
    ) by {
        if k < start {
            assert(text[k] == '\n');
            let m = choose|m: int| 0 <= m < starts.len() && starts[m] == k + 1;
            if k + 1 < start {
                assert(m <= first);
                assert(all[m] == k + 1);
            } else {
                assert(all[first] == k + 1);
            }
        } else if k < start + new.len() {
            assert(new[k - start] == '\n');
            let m = choose|m: int| 0 <= m < added.len() && added[m] == start + (k - start) + 1;
            assert(all[first + 1 + m] == k + 1);
        } else {
            let was = k - by;
            assert(text[was] == '\n');
            let m = choose|m: int| 0 <= m < starts.len() && starts[m] == was + 1;
            if m <= last {
                assert(starts[m] <= starts[last]);
            }
            assert(all[m - shift] == k + 1);
        }
    }
}

/// The number of line breaks in a text.
pub fn count_breaks(text: &str) -> (r: usize)
    ensures
        r == breaks(text@, 0).len(),
        r <= text@.len(),
{
    let text = characters(text);
    proof {
        lemma_breaks(text@, 0);
    }
    let mut count: usize = 0;
    let mut i: usize = 0;
    assert(text@.skip(0) =~= text@);
    while i < text.len()
        invariant
            i <= text@.len(),
            count <= i,
            count + breaks(text@.skip(i as int), 0).len() == breaks(text@, 0).len(),
        decreases text@.len() - i,
    {
        let ghost rest = text@.skip(i as int);
        proof {
            lemma_breaks(rest.skip(1), 1);
            assert(rest.skip(1) =~= text@.skip(i + 1));
        }
        if text[i] == '\r' && i + 1 < text.len() && text[i + 1] == '\n' {
            proof {
                lemma_breaks(rest.skip(2), 2);
                assert(rest.skip(2) =~= text@.skip(i + 2));
            }
            count += 1;
            i += 2;
        } else if text[i] == '\n' || text[i] == '\r' {
            count += 1;
            i += 1;
        } else {
            i += 1;
        }
    }
    assert(text@.skip(i as int).len() == 0);
    count
}

} // verus!
