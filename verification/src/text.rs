//! Comparing text character by character.

use vstd::prelude::*;
use vstd::utf8::encode_scalar;
use vstd::utf8::encode_utf8;
use vstd::utf8::last_continuation_byte;
use vstd::utf8::leading_byte_width_1;

verus! {

/// Whether `text` takes at most `i32::MAX` bytes in UTF-8, the most that a URI may take, and so a
/// message that holds one.
pub open spec fn within_limit(text: Seq<char>) -> bool {
    encode_utf8(text).len() <= i32::MAX
}

/// Whether `text` takes at most `i32::MAX` bytes.
pub fn is_within_limit(text: &str) -> (r: bool)
    ensures
        r == within_limit(text@),
{
    text.as_bytes().len() <= 0x7fff_ffff
}

/// Whether `text` takes at most `u32::MAX` bytes in UTF-8, the most that a document may take.
pub open spec fn document_sized(text: Seq<char>) -> bool {
    encode_utf8(text).len() <= u32::MAX
}

/// The bytes of joined texts are the joined bytes of the texts.
pub proof fn lemma_bytes_joined(a: Seq<char>, b: Seq<char>)
    ensures
        encode_utf8(a + b) == encode_utf8(a) + encode_utf8(b),
    decreases a.len(),
{
    if a.len() == 0 {
        assert(a + b =~= b);
    } else {
        assert((a + b).drop_first() =~= a.drop_first() + b);
        lemma_bytes_joined(a.drop_first(), b);
    }
    assert(encode_utf8(a + b) =~= encode_utf8(a) + encode_utf8(b));
}

/// A text has no more characters than bytes.
pub proof fn lemma_bytes_of_characters(text: Seq<char>)
    ensures
        text.len() <= encode_utf8(text).len(),
    decreases text.len(),
{
    if text.len() > 0 {
        lemma_bytes_of_characters(text.drop_first());
    }
}

/// Cutting a text in two cuts its bytes in two.
pub proof fn lemma_bytes_cut(text: Seq<char>, at: int)
    requires
        0 <= at <= text.len(),
    ensures
        encode_utf8(text) == encode_utf8(text.take(at)) + encode_utf8(text.skip(at)),
{
    lemma_bytes_joined(text.take(at), text.skip(at));
    assert(text.take(at) + text.skip(at) =~= text);
}

/// Of two places in a text, the later one has more bytes before it.
pub proof fn lemma_bytes_ordered(text: Seq<char>, a: int, b: int)
    requires
        0 <= a <= text.len(),
        0 <= b <= text.len(),
    ensures
        a <= b <==> encode_utf8(text.take(a)).len() <= encode_utf8(text.take(b)).len(),
{
    if a <= b {
        lemma_bytes_cut(text.take(b), a);
        assert(text.take(b).take(a) =~= text.take(a));
    } else {
        lemma_bytes_cut(text.take(a), b);
        assert(text.take(a).take(b) =~= text.take(b));
        lemma_bytes_of_characters(text.take(a).skip(b));
    }
}

/// The last byte of a character is a line feed where the character is one.
proof fn lemma_line_feed_byte(c: char)
    ensures
        encode_utf8(seq![c]).len() > 0,
        encode_utf8(seq![c]).last() == 0x0a <==> c == '\n',
{
    let scalar = c as u32;
    assert(seq![c].drop_first() =~= Seq::<char>::empty());
    assert(encode_utf8(seq![c]) =~= encode_scalar(scalar)) by {
        reveal_with_fuel(encode_utf8, 2);
    }
    if scalar <= 0x7f {
        assert(leading_byte_width_1(scalar) == scalar) by (bit_vector)
            requires
                scalar <= 0x7f,
        ;
    } else {
        assert(last_continuation_byte(scalar) >= 0x80) by (bit_vector);
    }
}

/// The byte before a place is a line feed where the character before it is one.
pub proof fn lemma_line_feed_before(text: Seq<char>, place: int)
    requires
        0 < place <= text.len(),
    ensures
        0 < encode_utf8(text.take(place)).len() <= encode_utf8(text).len(),
        encode_utf8(text)[encode_utf8(text.take(place)).len() - 1] == 0x0a <==> text[place - 1]
            == '\n',
{
    lemma_bytes_cut(text, place);
    lemma_bytes_cut(text.take(place), place - 1);
    assert(text.take(place).skip(place - 1) =~= seq![text[place - 1]]);
    lemma_line_feed_byte(text[place - 1]);
}

/// `c` with an ASCII capital letter replaced by its small letter.
pub open spec fn lower(c: char) -> char {
    if 'A' <= c <= 'Z' {
        (c as int - 'A' as int + 'a' as int) as char
    } else {
        c
    }
}

/// `text` with every ASCII capital letter replaced by its small letter.
pub open spec fn ascii_lowercase(text: Seq<char>) -> Seq<char> {
    text.map_values(|c: char| lower(c))
}

fn to_lower(c: char) -> (r: char)
    ensures
        r == lower(c),
{
    if 'A' <= c && c <= 'Z' {
        ((c as u8) + 32) as char
    } else {
        c
    }
}

/// The characters of `text`.
pub fn characters(text: &str) -> (r: Vec<char>)
    ensures
        r@ == text@,
{
    let mut r: Vec<char> = Vec::new();
    for c in it: text.chars()
        invariant
            r@ == it.seq().take(it.index()),
    {
        r.push(c);
    }
    r
}

/// Whether two strings hold the same characters.
pub fn same_text(a: &str, b: &str) -> (r: bool)
    ensures
        r == (a@ == b@),
{
    a.to_owned() == b.to_owned()
}

/// Whether `text` is `word` when the case of ASCII letters in the former is ignored.
pub fn matches_ignoring_case(text: &Vec<char>, word: &str) -> (r: bool)
    ensures
        r == (ascii_lowercase(text@) == word@),
{
    let expected = characters(word);
    let ghost lowered = ascii_lowercase(text@);
    if text.len() != expected.len() {
        return false;
    }
    let mut i: usize = 0;
    while i < expected.len()
        invariant
            expected@ == word@,
            text@.len() == expected@.len(),
            lowered == ascii_lowercase(text@),
            i <= expected@.len(),
            forall|j: int| 0 <= j < i ==> lowered[j] == expected@[j],
        decreases expected@.len() - i,
    {
        if to_lower(text[i]) != expected[i] {
            return false;
        }
        i += 1;
    }
    assert(lowered =~= expected@);
    true
}

} // verus!
