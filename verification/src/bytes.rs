//! Small operations on byte strings.

use vstd::prelude::*;
use vstd::utf8::{decode_utf8, valid_utf8};
use crate::seq_util::lemma_filter_push;

verus! {

/// Whether two byte strings are the same.
pub fn eq_bytes(a: &[u8], b: &[u8]) -> (r: bool)
    ensures
        r == (a@ == b@),
{
    if a.len() != b.len() {
        return false;
    }
    let mut i: usize = 0;
    while i < a.len()
        invariant
            i <= a.len(),
            a.len() == b.len(),
            forall|j: int| 0 <= j < i ==> a@[j] == b@[j],
        decreases a.len() - i,
    {
        if a[i] != b[i] {
            return false;
        }
        i += 1;
    }
    assert(a@ =~= b@);
    true
}

/// The bytes from one place up to another.
pub fn slice_of(v: &[u8], from: usize, to: usize) -> (r: Vec<u8>)
    requires
        from <= to <= v@.len(),
    ensures
        r@ == v@.subrange(from as int, to as int),
{
    let mut out: Vec<u8> = Vec::new();
    let mut i: usize = from;
    while i < to
        invariant
            from <= i <= to <= v@.len(),
            out@ == v@.subrange(from as int, i as int),
        decreases to - i,
    {
        out.push(v[i]);
        assert(out@ =~= v@.subrange(from as int, i as int + 1));
        i += 1;
    }
    out
}

/// Appends a byte string to a buffer.
pub fn append_bytes(buffer: &mut Vec<u8>, more: &[u8])
    ensures
        final(buffer)@ == old(buffer)@ + more@,
{
    let mut i: usize = 0;
    while i < more.len()
        invariant
            i <= more.len(),
            buffer@ == old(buffer)@ + more@.take(i as int),
        decreases more.len() - i,
    {
        buffer.push(more[i]);
        assert(buffer@ =~= old(buffer)@ + more@.take(i as int + 1));
        i += 1;
    }
    assert(more@.take(more.len() as int) =~= more@);
}

/// The first place from `from` on at which a byte occurs, or the length
/// where it does not occur.
pub open spec fn first_index(s: Seq<u8>, b: u8, from: int) -> int
    decreases s.len() - from,
{
    if from >= s.len() {
        s.len() as int
    } else if s[from] == b {
        from
    } else {
        first_index(s, b, from + 1)
    }
}

pub fn find_byte(v: &[u8], b: u8) -> (r: usize)
    ensures
        r == first_index(v@, b, 0),
        r <= v@.len(),
{
    find_byte_from(v, b, 0)
}

pub fn find_byte_from(v: &[u8], b: u8, from: usize) -> (r: usize)
    requires
        from <= v@.len(),
    ensures
        r == first_index(v@, b, from as int),
        from <= r <= v@.len(),
{
    let mut i: usize = from;
    while i < v.len()
        invariant
            from <= i <= v.len(),
            first_index(v@, b, from as int) == first_index(v@, b, i as int),
        decreases v.len() - i,
    {
        if v[i] == b {
            return i;
        }
        i += 1;
    }
    i
}

/// Line ends, blanks and tabs.
pub open spec fn is_space(b: u8) -> bool {
    b == 10 || b == 13 || b == 32 || b == 9
}

/// A byte string without its line ends, blanks and tabs.
pub open spec fn compact(s: Seq<u8>) -> Seq<u8> {
    s.filter(|b: u8| !is_space(b))
}

pub fn without_spaces(v: &[u8]) -> (r: Vec<u8>)
    ensures
        r@ == compact(v@),
{
    let ghost keep = |b: u8| !is_space(b);
    let mut out: Vec<u8> = Vec::new();
    let mut i: usize = 0;
    proof {
        reveal(Seq::filter);
        assert(v@.take(0).filter(keep) =~= Seq::<u8>::empty());
    }
    while i < v.len()
        invariant
            i <= v.len(),
            keep == |b: u8| !is_space(b),
            out@ == v@.take(i as int).filter(keep),
        decreases v.len() - i,
    {
        let b = v[i];
        proof {
            assert(v@.take(i as int + 1) =~= v@.take(i as int).push(b));
            lemma_filter_push(v@.take(i as int), b, keep);
        }
        if !(b == 10 || b == 13 || b == 32 || b == 9) {
            out.push(b);
        }
        i += 1;
    }
    assert(v@.take(v.len() as int) =~= v@);
    out
}

/// Whether a byte string ends with another.
pub open spec fn ends_with(s: Seq<u8>, tail: Seq<u8>) -> bool {
    s.len() >= tail.len() && s.skip(s.len() - tail.len()) == tail
}

/// Whether a byte string starts with another.
pub open spec fn starts_with(s: Seq<u8>, head: Seq<u8>) -> bool {
    s.len() >= head.len() && s.take(head.len() as int) == head
}

pub fn has_suffix(v: &[u8], tail: &[u8]) -> (r: bool)
    ensures
        r == ends_with(v@, tail@),
{
    if v.len() < tail.len() {
        return false;
    }
    let start = v.len() - tail.len();
    let end = slice_of(v, start, v.len());
    assert(v@.subrange(start as int, v@.len() as int) =~= v@.skip(v@.len() - tail@.len()));
    eq_bytes(end.as_slice(), tail)
}

pub fn has_prefix(v: &[u8], head: &[u8]) -> (r: bool)
    ensures
        r == starts_with(v@, head@),
{
    if v.len() < head.len() {
        return false;
    }
    let start = slice_of(v, 0, head.len());
    assert(v@.subrange(0, head@.len() as int) =~= v@.take(head@.len() as int));
    eq_bytes(start.as_slice(), head)
}

/// Calls `String::from_utf8` of std. Trusted, as its documentation says:
/// bytes that are valid UTF-8 give the string they encode, others none.
#[verifier::external_body]
pub(crate) fn string_from_utf8(bytes: Vec<u8>) -> (r: Option<String>)
    ensures
        match r {
            Some(s) => valid_utf8(bytes@) && s@ == decode_utf8(bytes@),
            None => !valid_utf8(bytes@),
        },
{
    String::from_utf8(bytes).ok()
}

/// A text as the `Debug` form of std shows it: in quotes, with a
/// backslash before a quote or a backslash in it, and with the escapes of
/// std for what does not print.
pub uninterp spec fn debug_form(text: Seq<char>) -> Seq<char>;

/// Calls `format!` of std with `{:?}` on a text. Trusted: that the result
/// is a function of the text, named `debug_form`.
#[verifier::external_body]
pub(crate) fn debug_text(text: &str) -> (r: String)
    ensures
        r@ == debug_form(text@),
{
    format!("{:?}", text)
}

/// The character of a hexadecimal digit.
pub open spec fn hex_digit(n: u8) -> u8 {
    if n < 10 {
        (48 + n) as u8
    } else {
        (87 + n) as u8
    }
}

/// Bytes written in hexadecimal, two lower case digits each.
pub open spec fn hex_of(bytes: Seq<u8>) -> Seq<u8>
    decreases bytes.len(),
{
    if bytes.len() == 0 {
        Seq::empty()
    } else {
        hex_of(bytes.drop_last()).push(hex_digit(bytes.last() / 16)).push(
            hex_digit(bytes.last() % 16),
        )
    }
}

/// The value of a hexadecimal digit in lower case.
pub open spec fn nibble(c: u8) -> Option<u8> {
    if 48 <= c <= 57 {
        Some((c - 48) as u8)
    } else if 97 <= c <= 102 {
        Some((c - 87) as u8)
    } else {
        None
    }
}

/// The bytes that a hexadecimal text stands for, if it is one.
pub open spec fn unhexed(text: Seq<u8>) -> Option<Seq<u8>>
    decreases text.len(),
{
    if text.len() == 0 {
        Some(Seq::empty())
    } else if text.len() < 2 {
        None
    } else {
        match (
            unhexed(text.take(text.len() - 2)),
            nibble(text[text.len() - 2]),
            nibble(text[text.len() - 1]),
        ) {
            (Some(bytes), Some(high), Some(low)) => Some(bytes.push((high * 16 + low) as u8)),
            _ => None,
        }
    }
}

fn hex_digit_of(n: u8) -> (r: u8)
    requires
        n < 16,
    ensures
        r == hex_digit(n),
{
    if n < 10 {
        48 + n
    } else {
        87 + n
    }
}

fn nibble_of(c: u8) -> (r: Option<u8>)
    ensures
        r == nibble(c),
        r is Some ==> r->0 < 16,
{
    if 48 <= c && c <= 57 {
        Some(c - 48)
    } else if 97 <= c && c <= 102 {
        Some(c - 87)
    } else {
        None
    }
}

/// Writes bytes in hexadecimal.
pub fn to_hex(bytes: &[u8]) -> (r: Vec<u8>)
    ensures
        r@ == hex_of(bytes@),
{
    let mut out: Vec<u8> = Vec::new();
    let mut i: usize = 0;
    assert(bytes@.take(0) =~= Seq::<u8>::empty());
    while i < bytes.len()
        invariant
            i <= bytes.len(),
            out@ == hex_of(bytes@.take(i as int)),
        decreases bytes.len() - i,
    {
        let b = bytes[i];
        out.push(hex_digit_of(b / 16));
        out.push(hex_digit_of(b % 16));
        assert(bytes@.take(i as int + 1).drop_last() =~= bytes@.take(i as int));
        i += 1;
    }
    assert(bytes@.take(i as int) =~= bytes@);
    out
}

/// Reads bytes from their hexadecimal text.
pub fn from_hex(text: &[u8]) -> (r: Option<Vec<u8>>)
    ensures
        match r {
            Some(bytes) => unhexed(text@) == Some(bytes@),
            None => unhexed(text@) is None,
        },
{
    if text.len() % 2 != 0 {
        proof {
            lemma_unhexed_is_even(text@);
        }
        return None;
    }
    let mut out: Vec<u8> = Vec::new();
    let mut i: usize = 0;
    assert(text@.take(0) =~= Seq::<u8>::empty());
    while i < text.len()
        invariant
            i <= text.len(),
            i % 2 == 0,
            text.len() % 2 == 0,
            unhexed(text@.take(i as int)) == Some(out@),
        decreases text.len() - i,
    {
        let ghost next = text@.take(i as int + 2);
        assert(next.take(next.len() - 2) =~= text@.take(i as int));
        match (nibble_of(text[i]), nibble_of(text[i + 1])) {
            (Some(high), Some(low)) => {
                out.push(high * 16 + low);
            },
            _ => {
                proof {
                    assert(unhexed(next) is None);
                    lemma_unhexed_prefix(text@, i as int + 2);
                }
                return None;
            },
        }
        i += 2;
    }
    assert(text@.take(i as int) =~= text@);
    Some(out)
}

/// A text of odd length is no hexadecimal text.
proof fn lemma_unhexed_is_even(text: Seq<u8>)
    requires
        text.len() % 2 != 0,
    ensures
        unhexed(text) is None,
    decreases text.len(),
{
    if text.len() >= 2 {
        lemma_unhexed_is_even(text.take(text.len() - 2));
    }
}

/// A text with a start of even length that is no hexadecimal text is none
/// either.
proof fn lemma_unhexed_prefix(text: Seq<u8>, n: int)
    requires
        0 <= n <= text.len(),
        n % 2 == 0,
        text.len() % 2 == 0,
        unhexed(text.take(n)) is None,
    ensures
        unhexed(text) is None,
    decreases text.len(),
{
    if n == text.len() {
        assert(text.take(n) =~= text);
    } else {
        let shorter = text.take(text.len() - 2);
        assert(shorter.take(n) =~= text.take(n));
        lemma_unhexed_prefix(shorter, n);
    }
}

/// Hexadecimal text has two digits for each byte, and reads back to the
/// bytes it was written from.
pub proof fn lemma_hex_round_trip(bytes: Seq<u8>)
    ensures
        hex_of(bytes).len() == 2 * bytes.len(),
        unhexed(hex_of(bytes)) == Some(bytes),
        forall|i: int| 0 <= i < hex_of(bytes).len() ==> nibble(#[trigger] hex_of(bytes)[i]) is Some,
    decreases bytes.len(),
{
    if bytes.len() > 0 {
        let init = bytes.drop_last();
        let last = bytes.last();
        lemma_hex_round_trip(init);
        let text = hex_of(bytes);
        assert(text.take(text.len() - 2) =~= hex_of(init));
        assert(nibble(hex_digit(last / 16)) == Some((last / 16) as u8));
        assert(nibble(hex_digit(last % 16)) == Some((last % 16) as u8));
        assert(init.push(last) =~= bytes);
        assert(((last / 16) * 16 + last % 16) as u8 == last);
    } else {
        assert(bytes =~= Seq::<u8>::empty());
    }
}

/// What is left of a text without blanks and line ends is the text.
pub(crate) proof fn lemma_compact_of_dense(s: Seq<u8>)
    requires
        forall|i: int| 0 <= i < s.len() ==> !is_space(#[trigger] s[i]),
    ensures
        compact(s) == s,
    decreases s.len(),
{
    reveal(Seq::filter);
    if s.len() > 0 {
        lemma_compact_of_dense(s.drop_last());
        assert(s.drop_last().push(s.last()) =~= s);
    } else {
        assert(compact(s) =~= s);
    }
}

/// Leaving blanks and line ends out of two texts in a row leaves them out
/// of each.
pub(crate) proof fn lemma_compact_concat(a: Seq<u8>, b: Seq<u8>)
    ensures
        compact(a + b) == compact(a) + compact(b),
{
    Seq::filter_distributes_over_add(a, b, |x: u8| !is_space(x));
}

/// A byte that a text does not hold is first found at its end, and a byte
/// that stands behind a text without it is first found there.
pub(crate) proof fn lemma_first_index_skips(head: Seq<u8>, tail: Seq<u8>, b: u8, from: int)
    requires
        0 <= from <= head.len(),
        forall|i: int| 0 <= i < head.len() ==> #[trigger] head[i] != b,
    ensures
        first_index(head + tail, b, from) == first_index(head + tail, b, head.len() as int),
        tail.len() > 0 && tail[0] == b ==> first_index(head + tail, b, from) == head.len(),
        tail.len() == 0 ==> first_index(head + tail, b, from) == head.len(),
    decreases head.len() - from,
{
    if from < head.len() {
        assert((head + tail)[from] == head[from]);
        lemma_first_index_skips(head, tail, b, from + 1);
    } else if tail.len() > 0 {
        assert((head + tail)[from] == tail[0]);
    }
}

/// Bytes below 128 are text in UTF-8.
pub proof fn lemma_ascii_is_utf8(bytes: Seq<u8>)
    requires
        forall|i: int| 0 <= i < bytes.len() ==> bytes[i] < 128,
    ensures
        valid_utf8(bytes),
{
    assert(bytes.subrange(0, 0) =~= Seq::<u8>::empty());
    assert(vstd::utf8::partial_valid_utf8(bytes, 0));
    assert forall|i: int| 0 <= i < bytes.len() implies #[trigger] vstd::utf8::is_leading_byte_width_1(
        bytes[i],
    ) by {}
    vstd::utf8::partial_valid_utf8_extend_ascii_block(bytes, 0, bytes.len() as int);
    assert(bytes.subrange(0, bytes.len() as int) =~= bytes);
}

/// What is written in hexadecimal is made of bytes below 128.
pub proof fn lemma_hex_is_ascii(bytes: Seq<u8>)
    ensures
        forall|i: int| 0 <= i < hex_of(bytes).len() ==> hex_of(bytes)[i] < 128,
    decreases bytes.len(),
{
    if bytes.len() > 0 {
        lemma_hex_is_ascii(bytes.drop_last());
        let last = bytes.last();
        assert(last / 16 < 16 && last % 16 < 16);
        assert(hex_digit(last / 16) < 128 && hex_digit(last % 16) < 128);
        let before = hex_of(bytes.drop_last());
        assert(hex_of(bytes) == before.push(hex_digit(last / 16)).push(hex_digit(last % 16)));
        assert forall|i: int| 0 <= i < hex_of(bytes).len() implies hex_of(bytes)[i] < 128 by {
            if i < before.len() {
                assert(hex_of(bytes)[i] == before[i]);
            }
        }
    }
}

/// The text that bytes below 128 are.
pub fn ascii_text(bytes: Vec<u8>) -> (r: String)
    requires
        forall|i: int| 0 <= i < bytes@.len() ==> bytes@[i] < 128,
    ensures
        r@ == decode_utf8(bytes@),
        valid_utf8(bytes@),
{
    proof {
        lemma_ascii_is_utf8(bytes@);
    }
    match string_from_utf8(bytes) {
        Some(text) => text,
        None => String::from_str(""),
    }
}

} // verus!
