//! The textual armour around a binary encoding: a header line that names
//! what is inside, the base64 text in lines of 64 characters, and a footer
//! line.

use vstd::prelude::*;
use vstd::string::{StringSliceAdditionalSpecFns, is_ascii_spec_bytes};
use crate::bytes::{
    is_space,
    lemma_compact_concat,
    lemma_compact_of_dense,
    lemma_first_index_skips,
    append_bytes,
    compact,
    ends_with,
    find_byte,
    first_index,
    has_prefix,
    has_suffix,
    slice_of,
    starts_with,
    without_spaces,
};
use crate::crypto::{
    MAX_INPUT,
    base64_decode,
    base64_decoded,
    base64_encode,
    base64_of,
    is_base64_byte,
};
use crate::seq_util::lemma_filter_push;

verus! {

pub open spec fn begin_marker() -> Seq<u8> {
    "-----BEGIN ".spec_bytes()
}

pub open spec fn end_marker() -> Seq<u8> {
    "-----END ".spec_bytes()
}

pub open spec fn dashes() -> Seq<u8> {
    "-----".spec_bytes()
}

/// The header line for a label, without its line end.
pub open spec fn header_of(label: Seq<u8>) -> Seq<u8> {
    begin_marker() + label + dashes()
}

/// The footer line for a label, without its line end.
pub open spec fn footer_of(label: Seq<u8>) -> Seq<u8> {
    end_marker() + label + dashes()
}

/// A text cut into lines of at most `width` bytes, each with its line end.
pub open spec fn lines(text: Seq<u8>, width: int) -> Seq<u8>
    decreases text.len(),
{
    if text.len() == 0 || width <= 0 {
        Seq::empty()
    } else if text.len() <= width {
        text.push(10)
    } else {
        text.take(width).push(10) + lines(text.skip(width), width)
    }
}

/// The armour around a binary encoding under a label.
pub open spec fn armored(label: Seq<u8>, der: Seq<u8>) -> Seq<u8> {
    header_of(label).push(10) + lines(base64_of(der), 64) + footer_of(label).push(10)
}

/// The first line of a text, without its line end.
pub open spec fn first_line(text: Seq<u8>) -> Seq<u8> {
    let line = text.take(first_index(text, 10, 0));
    if line.len() > 0 && line.last() == 13 {
        line.drop_last()
    } else {
        line
    }
}

/// The label and the binary encoding inside an armour: the first line is a
/// header, what follows ends, blanks and line ends aside, with the footer
/// for the header's label, and what stands between is base64. Blanks and
/// line ends count nowhere after the header.
pub open spec fn unarmored(text: Seq<u8>) -> Option<(Seq<u8>, Seq<u8>)> {
    let header = first_line(text);
    if first_index(text, 10, 0) >= text.len() || header.len() < begin_marker().len()
        + dashes().len() || !starts_with(header, begin_marker()) || !ends_with(header, dashes()) {
        None
    } else {
        let label = header.subrange(begin_marker().len() as int, header.len() - dashes().len());
        let rest = compact(text.skip(first_index(text, 10, 0) + 1));
        let footer = compact(footer_of(label));
        if !ends_with(rest, footer) {
            None
        } else {
            match base64_decoded(rest.take(rest.len() - footer.len())) {
                Some(der) => Some((label, der)),
                None => None,
            }
        }
    }
}

fn push_lines(out: &mut Vec<u8>, text: &[u8])
    ensures
        final(out)@ == old(out)@ + lines(text@, 64),
{
    let mut i: usize = 0;
    assert(text@.skip(0) =~= text@);
    while i < text.len()
        invariant
            i <= text.len(),
            old(out)@ + lines(text@, 64) == out@ + lines(text@.skip(i as int), 64),
        decreases text.len() - i,
    {
        let ghost rest = text@.skip(i as int);
        let ghost before = out@;
        if text.len() - i <= 64 {
            let chunk = slice_of(text, i, text.len());
            append_bytes(out, chunk.as_slice());
            out.push(10);
            assert(chunk@ =~= rest);
            assert(lines(rest, 64) == rest.push(10));
            assert(out@ =~= before + lines(rest, 64));
            i = text.len();
            assert(text@.skip(i as int) =~= Seq::<u8>::empty());
            assert(out@ + lines(text@.skip(i as int), 64) =~= out@);
        } else {
            let chunk = slice_of(text, i, i + 64);
            append_bytes(out, chunk.as_slice());
            out.push(10);
            assert(chunk@ =~= rest.take(64));
            assert(rest.skip(64) =~= text@.skip(i as int + 64));
            assert(lines(rest, 64) == rest.take(64).push(10) + lines(rest.skip(64), 64));
            assert(out@ + lines(text@.skip(i as int + 64), 64) =~= before + lines(rest, 64));
            i = i + 64;
        }
    }
    assert(text@.skip(i as int) =~= Seq::<u8>::empty());
    assert(out@ + lines(text@.skip(i as int), 64) =~= out@);
}

/// Writes the armour around a binary encoding under a label.
pub fn armor(label: &[u8], der: &[u8]) -> (r: Vec<u8>)
    requires
        der@.len() <= MAX_INPUT,
    ensures
        r@ == armored(label@, der@),
        !label@.contains(10u8) ==> unarmored(r@) == Some((label@, der@)),
{
    let mut out: Vec<u8> = Vec::new();
    append_bytes(&mut out, "-----BEGIN ".as_bytes());
    append_bytes(&mut out, label);
    append_bytes(&mut out, "-----".as_bytes());
    out.push(10);
    assert(out@ =~= header_of(label@).push(10));
    let text = base64_encode(der);
    proof {
        if !label@.contains(10u8) {
            lemma_armour_reads_back(label@, der@);
        }
    }
    push_lines(&mut out, text.as_slice());
    let ghost body = out@;
    append_bytes(&mut out, "-----END ".as_bytes());
    append_bytes(&mut out, label);
    append_bytes(&mut out, "-----".as_bytes());
    out.push(10);
    assert(out@ =~= body + footer_of(label@).push(10));
    out
}

/// Reads the label and the binary encoding out of an armour.
pub fn unarmor(text: &[u8]) -> (r: Option<(Vec<u8>, Vec<u8>)>)
    ensures
        match r {
            Some((label, der)) => unarmored(text@) == Some((label@, der@)),
            None => unarmored(text@) is None,
        },
{
    let nl = find_byte(text, 10);
    if nl >= text.len() {
        return None;
    }
    let line = slice_of(text, 0, nl);
    assert(line@ =~= text@.take(nl as int));
    let header = if line.len() > 0 && line[line.len() - 1] == 13 {
        let h = slice_of(line.as_slice(), 0, line.len() - 1);
        assert(h@ =~= line@.drop_last());
        h
    } else {
        line
    };
    assert(header@ == first_line(text@));
    let begin = "-----BEGIN ".as_bytes();
    let dash = "-----".as_bytes();
    if begin.len() > header.len() || dash.len() > header.len() - begin.len() {
        return None;
    }
    if !has_prefix(header.as_slice(), begin) || !has_suffix(header.as_slice(), dash) {
        return None;
    }
    let label = slice_of(header.as_slice(), begin.len(), header.len() - dash.len());
    let after = slice_of(text, nl + 1, text.len());
    assert(after@ =~= text@.skip(nl as int + 1));
    let rest = without_spaces(after.as_slice());
    let mut footer: Vec<u8> = Vec::new();
    append_bytes(&mut footer, "-----END ".as_bytes());
    append_bytes(&mut footer, label.as_slice());
    append_bytes(&mut footer, dash);
    assert(footer@ =~= footer_of(label@));
    let footer = without_spaces(footer.as_slice());
    if !has_suffix(rest.as_slice(), footer.as_slice()) {
        return None;
    }
    let body = slice_of(rest.as_slice(), 0, rest.len() - footer.len());
    assert(body@ =~= rest@.take(rest@.len() - footer@.len()));
    match base64_decode(body.as_slice()) {
        Ok(der) => Some((label, der)),
        Err(_) => None,
    }
}

/// What the markers are made of.
proof fn lemma_markers()
    ensures
        begin_marker().len() == 11,
        end_marker().len() == 9,
        dashes().len() == 5,
        forall|i: int| 0 <= i < 11 ==> #[trigger] begin_marker()[i] != 10,
        forall|i: int| 0 <= i < 5 ==> #[trigger] dashes()[i] == 45,
{
    reveal_strlit("-----BEGIN ");
    reveal_strlit("-----END ");
    reveal_strlit("-----");
    is_ascii_spec_bytes("-----BEGIN ");
    is_ascii_spec_bytes("-----END ");
    is_ascii_spec_bytes("-----");
    assert(vstd::string::is_ascii("-----BEGIN "));
    assert(vstd::string::is_ascii("-----END "));
    assert(vstd::string::is_ascii("-----"));
}

/// Cutting a text without blanks into lines and leaving the line ends out
/// again gives the text.
proof fn lemma_lines_compact(text: Seq<u8>, width: int)
    requires
        width > 0,
        forall|i: int| 0 <= i < text.len() ==> !is_space(#[trigger] text[i]),
    ensures
        compact(lines(text, width)) == text,
    decreases text.len(),
{
    let keep = |b: u8| !is_space(b);
    if text.len() == 0 {
        lemma_compact_of_dense(text);
        assert(lines(text, width) =~= text);
    } else if text.len() <= width {
        lemma_filter_push(text, 10u8, keep);
        lemma_compact_of_dense(text);
    } else {
        let head = text.take(width);
        let tail = text.skip(width);
        lemma_lines_compact(tail, width);
        lemma_compact_concat(head.push(10), lines(tail, width));
        lemma_filter_push(head, 10u8, keep);
        lemma_compact_of_dense(head);
        assert(head + tail =~= text);
    }
}

/// The armour around a binary encoding under a label without a line end
/// reads back to the label and the encoding, as far as the base64 text of
/// the encoding is made of the base64 alphabet and decodes to it.
pub proof fn lemma_armour_reads_back(label: Seq<u8>, der: Seq<u8>)
    requires
        !label.contains(10u8),
        forall|i: int| 0 <= i < base64_of(der).len() ==> is_base64_byte(#[trigger] base64_of(der)[i]),
        base64_decoded(base64_of(der)) == Some(der),
    ensures
        unarmored(armored(label, der)) == Some((label, der)),
{
    lemma_markers();
    let text = base64_of(der);
    let header = header_of(label);
    let footer = footer_of(label);
    let body = lines(text, 64);
    let tail = seq![10u8] + body + footer.push(10);
    let all = armored(label, der);
    assert(all =~= header + tail);
    assert forall|i: int| 0 <= i < header.len() implies #[trigger] header[i] != 10 by {
        if i < 11 {
            assert(header[i] == begin_marker()[i]);
        } else if i < 11 + label.len() {
            assert(header[i] == label[i - 11]);
            assert(label.contains(label[i - 11]));
        } else {
            assert(header[i] == dashes()[i - 11 - label.len()]);
        }
    }
    lemma_first_index_skips(header, tail, 10, 0);
    assert(first_index(all, 10, 0) == header.len());
    assert(all.take(header.len() as int) =~= header);
    assert(header.last() == dashes()[4]);
    assert(first_line(all) == header);
    assert(header.take(11) =~= begin_marker());
    assert(header.skip(header.len() - 5) =~= dashes());
    assert(header.subrange(11, header.len() - 5) =~= label);
    assert(all.skip(header.len() as int + 1) =~= body + footer.push(10));
    let keep = |b: u8| !is_space(b);
    lemma_compact_concat(body, footer.push(10));
    lemma_lines_compact(text, 64);
    lemma_filter_push(footer, 10u8, keep);
    let rest = compact(all.skip(header.len() as int + 1));
    let short = compact(footer);
    assert(rest == text + short);
    assert(rest.skip(rest.len() - short.len()) =~= short);
    assert(rest.take(rest.len() - short.len()) =~= text);
}

} // verus!
