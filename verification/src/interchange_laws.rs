//! That an interchange document reads back to the object it was written
//! for.

use vstd::prelude::*;
use vstd::string::{
    StringSliceAdditionalSpecFns,
    is_ascii,
    is_ascii_spec_bytes,
};
use vstd::utf8::{
    encode_utf8,
    is_ascii_chars,
    is_ascii_chars_encode_utf8,
};
use vstd::utf8::{
    encode_utf8_decode_utf8,
    encode_utf8_valid_utf8,
};
use crate::bytes::{
    first_index,
    hex_of,
    lemma_hex_round_trip,
    nibble,
};
use crate::decimal::{
    digit,
    digits,
};
use crate::interchange::{
    MEMBERS,
    algorithm_from,
    algorithm_name,
    algorithm_named,
    closing,
    decimal_value,
    line_at,
    line_start,
    member,
    member_lines,
    object_from,
    opening,
    read,
    value_at,
    values_of,
    values_read,
    wrapping_from,
    written,
    format_name,
    format_named,
    kind_name,
    kind_named,
    length_named,
    wrapping_name,
    wrapping_named,
};
use crate::object::{
    CryptographicAlgorithm,
    KeyBlockView,
    KeyFormatType,
    KeyWrappingDataView,
    ObjectKind,
    ObjectView,
    WrappingAlgorithm,
};

verus! {

/// A text without a line end.
pub open spec fn plain(s: Seq<u8>) -> bool {
    forall|i: int| 0 <= i < s.len() ==> #[trigger] s[i] != 10
}

/// The bytes of a text of ASCII characters are the characters.
proof fn lemma_ascii_bytes(s: &str)
    requires
        is_ascii(s),
    ensures
        s.spec_bytes().len() == s@.len(),
        forall|i: int| 0 <= i < s@.len() ==> #[trigger] s.spec_bytes()[i] == s@[i] as u8,
{
    is_ascii_spec_bytes(s);
}

/// The names of the kinds are plain, and each names its kind alone.
proof fn lemma_kind_names(kind: ObjectKind)
    ensures
        plain(kind_name(kind)),
        kind_named(kind_name(kind)) == Some(kind),
{
    reveal_strlit("SymmetricKey");
    reveal_strlit("PrivateKey");
    reveal_strlit("PublicKey");
    reveal_strlit("Certificate");
    lemma_ascii_bytes("SymmetricKey");
    lemma_ascii_bytes("PrivateKey");
    lemma_ascii_bytes("PublicKey");
    lemma_ascii_bytes("Certificate");
}

/// The names of the wrapping algorithms are plain and not empty, and each
/// names its algorithm alone.
proof fn lemma_wrapping_names(algorithm: WrappingAlgorithm)
    ensures
        plain(wrapping_name(algorithm)),
        wrapping_named(wrapping_name(algorithm)) == Some(algorithm),
{
    reveal_strlit("Aes256Gcm");
    reveal_strlit("RsaOaep");
    reveal_strlit("Ecies");
    lemma_ascii_bytes("Aes256Gcm");
    lemma_ascii_bytes("RsaOaep");
    lemma_ascii_bytes("Ecies");
}

/// The names of the formats are plain, and each names its format alone.
proof fn lemma_format_names(format: KeyFormatType)
    ensures
        plain(format_name(format)),
        format_named(format_name(format)) == Some(format),
{
    reveal_strlit("Raw");
    reveal_strlit("PEM");
    reveal_strlit("SEC1");
    reveal_strlit("PKCS1");
    reveal_strlit("PKCS8");
    reveal_strlit("SPKI");
    reveal_strlit("PKCS12");
    reveal_strlit("X509");
    reveal_strlit("JsonInterchange");
    lemma_ascii_bytes("Raw");
    lemma_ascii_bytes("PEM");
    lemma_ascii_bytes("SEC1");
    lemma_ascii_bytes("PKCS1");
    lemma_ascii_bytes("PKCS8");
    lemma_ascii_bytes("SPKI");
    lemma_ascii_bytes("PKCS12");
    lemma_ascii_bytes("X509");
    lemma_ascii_bytes("JsonInterchange");
    let raw = "Raw".spec_bytes();
    let pem = "PEM".spec_bytes();
    let sec1 = "SEC1".spec_bytes();
    let pkcs1 = "PKCS1".spec_bytes();
    let pkcs8 = "PKCS8".spec_bytes();
    let spki = "SPKI".spec_bytes();
    let x509 = "X509".spec_bytes();
    assert(raw[0] != pem[0]);
    assert(sec1[1] != spki[1]);
    assert(sec1[0] != x509[0]);
    assert(spki[0] != x509[0]);
    assert(pkcs1[4] != pkcs8[4]);
}

/// The names of the algorithms are plain and not empty, and each names
/// its algorithm alone.
proof fn lemma_algorithm_names(algorithm: CryptographicAlgorithm)
    ensures
        plain(algorithm_name(algorithm)),
        algorithm_name(algorithm).len() > 0,
        algorithm_named(algorithm_name(algorithm)) == Some(algorithm),
{
    reveal_strlit("AES");
    reveal_strlit("ChaCha20");
    reveal_strlit("SHA3224");
    reveal_strlit("SHA3256");
    reveal_strlit("SHA3384");
    reveal_strlit("SHA3512");
    reveal_strlit("SHAKE128");
    reveal_strlit("SHAKE256");
    reveal_strlit("RSA");
    reveal_strlit("EC");
    reveal_strlit("Ed25519");
    reveal_strlit("X25519");
    reveal_strlit("MlKem");
    lemma_ascii_bytes("AES");
    lemma_ascii_bytes("ChaCha20");
    lemma_ascii_bytes("SHA3224");
    lemma_ascii_bytes("SHA3256");
    lemma_ascii_bytes("SHA3384");
    lemma_ascii_bytes("SHA3512");
    lemma_ascii_bytes("SHAKE128");
    lemma_ascii_bytes("SHAKE256");
    lemma_ascii_bytes("RSA");
    lemma_ascii_bytes("EC");
    lemma_ascii_bytes("Ed25519");
    lemma_ascii_bytes("X25519");
    lemma_ascii_bytes("MlKem");
    let aes = "AES".spec_bytes();
    let rsa = "RSA".spec_bytes();
    let chacha = "ChaCha20".spec_bytes();
    let shake128 = "SHAKE128".spec_bytes();
    let shake256 = "SHAKE256".spec_bytes();
    let sha224 = "SHA3224".spec_bytes();
    let sha256 = "SHA3256".spec_bytes();
    let sha384 = "SHA3384".spec_bytes();
    let sha512 = "SHA3512".spec_bytes();
    let ed = "Ed25519".spec_bytes();
    assert(aes[0] != rsa[0]);
    assert(chacha[0] != shake128[0]);
    assert(chacha[0] != shake256[0]);
    assert(shake128[5] != shake256[5]);
    assert(sha224[5] != sha256[5]);
    assert(sha224[4] != sha384[4]);
    assert(sha224[4] != sha512[4]);
    assert(sha256[4] != sha384[4]);
    assert(sha256[4] != sha512[4]);
    assert(sha384[4] != sha512[4]);
    assert(sha224[0] != ed[0]);
    assert(sha256[0] != ed[0]);
    assert(sha384[0] != ed[0]);
    assert(sha512[0] != ed[0]);
}

/// The digits of a number are characters between zero and nine.
proof fn lemma_digits_are_digits(n: nat)
    ensures
        digits(n).len() > 0,
        forall|i: int| 0 <= i < digits(n).len() ==> '0' <= #[trigger] digits(n)[i] <= '9',
        is_ascii_chars(digits(n)),
    decreases n,
{
    if n >= 10 {
        lemma_digits_are_digits(n / 10);
    }
}

/// The numeral of a length is plain and not empty, and denotes the
/// length.
proof fn lemma_length_names(length: usize)
    ensures
        plain(encode_utf8(digits(length as nat))),
        length_named(encode_utf8(digits(length as nat))) == Some(Some(length)),
{
    lemma_numeral(length as nat);
}

/// The bytes of a numeral denote its number.
proof fn lemma_numeral(n: nat)
    ensures
        plain(encode_utf8(digits(n))),
        encode_utf8(digits(n)).len() > 0,
        decimal_value(encode_utf8(digits(n))) == Some(n),
    decreases n,
{
    lemma_digits_are_digits(n);
    is_ascii_chars_encode_utf8(digits(n));
    let text = encode_utf8(digits(n));
    assert forall|i: int| 0 <= i < text.len() implies #[trigger] text[i] != 10 by {
        assert(text[i] == digits(n)[i] as u8);
    }
    assert(text.last() == digits(n).last() as u8);
    assert(digits(n).last() == digit(n % 10));
    assert(text.last() == 48 + n % 10);
    if n >= 10 {
        lemma_numeral(n / 10);
        lemma_digits_are_digits(n / 10);
        is_ascii_chars_encode_utf8(digits(n / 10));
        let shorter = encode_utf8(digits(n / 10));
        assert(digits(n).drop_last() =~= digits(n / 10));
        assert(text.drop_last() =~= shorter) by {
            assert forall|i: int| 0 <= i < shorter.len() implies text.drop_last()[i]
                == shorter[i] by {
                assert(text[i] == digits(n)[i] as u8);
                assert(shorter[i] == digits(n / 10)[i] as u8);
                assert(digits(n)[i] == digits(n / 10)[i]);
            }
        }
    }
}

/// Hexadecimal text is plain.
proof fn lemma_hex_is_plain(bytes: Seq<u8>)
    ensures
        plain(hex_of(bytes)),
{
    lemma_hex_round_trip(bytes);
    assert forall|i: int| 0 <= i < hex_of(bytes).len() implies #[trigger] hex_of(bytes)[i]
        != 10 by {
        assert(nibble(hex_of(bytes)[i]) is Some);
    }
}

/// What stands around the value of a member is plain.
proof fn lemma_members_plain(i: int)
    requires
        0 <= i < MEMBERS,
    ensures
        plain(opening(i)),
        plain(closing(i)),
{
    reveal_strlit("kind");
    reveal_strlit("format");
    reveal_strlit("algorithm");
    reveal_strlit("length");
    reveal_strlit("material");
    reveal_strlit("subject");
    reveal_strlit("issuer");
    reveal_strlit("wrapped");
    reveal_strlit("wrapping_key");
    reveal_strlit("wrapping_algorithm");
    reveal_strlit("nonce");
    reveal_strlit("tag");
    reveal_strlit("encapsulation");
    reveal_strlit("original_format");
    reveal_strlit("\"");
    reveal_strlit("\":\"");
    reveal_strlit("\",");
    lemma_ascii_bytes("kind");
    lemma_ascii_bytes("format");
    lemma_ascii_bytes("algorithm");
    lemma_ascii_bytes("length");
    lemma_ascii_bytes("material");
    lemma_ascii_bytes("subject");
    lemma_ascii_bytes("issuer");
    lemma_ascii_bytes("wrapped");
    lemma_ascii_bytes("wrapping_key");
    lemma_ascii_bytes("wrapping_algorithm");
    lemma_ascii_bytes("nonce");
    lemma_ascii_bytes("tag");
    lemma_ascii_bytes("encapsulation");
    lemma_ascii_bytes("original_format");
    lemma_ascii_bytes("\"");
    lemma_ascii_bytes("\":\"");
    lemma_ascii_bytes("\",");
    assert(plain(member(i)));
    lemma_plain_concat("\"".spec_bytes(), member(i));
    lemma_plain_concat("\"".spec_bytes() + member(i), "\":\"".spec_bytes());
}

/// Two plain texts in a row are plain.
proof fn lemma_plain_concat(a: Seq<u8>, b: Seq<u8>)
    requires
        plain(a),
        plain(b),
    ensures
        plain(a + b),
{
    assert forall|i: int| 0 <= i < (a + b).len() implies #[trigger] (a + b)[i] != 10 by {
        if i < a.len() {
            assert((a + b)[i] == a[i]);
        } else {
            assert((a + b)[i] == b[i - a.len()]);
        }
    }
}

/// The values of the members of an object are fourteen, and plain.
proof fn lemma_values_plain(o: ObjectView)
    ensures
        values_of(o).len() == MEMBERS,
        forall|i: int| 0 <= i < MEMBERS ==> plain(#[trigger] values_of(o)[i]),
{
    reveal_strlit("true");
    reveal_strlit("false");
    lemma_ascii_bytes("true");
    lemma_ascii_bytes("false");
    lemma_kind_names(o.kind());
    lemma_format_names(o.format());
    lemma_hex_is_plain(o.bytes());
    match o {
        ObjectView::Certificate { subject, issuer, .. } => {
            lemma_hex_is_plain(subject);
            lemma_hex_is_plain(issuer);
        },
        _ => {},
    }
    match o.key_block() {
        Some(b) => {
            match b.cryptographic_algorithm {
                Some(a) => {
                    lemma_algorithm_names(a);
                },
                None => {},
            }
            match b.cryptographic_length {
                Some(l) => {
                    lemma_length_names(l);
                },
                None => {},
            }
            match b.key_wrapping_data {
                Some(w) => {
                    lemma_hex_is_plain(encode_utf8(w.wrapping_key_id));
                    lemma_wrapping_names(w.algorithm);
                    lemma_hex_is_plain(w.nonce);
                    lemma_hex_is_plain(w.tag);
                    lemma_hex_is_plain(w.encapsulation);
                    lemma_format_names(w.original_format);
                },
                None => {},
            }
        },
        None => {},
    }
    let v = values_of(o);
    assert forall|i: int| 0 <= i < MEMBERS implies plain(#[trigger] v[i]) by {
        if i == 0 {
        } else if i == 1 {
        } else if i == 2 {
        } else if i == 3 {
        } else if i == 4 {
        } else if i == 5 {
        } else if i == 6 {
        } else if i == 7 {
        } else if i == 8 {
        } else if i == 9 {
        } else if i == 10 {
        } else if i == 11 {
        } else if i == 12 {
        } else {
        }
    }
}

/// A byte is first found where it stands, if it does not stand before.
proof fn lemma_first_index_at(doc: Seq<u8>, b: u8, from: int, to: int)
    requires
        0 <= from <= to < doc.len(),
        forall|i: int| from <= i < to ==> #[trigger] doc[i] != b,
        doc[to] == b,
    ensures
        first_index(doc, b, from) == to,
    decreases to - from,
{
    if from < to {
        lemma_first_index_at(doc, b, from + 1, to);
    }
}

/// The line of a member: its value with what stands around it.
pub open spec fn member_line(values: Seq<Seq<u8>>, i: int) -> Seq<u8> {
    opening(i) + values[i] + closing(i)
}

/// The lines of more members start with the lines of fewer, and the line
/// of each member stands, with its line end, where the lines before it
/// end.
proof fn lemma_lines_hold(values: Seq<Seq<u8>>, k: int, n: int)
    requires
        0 <= k < n,
    ensures
        member_lines(values, n).len() >= member_lines(values, k).len() + member_line(
            values,
            k,
        ).len() + 1,
        member_lines(values, n).subrange(
            member_lines(values, k).len() as int,
            member_lines(values, k).len() as int + member_line(values, k).len() as int + 1,
        ) == member_line(values, k).push(10),
    decreases n - k,
{
    let before = member_lines(values, k);
    let line = member_line(values, k);
    if n == k + 1 {
        assert(member_lines(values, n) =~= before + line.push(10));
        assert(member_lines(values, n).subrange(
            before.len() as int,
            before.len() as int + line.len() as int + 1,
        ) =~= line.push(10));
    } else {
        lemma_lines_hold(values, k, n - 1);
        let shorter = member_lines(values, n - 1);
        assert(member_lines(values, n) =~= shorter + member_line(values, n - 1).push(10));
        assert(member_lines(values, n).subrange(
            before.len() as int,
            before.len() as int + line.len() as int + 1,
        ) =~= shorter.subrange(before.len() as int, before.len() as int + line.len() as int + 1));
    }
}

/// The lines of the members, as they stand in a document after its first
/// line.
pub open spec fn holds_lines(doc: Seq<u8>, values: Seq<Seq<u8>>) -> bool {
    doc == "{\n".spec_bytes() + member_lines(values, MEMBERS as int) + "}\n".spec_bytes()
}

/// What the braces are made of.
proof fn lemma_braces()
    ensures
        "{\n".spec_bytes() =~= seq![123u8, 10u8],
        "}\n".spec_bytes() =~= seq![125u8, 10u8],
        "{".spec_bytes() =~= seq![123u8],
        "}".spec_bytes() =~= seq![125u8],
{
    reveal_strlit("{\n");
    reveal_strlit("}\n");
    reveal_strlit("{");
    reveal_strlit("}");
    lemma_ascii_bytes("{\n");
    lemma_ascii_bytes("}\n");
    lemma_ascii_bytes("{");
    lemma_ascii_bytes("}");
}

/// A plain line that stands in a document before a line end is found
/// there, up to that line end.
proof fn lemma_line_in(doc: Seq<u8>, here: int, line: Seq<u8>)
    requires
        0 <= here,
        here + line.len() < doc.len(),
        doc.subrange(here, here + line.len() + 1) == line.push(10),
        plain(line),
    ensures
        first_index(doc, 10, here) == here + line.len(),
        doc.subrange(here, here + line.len()) == line,
{
    let n = line.len() as int;
    let cut = doc.subrange(here, here + n + 1);
    assert forall|i: int| here <= i < here + n implies #[trigger] doc[i] != 10 by {
        assert(doc[i] == cut[i - here]);
        assert(line.push(10)[i - here] == line[i - here]);
    }
    assert(doc[here + n] == cut[n]);
    lemma_first_index_at(doc, 10, here, here + n);
    assert(doc.subrange(here, here + n) =~= line) by {
        assert forall|i: int| 0 <= i < n implies doc.subrange(here, here + n)[i] == line[i] by {
            assert(doc[here + i] == cut[i]);
            assert(line.push(10)[i] == line[i]);
        }
    }
}

/// What stands in the middle of a document stands there two bytes after
/// its place in the middle.
proof fn lemma_middle(doc: Seq<u8>, head: Seq<u8>, middle: Seq<u8>, tail: Seq<u8>, from: int, to: int)
    requires
        doc == head + middle + tail,
        0 <= from <= to <= middle.len(),
    ensures
        doc.subrange(head.len() + from, head.len() + to) == middle.subrange(from, to),
{
    assert(doc.subrange(head.len() + from, head.len() + to) =~= middle.subrange(from, to));
}

/// In a document made of plain lines, the line of each member starts
/// where the lines before it end.
proof fn lemma_line_starts(doc: Seq<u8>, values: Seq<Seq<u8>>, k: int)
    requires
        holds_lines(doc, values),
        0 <= k <= MEMBERS,
        forall|i: int| 0 <= i < MEMBERS ==> plain(#[trigger] member_line(values, i)),
    ensures
        line_start(doc, k + 1) == 2 + member_lines(values, k).len(),
        line_at(doc, 0) == "{".spec_bytes(),
    decreases k,
{
    lemma_braces();
    let head = "{\n".spec_bytes();
    let all = member_lines(values, MEMBERS as int);
    let tail = "}\n".spec_bytes();
    assert(doc.len() == 2 + all.len() + 2);
    assert(doc[0] == 123 && doc[1] == 10);
    lemma_first_index_at(doc, 10, 0, 1);
    assert(line_start(doc, 0) == 0);
    assert(line_at(doc, 0) =~= "{".spec_bytes());
    if k == 0 {
        assert(line_start(doc, 1) == 2);
        assert(member_lines(values, 0).len() == 0);
    } else {
        lemma_line_starts(doc, values, k - 1);
        let start: int = 2 + member_lines(values, k - 1).len() as int;
        let line = member_line(values, k - 1);
        lemma_lines_hold(values, k - 1, MEMBERS as int);
        lemma_middle(doc, head, all, tail, start - 2, start - 2 + line.len() + 1);
        lemma_line_in(doc, start, line);
        assert(member_lines(values, k) =~= member_lines(values, k - 1) + line.push(10));
    }
}

/// In a document made of plain lines, each member is found on its line,
/// and the closing brace on the line after the last.
proof fn lemma_lines_found(doc: Seq<u8>, values: Seq<Seq<u8>>, k: int)
    requires
        holds_lines(doc, values),
        0 <= k <= MEMBERS,
        forall|i: int| 0 <= i < MEMBERS ==> plain(#[trigger] member_line(values, i)),
    ensures
        k < MEMBERS ==> line_at(doc, k + 1) == member_line(values, k),
        k == MEMBERS ==> line_at(doc, k + 1) == "}".spec_bytes(),
        line_at(doc, 0) == "{".spec_bytes(),
{
    lemma_braces();
    lemma_line_starts(doc, values, k);
    let head = "{\n".spec_bytes();
    let all = member_lines(values, MEMBERS as int);
    let tail = "}\n".spec_bytes();
    let here: int = 2 + member_lines(values, k).len() as int;
    assert(doc.len() == 2 + all.len() + 2);
    if k < MEMBERS {
        let line = member_line(values, k);
        lemma_lines_hold(values, k, MEMBERS as int);
        lemma_middle(doc, head, all, tail, here - 2, here - 2 + line.len() + 1);
        lemma_line_in(doc, here, line);
    } else {
        assert(here == 2 + all.len());
        assert(doc[here] == 125 && doc[here + 1] == 10);
        lemma_first_index_at(doc, 10, here, here + 1);
        assert(line_at(doc, k + 1) =~= "}".spec_bytes());
    }
}

/// In a document made of plain lines, the value of each member is found.
proof fn lemma_value_found(doc: Seq<u8>, values: Seq<Seq<u8>>, i: int)
    requires
        holds_lines(doc, values),
        0 <= i < MEMBERS,
        forall|j: int| 0 <= j < MEMBERS ==> plain(#[trigger] member_line(values, j)),
    ensures
        value_at(doc, i) == Some(values[i]),
{
    lemma_lines_found(doc, values, i);
    let line = member_line(values, i);
    let open = opening(i);
    let close = closing(i);
    assert(line.take(open.len() as int) =~= open);
    assert(line.skip(line.len() - close.len()) =~= close);
    assert(line.subrange(open.len() as int, line.len() - close.len()) =~= values[i]);
}

/// In a document made of plain lines, the values of the first members are
/// found, as many as are asked for.
proof fn lemma_values_found(doc: Seq<u8>, values: Seq<Seq<u8>>, n: int)
    requires
        holds_lines(doc, values),
        values.len() == MEMBERS,
        0 <= n <= MEMBERS,
        forall|j: int| 0 <= j < MEMBERS ==> plain(#[trigger] member_line(values, j)),
    ensures
        values_read(doc, n) == Some(values.take(n)),
    decreases n,
{
    if n > 0 {
        lemma_values_found(doc, values, n - 1);
        lemma_value_found(doc, values, n - 1);
        assert(values.take(n - 1).push(values[n - 1]) =~= values.take(n));
    } else {
        assert(values.take(0) =~= Seq::<Seq<u8>>::empty());
    }
}

/// The wrapping members of a document give the wrapping metadata they
/// were written for.
proof fn lemma_wrapping_found(v: Seq<Seq<u8>>, wrapping: Option<KeyWrappingDataView>)
    requires
        v.len() == MEMBERS,
        wrapping is None ==> v[7] == "false".spec_bytes(),
        wrapping is Some ==> {
            &&& v[7] == "true".spec_bytes()
            &&& v[8] == hex_of(encode_utf8(wrapping->0.wrapping_key_id))
            &&& v[9] == wrapping_name(wrapping->0.algorithm)
            &&& v[10] == hex_of(wrapping->0.nonce)
            &&& v[11] == hex_of(wrapping->0.tag)
            &&& v[12] == hex_of(wrapping->0.encapsulation)
            &&& v[13] == format_name(wrapping->0.original_format)
        },
    ensures
        wrapping_from(v) == Some(wrapping),
{
    reveal_strlit("true");
    reveal_strlit("false");
    lemma_ascii_bytes("true");
    lemma_ascii_bytes("false");
    assert("true".spec_bytes().len() != "false".spec_bytes().len());
    match wrapping {
        Some(w) => {
            lemma_hex_round_trip(encode_utf8(w.wrapping_key_id));
            encode_utf8_valid_utf8(w.wrapping_key_id);
            encode_utf8_decode_utf8(w.wrapping_key_id);
            lemma_wrapping_names(w.algorithm);
            lemma_hex_round_trip(w.nonce);
            lemma_hex_round_trip(w.tag);
            lemma_hex_round_trip(w.encapsulation);
            lemma_format_names(w.original_format);
        },
        None => {},
    }
}

/// The members of a key block give the key block they were written for.
proof fn lemma_key_found(v: Seq<Seq<u8>>, kind: ObjectKind, b: KeyBlockView)
    requires
        v.len() == MEMBERS,
        kind != ObjectKind::Certificate,
        v[0] == kind_name(kind),
        v[1] == format_name(b.key_format_type),
        v[2] == match b.cryptographic_algorithm {
            Some(a) => algorithm_name(a),
            None => Seq::empty(),
        },
        v[3] == match b.cryptographic_length {
            Some(l) => encode_utf8(digits(l as nat)),
            None => Seq::empty(),
        },
        v[4] == hex_of(b.key_material),
        wrapping_from(v) == Some(b.key_wrapping_data),
    ensures
        object_from(v) == Some(
            match kind {
                ObjectKind::SymmetricKey => ObjectView::SymmetricKey { key_block: b },
                ObjectKind::PrivateKey => ObjectView::PrivateKey { key_block: b },
                _ => ObjectView::PublicKey { key_block: b },
            },
        ),
{
    lemma_kind_names(kind);
    lemma_format_names(b.key_format_type);
    lemma_hex_round_trip(b.key_material);
    match b.cryptographic_algorithm {
        Some(a) => {
            lemma_algorithm_names(a);
        },
        None => {},
    }
    assert(algorithm_from(v[2]) == Some(b.cryptographic_algorithm));
    match b.cryptographic_length {
        Some(l) => {
            lemma_length_names(l);
            lemma_numeral_is_not_empty(l as nat);
        },
        None => {},
    }
    assert(length_named(v[3]) == Some(b.cryptographic_length));
}

/// The members of a certificate give the certificate they were written
/// for.
proof fn lemma_certificate_found(
    v: Seq<Seq<u8>>,
    certificate_value: Seq<u8>,
    subject: Seq<u8>,
    issuer: Seq<u8>,
)
    requires
        v.len() == MEMBERS,
        v[0] == kind_name(ObjectKind::Certificate),
        v[4] == hex_of(certificate_value),
        v[5] == hex_of(subject),
        v[6] == hex_of(issuer),
    ensures
        object_from(v) == Some(ObjectView::Certificate { certificate_value, subject, issuer }),
{
    lemma_kind_names(ObjectKind::Certificate);
    lemma_hex_round_trip(certificate_value);
    lemma_hex_round_trip(subject);
    lemma_hex_round_trip(issuer);
}

/// The values of the members of an object give the object.
proof fn lemma_object_found(o: ObjectView)
    ensures
        object_from(values_of(o)) == Some(o),
{
    let v = values_of(o);
    match o {
        ObjectView::Certificate { certificate_value, subject, issuer } => {
            lemma_certificate_found(v, certificate_value, subject, issuer);
        },
        ObjectView::SymmetricKey { key_block } => {
            lemma_wrapping_found(v, key_block.key_wrapping_data);
            lemma_key_found(v, ObjectKind::SymmetricKey, key_block);
        },
        ObjectView::PrivateKey { key_block } => {
            lemma_wrapping_found(v, key_block.key_wrapping_data);
            lemma_key_found(v, ObjectKind::PrivateKey, key_block);
        },
        ObjectView::PublicKey { key_block } => {
            lemma_wrapping_found(v, key_block.key_wrapping_data);
            lemma_key_found(v, ObjectKind::PublicKey, key_block);
        },
    }
}

/// The numeral of a number is not empty.
proof fn lemma_numeral_is_not_empty(n: nat)
    ensures
        encode_utf8(digits(n)).len() > 0,
{
    lemma_numeral(n);
}

/// The document of an object reads back to the object.
pub proof fn lemma_reads_back(o: ObjectView)
    ensures
        read(written(o)) == Some(o),
{
    let doc = written(o);
    let values = values_of(o);
    lemma_values_plain(o);
    assert forall|j: int| 0 <= j < MEMBERS implies plain(#[trigger] member_line(values, j)) by {
        lemma_members_plain(j);
        lemma_plain_concat(opening(j), values[j]);
        lemma_plain_concat(opening(j) + values[j], closing(j));
    }
    lemma_lines_found(doc, values, MEMBERS as int);
    lemma_values_found(doc, values, MEMBERS as int);
    assert(values.take(MEMBERS as int) =~= values);
    lemma_object_found(o);
}

} // verus!
