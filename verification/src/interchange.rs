//! The self-describing form in which a whole object travels, wrapping
//! metadata included: a JSON document of fourteen members in a fixed
//! order, one per line, every value a string, bytes in hexadecimal.

use vstd::prelude::*;
use vstd::string::StringSliceAdditionalSpecFns;
use vstd::utf8::{decode_utf8, encode_utf8, valid_utf8};
use crate::bytes::{
    append_bytes,
    ends_with,
    eq_bytes,
    find_byte_from,
    first_index,
    from_hex,
    has_prefix,
    has_suffix,
    hex_of,
    slice_of,
    starts_with,
    string_from_utf8,
    to_hex,
    unhexed,
};
use crate::decimal::{digits, to_decimal};
use crate::object::{
    CryptographicAlgorithm,
    KeyBlock,
    KeyBlockView,
    KeyFormatType,
    KeyWrappingData,
    KeyWrappingDataView,
    Object,
    ObjectKind,
    ObjectView,
    WrappingAlgorithm,
};

verus! {

pub open spec fn kind_name(kind: ObjectKind) -> Seq<u8> {
    match kind {
        ObjectKind::SymmetricKey => "SymmetricKey".spec_bytes(),
        ObjectKind::PrivateKey => "PrivateKey".spec_bytes(),
        ObjectKind::PublicKey => "PublicKey".spec_bytes(),
        ObjectKind::Certificate => "Certificate".spec_bytes(),
    }
}

pub open spec fn kind_named(name: Seq<u8>) -> Option<ObjectKind> {
    if name == "SymmetricKey".spec_bytes() {
        Some(ObjectKind::SymmetricKey)
    } else if name == "PrivateKey".spec_bytes() {
        Some(ObjectKind::PrivateKey)
    } else if name == "PublicKey".spec_bytes() {
        Some(ObjectKind::PublicKey)
    } else if name == "Certificate".spec_bytes() {
        Some(ObjectKind::Certificate)
    } else {
        None
    }
}

pub open spec fn format_name(format: KeyFormatType) -> Seq<u8> {
    match format {
        KeyFormatType::Raw => "Raw".spec_bytes(),
        KeyFormatType::PEM => "PEM".spec_bytes(),
        KeyFormatType::SEC1 => "SEC1".spec_bytes(),
        KeyFormatType::PKCS1 => "PKCS1".spec_bytes(),
        KeyFormatType::PKCS8 => "PKCS8".spec_bytes(),
        KeyFormatType::SPKI => "SPKI".spec_bytes(),
        KeyFormatType::PKCS12 => "PKCS12".spec_bytes(),
        KeyFormatType::X509 => "X509".spec_bytes(),
        KeyFormatType::JsonInterchange => "JsonInterchange".spec_bytes(),
    }
}

pub open spec fn format_named(name: Seq<u8>) -> Option<KeyFormatType> {
    if name == "Raw".spec_bytes() {
        Some(KeyFormatType::Raw)
    } else if name == "PEM".spec_bytes() {
        Some(KeyFormatType::PEM)
    } else if name == "SEC1".spec_bytes() {
        Some(KeyFormatType::SEC1)
    } else if name == "PKCS1".spec_bytes() {
        Some(KeyFormatType::PKCS1)
    } else if name == "PKCS8".spec_bytes() {
        Some(KeyFormatType::PKCS8)
    } else if name == "SPKI".spec_bytes() {
        Some(KeyFormatType::SPKI)
    } else if name == "PKCS12".spec_bytes() {
        Some(KeyFormatType::PKCS12)
    } else if name == "X509".spec_bytes() {
        Some(KeyFormatType::X509)
    } else if name == "JsonInterchange".spec_bytes() {
        Some(KeyFormatType::JsonInterchange)
    } else {
        None
    }
}

pub open spec fn algorithm_name(algorithm: CryptographicAlgorithm) -> Seq<u8> {
    match algorithm {
        CryptographicAlgorithm::AES => "AES".spec_bytes(),
        CryptographicAlgorithm::ChaCha20 => "ChaCha20".spec_bytes(),
        CryptographicAlgorithm::SHA3224 => "SHA3224".spec_bytes(),
        CryptographicAlgorithm::SHA3256 => "SHA3256".spec_bytes(),
        CryptographicAlgorithm::SHA3384 => "SHA3384".spec_bytes(),
        CryptographicAlgorithm::SHA3512 => "SHA3512".spec_bytes(),
        CryptographicAlgorithm::SHAKE128 => "SHAKE128".spec_bytes(),
        CryptographicAlgorithm::SHAKE256 => "SHAKE256".spec_bytes(),
        CryptographicAlgorithm::RSA => "RSA".spec_bytes(),
        CryptographicAlgorithm::EC => "EC".spec_bytes(),
        CryptographicAlgorithm::Ed25519 => "Ed25519".spec_bytes(),
        CryptographicAlgorithm::X25519 => "X25519".spec_bytes(),
        CryptographicAlgorithm::MlKem => "MlKem".spec_bytes(),
    }
}

pub open spec fn algorithm_named(name: Seq<u8>) -> Option<CryptographicAlgorithm> {
    if name == "AES".spec_bytes() {
        Some(CryptographicAlgorithm::AES)
    } else if name == "ChaCha20".spec_bytes() {
        Some(CryptographicAlgorithm::ChaCha20)
    } else if name == "SHA3224".spec_bytes() {
        Some(CryptographicAlgorithm::SHA3224)
    } else if name == "SHA3256".spec_bytes() {
        Some(CryptographicAlgorithm::SHA3256)
    } else if name == "SHA3384".spec_bytes() {
        Some(CryptographicAlgorithm::SHA3384)
    } else if name == "SHA3512".spec_bytes() {
        Some(CryptographicAlgorithm::SHA3512)
    } else if name == "SHAKE128".spec_bytes() {
        Some(CryptographicAlgorithm::SHAKE128)
    } else if name == "SHAKE256".spec_bytes() {
        Some(CryptographicAlgorithm::SHAKE256)
    } else if name == "RSA".spec_bytes() {
        Some(CryptographicAlgorithm::RSA)
    } else if name == "EC".spec_bytes() {
        Some(CryptographicAlgorithm::EC)
    } else if name == "Ed25519".spec_bytes() {
        Some(CryptographicAlgorithm::Ed25519)
    } else if name == "X25519".spec_bytes() {
        Some(CryptographicAlgorithm::X25519)
    } else if name == "MlKem".spec_bytes() {
        Some(CryptographicAlgorithm::MlKem)
    } else {
        None
    }
}

pub open spec fn wrapping_name(algorithm: WrappingAlgorithm) -> Seq<u8> {
    match algorithm {
        WrappingAlgorithm::Aes256Gcm => "Aes256Gcm".spec_bytes(),
        WrappingAlgorithm::RsaOaep => "RsaOaep".spec_bytes(),
        WrappingAlgorithm::Ecies => "Ecies".spec_bytes(),
    }
}

pub open spec fn wrapping_named(name: Seq<u8>) -> Option<WrappingAlgorithm> {
    if name == "Aes256Gcm".spec_bytes() {
        Some(WrappingAlgorithm::Aes256Gcm)
    } else if name == "RsaOaep".spec_bytes() {
        Some(WrappingAlgorithm::RsaOaep)
    } else if name == "Ecies".spec_bytes() {
        Some(WrappingAlgorithm::Ecies)
    } else {
        None
    }
}

/// The number that a text of decimal digits denotes.
pub open spec fn decimal_value(text: Seq<u8>) -> Option<nat>
    decreases text.len(),
{
    if text.len() == 0 {
        None
    } else if text.last() < 48 || text.last() > 57 {
        None
    } else if text.len() == 1 {
        Some((text.last() - 48) as nat)
    } else {
        match decimal_value(text.drop_last()) {
            Some(v) => Some(v * 10 + (text.last() - 48) as nat),
            None => None,
        }
    }
}

/// The length that a text denotes: none for the empty text, else the
/// number it writes, which has to fit.
pub open spec fn length_named(text: Seq<u8>) -> Option<Option<usize>> {
    if text.len() == 0 {
        Some(None)
    } else {
        match decimal_value(text) {
            Some(v) => if v <= usize::MAX {
                Some(Some(v as usize))
            } else {
                None
            },
            None => None,
        }
    }
}

/// The names of the members, in their order.
pub open spec fn member(i: int) -> Seq<u8> {
    if i == 0 {
        "kind".spec_bytes()
    } else if i == 1 {
        "format".spec_bytes()
    } else if i == 2 {
        "algorithm".spec_bytes()
    } else if i == 3 {
        "length".spec_bytes()
    } else if i == 4 {
        "material".spec_bytes()
    } else if i == 5 {
        "subject".spec_bytes()
    } else if i == 6 {
        "issuer".spec_bytes()
    } else if i == 7 {
        "wrapped".spec_bytes()
    } else if i == 8 {
        "wrapping_key".spec_bytes()
    } else if i == 9 {
        "wrapping_algorithm".spec_bytes()
    } else if i == 10 {
        "nonce".spec_bytes()
    } else if i == 11 {
        "tag".spec_bytes()
    } else if i == 12 {
        "encapsulation".spec_bytes()
    } else {
        "original_format".spec_bytes()
    }
}

/// The number of members.
pub const MEMBERS: usize = 14;

/// What stands before the value of a member on its line.
pub open spec fn opening(i: int) -> Seq<u8> {
    "\"".spec_bytes() + member(i) + "\":\"".spec_bytes()
}

/// What stands behind the value of a member on its line.
pub open spec fn closing(i: int) -> Seq<u8> {
    if i == MEMBERS - 1 {
        "\"".spec_bytes()
    } else {
        "\",".spec_bytes()
    }
}

/// The values of the members of an object. A key that is not wrapped has
/// empty wrapping members; a certificate has no algorithm and no length.
pub open spec fn values_of(o: ObjectView) -> Seq<Seq<u8>> {
    let block = o.key_block();
    let wrapping = match block {
        Some(b) => b.key_wrapping_data,
        None => None,
    };
    seq![
        kind_name(o.kind()),
        format_name(o.format()),
        match block {
            Some(KeyBlockView { cryptographic_algorithm: Some(a), .. }) => algorithm_name(a),
            _ => Seq::empty(),
        },
        match block {
            Some(KeyBlockView { cryptographic_length: Some(l), .. }) => encode_utf8(
                digits(l as nat),
            ),
            _ => Seq::empty(),
        },
        hex_of(o.bytes()),
        match o {
            ObjectView::Certificate { subject, .. } => hex_of(subject),
            _ => Seq::empty(),
        },
        match o {
            ObjectView::Certificate { issuer, .. } => hex_of(issuer),
            _ => Seq::empty(),
        },
        if wrapping is Some {
            "true".spec_bytes()
        } else {
            "false".spec_bytes()
        },
        match wrapping {
            Some(w) => hex_of(encode_utf8(w.wrapping_key_id)),
            None => Seq::empty(),
        },
        match wrapping {
            Some(w) => wrapping_name(w.algorithm),
            None => Seq::empty(),
        },
        match wrapping {
            Some(w) => hex_of(w.nonce),
            None => Seq::empty(),
        },
        match wrapping {
            Some(w) => hex_of(w.tag),
            None => Seq::empty(),
        },
        match wrapping {
            Some(w) => hex_of(w.encapsulation),
            None => Seq::empty(),
        },
        match wrapping {
            Some(w) => format_name(w.original_format),
            None => Seq::empty(),
        },
    ]
}

/// The lines of the first `n` members.
pub open spec fn member_lines(values: Seq<Seq<u8>>, n: int) -> Seq<u8>
    decreases n,
{
    if n <= 0 {
        Seq::empty()
    } else {
        member_lines(values, n - 1) + opening(n - 1) + values[n - 1] + closing(n - 1) + seq![10u8]
    }
}

/// The document of an object.
pub open spec fn written(o: ObjectView) -> Seq<u8> {
    "{\n".spec_bytes() + member_lines(values_of(o), MEMBERS as int) + "}\n".spec_bytes()
}

/// Where the `n`-th line of a document starts.
pub open spec fn line_start(doc: Seq<u8>, n: int) -> int
    decreases n,
{
    if n <= 0 {
        0
    } else {
        let end = first_index(doc, 10, line_start(doc, n - 1));
        if end >= doc.len() {
            doc.len() as int
        } else {
            end + 1
        }
    }
}

/// The `n`-th line of a document, without its line end.
pub open spec fn line_at(doc: Seq<u8>, n: int) -> Seq<u8> {
    doc.subrange(line_start(doc, n), first_index(doc, 10, line_start(doc, n)))
}

/// The value of the `i`-th member of a document, which stands on the line
/// after the opening brace and the members before it.
pub open spec fn value_at(doc: Seq<u8>, i: int) -> Option<Seq<u8>> {
    let line = line_at(doc, i + 1);
    if line.len() >= opening(i).len() + closing(i).len() && starts_with(line, opening(i))
        && ends_with(line, closing(i)) {
        Some(line.subrange(opening(i).len() as int, line.len() - closing(i).len()))
    } else {
        None
    }
}

/// The values of the first `n` members of a document, if each of them is
/// there.
pub open spec fn values_read(doc: Seq<u8>, n: int) -> Option<Seq<Seq<u8>>>
    decreases n,
{
    if n <= 0 {
        Some(Seq::empty())
    } else {
        match (values_read(doc, n - 1), value_at(doc, n - 1)) {
            (Some(before), Some(v)) => Some(before.push(v)),
            _ => None,
        }
    }
}

/// The wrapping metadata that the values of a document give.
pub open spec fn wrapping_from(v: Seq<Seq<u8>>) -> Option<Option<KeyWrappingDataView>> {
    if v[7] == "false".spec_bytes() {
        Some(None)
    } else if v[7] != "true".spec_bytes() {
        None
    } else {
        match (
            unhexed(v[8]),
            wrapping_named(v[9]),
            unhexed(v[10]),
            unhexed(v[11]),
            unhexed(v[12]),
            format_named(v[13]),
        ) {
            (
                Some(key_id),
                Some(algorithm),
                Some(nonce),
                Some(tag),
                Some(encapsulation),
                Some(original_format),
            ) => if valid_utf8(key_id) {
                Some(
                    Some(
                        KeyWrappingDataView {
                            wrapping_key_id: decode_utf8(key_id),
                            algorithm,
                            nonce,
                            tag,
                            encapsulation,
                            original_format,
                        },
                    ),
                )
            } else {
                None
            },
            _ => None,
        }
    }
}

/// The algorithm that a text names: none for the empty text.
pub open spec fn algorithm_from(text: Seq<u8>) -> Option<Option<CryptographicAlgorithm>> {
    if text.len() == 0 {
        Some(None)
    } else {
        match algorithm_named(text) {
            Some(a) => Some(Some(a)),
            None => None,
        }
    }
}

/// The object that the values of a document give.
pub open spec fn object_from(v: Seq<Seq<u8>>) -> Option<ObjectView> {
    match (kind_named(v[0]), unhexed(v[4])) {
        (Some(ObjectKind::Certificate), Some(certificate_value)) => match (
            unhexed(v[5]),
            unhexed(v[6]),
        ) {
            (Some(subject), Some(issuer)) => Some(
                ObjectView::Certificate { certificate_value, subject, issuer },
            ),
            _ => None,
        },
        (Some(kind), Some(key_material)) => match (
            format_named(v[1]),
            algorithm_from(v[2]),
            length_named(v[3]),
            wrapping_from(v),
        ) {
            (
                Some(key_format_type),
                Some(cryptographic_algorithm),
                Some(cryptographic_length),
                Some(key_wrapping_data),
            ) => {
                let key_block = KeyBlockView {
                    key_format_type,
                    key_material,
                    cryptographic_algorithm,
                    cryptographic_length,
                    key_wrapping_data,
                };
                match kind {
                    ObjectKind::SymmetricKey => Some(ObjectView::SymmetricKey { key_block }),
                    ObjectKind::PrivateKey => Some(ObjectView::PrivateKey { key_block }),
                    _ => Some(ObjectView::PublicKey { key_block }),
                }
            },
            _ => None,
        },
        _ => None,
    }
}

/// The object that a document describes: its first line is the opening
/// brace, the fourteen members follow, one on each line, and the closing
/// brace comes after them.
pub open spec fn read(doc: Seq<u8>) -> Option<ObjectView> {
    if line_at(doc, 0) != "{".spec_bytes() || line_at(doc, MEMBERS as int + 1)
        != "}".spec_bytes() {
        None
    } else {
        match values_read(doc, MEMBERS as int) {
            Some(v) => object_from(v),
            None => None,
        }
    }
}

fn kind_text(kind: ObjectKind) -> (r: &'static str)
    ensures
        r.spec_bytes() == kind_name(kind),
{
    match kind {
        ObjectKind::SymmetricKey => "SymmetricKey",
        ObjectKind::PrivateKey => "PrivateKey",
        ObjectKind::PublicKey => "PublicKey",
        ObjectKind::Certificate => "Certificate",
    }
}

fn kind_from(name: &[u8]) -> (r: Option<ObjectKind>)
    ensures
        r == kind_named(name@),
{
    if eq_bytes(name, "SymmetricKey".as_bytes()) {
        Some(ObjectKind::SymmetricKey)
    } else if eq_bytes(name, "PrivateKey".as_bytes()) {
        Some(ObjectKind::PrivateKey)
    } else if eq_bytes(name, "PublicKey".as_bytes()) {
        Some(ObjectKind::PublicKey)
    } else if eq_bytes(name, "Certificate".as_bytes()) {
        Some(ObjectKind::Certificate)
    } else {
        None
    }
}

fn format_text(format: KeyFormatType) -> (r: &'static str)
    ensures
        r.spec_bytes() == format_name(format),
{
    match format {
        KeyFormatType::Raw => "Raw",
        KeyFormatType::PEM => "PEM",
        KeyFormatType::SEC1 => "SEC1",
        KeyFormatType::PKCS1 => "PKCS1",
        KeyFormatType::PKCS8 => "PKCS8",
        KeyFormatType::SPKI => "SPKI",
        KeyFormatType::PKCS12 => "PKCS12",
        KeyFormatType::X509 => "X509",
        KeyFormatType::JsonInterchange => "JsonInterchange",
    }
}

fn format_from(name: &[u8]) -> (r: Option<KeyFormatType>)
    ensures
        r == format_named(name@),
{
    if eq_bytes(name, "Raw".as_bytes()) {
        Some(KeyFormatType::Raw)
    } else if eq_bytes(name, "PEM".as_bytes()) {
        Some(KeyFormatType::PEM)
    } else if eq_bytes(name, "SEC1".as_bytes()) {
        Some(KeyFormatType::SEC1)
    } else if eq_bytes(name, "PKCS1".as_bytes()) {
        Some(KeyFormatType::PKCS1)
    } else if eq_bytes(name, "PKCS8".as_bytes()) {
        Some(KeyFormatType::PKCS8)
    } else if eq_bytes(name, "SPKI".as_bytes()) {
        Some(KeyFormatType::SPKI)
    } else if eq_bytes(name, "PKCS12".as_bytes()) {
        Some(KeyFormatType::PKCS12)
    } else if eq_bytes(name, "X509".as_bytes()) {
        Some(KeyFormatType::X509)
    } else if eq_bytes(name, "JsonInterchange".as_bytes()) {
        Some(KeyFormatType::JsonInterchange)
    } else {
        None
    }
}

fn algorithm_text(algorithm: CryptographicAlgorithm) -> (r: &'static str)
    ensures
        r.spec_bytes() == algorithm_name(algorithm),
{
    match algorithm {
        CryptographicAlgorithm::AES => "AES",
        CryptographicAlgorithm::ChaCha20 => "ChaCha20",
        CryptographicAlgorithm::SHA3224 => "SHA3224",
        CryptographicAlgorithm::SHA3256 => "SHA3256",
        CryptographicAlgorithm::SHA3384 => "SHA3384",
        CryptographicAlgorithm::SHA3512 => "SHA3512",
        CryptographicAlgorithm::SHAKE128 => "SHAKE128",
        CryptographicAlgorithm::SHAKE256 => "SHAKE256",
        CryptographicAlgorithm::RSA => "RSA",
        CryptographicAlgorithm::EC => "EC",
        CryptographicAlgorithm::Ed25519 => "Ed25519",
        CryptographicAlgorithm::X25519 => "X25519",
        CryptographicAlgorithm::MlKem => "MlKem",
    }
}

fn algorithm_from_name(name: &[u8]) -> (r: Option<CryptographicAlgorithm>)
    ensures
        r == algorithm_named(name@),
{
    if eq_bytes(name, "AES".as_bytes()) {
        Some(CryptographicAlgorithm::AES)
    } else if eq_bytes(name, "ChaCha20".as_bytes()) {
        Some(CryptographicAlgorithm::ChaCha20)
    } else if eq_bytes(name, "SHA3224".as_bytes()) {
        Some(CryptographicAlgorithm::SHA3224)
    } else if eq_bytes(name, "SHA3256".as_bytes()) {
        Some(CryptographicAlgorithm::SHA3256)
    } else if eq_bytes(name, "SHA3384".as_bytes()) {
        Some(CryptographicAlgorithm::SHA3384)
    } else if eq_bytes(name, "SHA3512".as_bytes()) {
        Some(CryptographicAlgorithm::SHA3512)
    } else if eq_bytes(name, "SHAKE128".as_bytes()) {
        Some(CryptographicAlgorithm::SHAKE128)
    } else if eq_bytes(name, "SHAKE256".as_bytes()) {
        Some(CryptographicAlgorithm::SHAKE256)
    } else if eq_bytes(name, "RSA".as_bytes()) {
        Some(CryptographicAlgorithm::RSA)
    } else if eq_bytes(name, "EC".as_bytes()) {
        Some(CryptographicAlgorithm::EC)
    } else if eq_bytes(name, "Ed25519".as_bytes()) {
        Some(CryptographicAlgorithm::Ed25519)
    } else if eq_bytes(name, "X25519".as_bytes()) {
        Some(CryptographicAlgorithm::X25519)
    } else if eq_bytes(name, "MlKem".as_bytes()) {
        Some(CryptographicAlgorithm::MlKem)
    } else {
        None
    }
}

fn wrapping_text(algorithm: WrappingAlgorithm) -> (r: &'static str)
    ensures
        r.spec_bytes() == wrapping_name(algorithm),
{
    match algorithm {
        WrappingAlgorithm::Aes256Gcm => "Aes256Gcm",
        WrappingAlgorithm::RsaOaep => "RsaOaep",
        WrappingAlgorithm::Ecies => "Ecies",
    }
}

fn wrapping_from_name(name: &[u8]) -> (r: Option<WrappingAlgorithm>)
    ensures
        r == wrapping_named(name@),
{
    if eq_bytes(name, "Aes256Gcm".as_bytes()) {
        Some(WrappingAlgorithm::Aes256Gcm)
    } else if eq_bytes(name, "RsaOaep".as_bytes()) {
        Some(WrappingAlgorithm::RsaOaep)
    } else if eq_bytes(name, "Ecies".as_bytes()) {
        Some(WrappingAlgorithm::Ecies)
    } else {
        None
    }
}

fn member_text(i: usize) -> (r: &'static str)
    ensures
        r.spec_bytes() == member(i as int),
{
    if i == 0 {
        "kind"
    } else if i == 1 {
        "format"
    } else if i == 2 {
        "algorithm"
    } else if i == 3 {
        "length"
    } else if i == 4 {
        "material"
    } else if i == 5 {
        "subject"
    } else if i == 6 {
        "issuer"
    } else if i == 7 {
        "wrapped"
    } else if i == 8 {
        "wrapping_key"
    } else if i == 9 {
        "wrapping_algorithm"
    } else if i == 10 {
        "nonce"
    } else if i == 11 {
        "tag"
    } else if i == 12 {
        "encapsulation"
    } else {
        "original_format"
    }
}

fn opening_of(i: usize) -> (r: Vec<u8>)
    ensures
        r@ == opening(i as int),
{
    let mut out: Vec<u8> = Vec::new();
    append_bytes(&mut out, "\"".as_bytes());
    append_bytes(&mut out, member_text(i).as_bytes());
    append_bytes(&mut out, "\":\"".as_bytes());
    assert(out@ =~= opening(i as int));
    out
}

fn closing_of(i: usize) -> (r: &'static str)
    ensures
        r.spec_bytes() == closing(i as int),
{
    if i == MEMBERS - 1 {
        "\""
    } else {
        "\","
    }
}

/// A later digit keeps a number that is too large too large.
proof fn lemma_decimal_grows(text: Seq<u8>, n: int)
    requires
        1 <= n <= text.len(),
        decimal_value(text.take(n)) is Some,
        decimal_value(text) is Some,
    ensures
        decimal_value(text.take(n))->0 <= decimal_value(text)->0,
    decreases text.len(),
{
    if n == text.len() {
        assert(text.take(n) =~= text);
    } else {
        assert(text.drop_last().take(n) =~= text.take(n));
        lemma_decimal_grows(text.drop_last(), n);
    }
}

/// A text with a start that denotes no number denotes none.
proof fn lemma_decimal_prefix(text: Seq<u8>, n: int)
    requires
        1 <= n <= text.len(),
        decimal_value(text.take(n)) is None,
    ensures
        decimal_value(text) is None,
    decreases text.len(),
{
    if n == text.len() {
        assert(text.take(n) =~= text);
    } else {
        assert(text.drop_last().take(n) =~= text.take(n));
        lemma_decimal_prefix(text.drop_last(), n);
    }
}

fn parse_length(text: &[u8]) -> (r: Option<Option<usize>>)
    ensures
        r == length_named(text@),
{
    if text.len() == 0 {
        return Some(None);
    }
    let mut value: usize = 0;
    let mut i: usize = 0;
    while i < text.len()
        invariant
            i <= text.len(),
            i == 0 ==> value == 0,
            i > 0 ==> decimal_value(text@.take(i as int)) == Some(value as nat),
        decreases text.len() - i,
    {
        let d = text[i];
        let ghost next = text@.take(i as int + 1);
        assert(next.drop_last() =~= text@.take(i as int));
        assert(next.last() == d);
        if d < 48 || d > 57 {
            proof {
                assert(decimal_value(next) is None);
                lemma_decimal_prefix(text@, i as int + 1);
            }
            return None;
        }
        let digit = (d - 48) as usize;
        if value > (usize::MAX - digit) / 10 {
            proof {
                assert(decimal_value(next) == Some((value * 10 + digit) as nat));
                if decimal_value(text@) is Some {
                    lemma_decimal_grows(text@, i as int + 1);
                }
            }
            return None;
        }
        value = value * 10 + digit;
        i += 1;
    }
    assert(text@.take(i as int) =~= text@);
    Some(Some(value))
}

/// The byte strings of a list.
pub open spec fn views(list: Seq<Vec<u8>>) -> Seq<Seq<u8>> {
    list.map_values(|v: Vec<u8>| v@)
}

fn text(s: &str) -> (r: Vec<u8>)
    ensures
        r@ == s.spec_bytes(),
{
    let mut out: Vec<u8> = Vec::new();
    append_bytes(&mut out, s.as_bytes());
    out
}

fn values(o: &Object) -> (r: Vec<Vec<u8>>)
    ensures
        views(r@) == values_of(o@),
        r@.len() == MEMBERS,
{
    let block = o.key_block();
    let wrapping = match block {
        Some(b) => match &b.key_wrapping_data {
            Some(w) => Some(w),
            None => None,
        },
        None => None,
    };
    let mut out: Vec<Vec<u8>> = Vec::new();
    out.push(text(kind_text(o.kind())));
    out.push(text(format_text(o.format())));
    out.push(
        match block {
            Some(b) => match b.cryptographic_algorithm {
                Some(a) => text(algorithm_text(a)),
                None => Vec::new(),
            },
            None => Vec::new(),
        },
    );
    out.push(
        match block {
            Some(b) => match b.cryptographic_length {
                Some(l) => {
                    let numeral = to_decimal(l as u64);
                    text(numeral.as_str())
                },
                None => Vec::new(),
            },
            None => Vec::new(),
        },
    );
    out.push(to_hex(o.bytes().as_slice()));
    out.push(
        match o {
            Object::Certificate { subject, .. } => to_hex(subject.as_slice()),
            _ => Vec::new(),
        },
    );
    out.push(
        match o {
            Object::Certificate { issuer, .. } => to_hex(issuer.as_slice()),
            _ => Vec::new(),
        },
    );
    out.push(
        match wrapping {
            Some(_) => text("true"),
            None => text("false"),
        },
    );
    out.push(
        match wrapping {
            Some(w) => to_hex(w.wrapping_key_id.as_str().as_bytes()),
            None => Vec::new(),
        },
    );
    out.push(
        match wrapping {
            Some(w) => text(wrapping_text(w.algorithm)),
            None => Vec::new(),
        },
    );
    out.push(
        match wrapping {
            Some(w) => to_hex(w.nonce.as_slice()),
            None => Vec::new(),
        },
    );
    out.push(
        match wrapping {
            Some(w) => to_hex(w.tag.as_slice()),
            None => Vec::new(),
        },
    );
    out.push(
        match wrapping {
            Some(w) => to_hex(w.encapsulation.as_slice()),
            None => Vec::new(),
        },
    );
    out.push(
        match wrapping {
            Some(w) => text(format_text(w.original_format)),
            None => Vec::new(),
        },
    );
    assert(views(out@) =~= values_of(o@));
    out
}

/// Writes the document of an object.
fn write(o: &Object) -> (r: Vec<u8>)
    ensures
        r@ == written(o@),
{
    let fields = values(o);
    let mut out: Vec<u8> = Vec::new();
    append_bytes(&mut out, "{\n".as_bytes());
    let mut i: usize = 0;
    assert(out@ =~= "{\n".spec_bytes() + member_lines(views(fields@), 0));
    while i < MEMBERS
        invariant
            i <= MEMBERS,
            fields@.len() == MEMBERS,
            out@ == "{\n".spec_bytes() + member_lines(views(fields@), i as int),
        decreases MEMBERS - i,
    {
        let ghost before = out@;
        let open = opening_of(i);
        append_bytes(&mut out, open.as_slice());
        append_bytes(&mut out, fields[i].as_slice());
        append_bytes(&mut out, closing_of(i).as_bytes());
        out.push(10);
        assert(out@ =~= before + opening(i as int) + views(fields@)[i as int] + closing(i as int)
            + seq![10u8]);
        assert(out@ =~= "{\n".spec_bytes() + member_lines(views(fields@), i as int + 1));
        i += 1;
    }
    append_bytes(&mut out, "}\n".as_bytes());
    out
}

/// A place from which a line is looked for keeps within the document.
proof fn lemma_line_start_bound(doc: Seq<u8>, n: int)
    ensures
        0 <= line_start(doc, n) <= doc.len(),
    decreases n,
{
    if n > 0 {
        lemma_line_start_bound(doc, n - 1);
        lemma_first_index_bound(doc, 10, line_start(doc, n - 1));
    }
}

/// A byte is found, if at all, from where it is looked for on.
proof fn lemma_first_index_bound(s: Seq<u8>, b: u8, from: int)
    requires
        0 <= from <= s.len(),
    ensures
        from <= first_index(s, b, from) <= s.len(),
    decreases s.len() - from,
{
    if from < s.len() && s[from] != b {
        lemma_first_index_bound(s, b, from + 1);
    }
}

fn line(doc: &[u8], n: usize) -> (r: Vec<u8>)
    ensures
        r@ == line_at(doc@, n as int),
{
    let mut start: usize = 0;
    let mut k: usize = 0;
    while k < n
        invariant
            k <= n,
            start <= doc.len(),
            start == line_start(doc@, k as int),
        decreases n - k,
    {
        let end = find_byte_from(doc, 10, start);
        start = if end >= doc.len() {
            doc.len()
        } else {
            end + 1
        };
        k += 1;
    }
    let end = find_byte_from(doc, 10, start);
    slice_of(doc, start, end)
}

fn value(doc: &[u8], i: usize) -> (r: Option<Vec<u8>>)
    requires
        i < MEMBERS,
    ensures
        match r {
            Some(v) => value_at(doc@, i as int) == Some(v@),
            None => value_at(doc@, i as int) is None,
        },
{
    let l = line(doc, i + 1);
    let open = opening_of(i);
    let close = closing_of(i).as_bytes();
    if open.len() > l.len() || close.len() > l.len() - open.len() {
        return None;
    }
    if !has_prefix(l.as_slice(), open.as_slice()) || !has_suffix(l.as_slice(), close) {
        return None;
    }
    Some(slice_of(l.as_slice(), open.len(), l.len() - close.len()))
}

fn read_values(doc: &[u8]) -> (r: Option<Vec<Vec<u8>>>)
    ensures
        match r {
            Some(v) => values_read(doc@, MEMBERS as int) == Some(views(v@)),
            None => values_read(doc@, MEMBERS as int) is None,
        },
{
    let mut out: Vec<Vec<u8>> = Vec::new();
    let mut i: usize = 0;
    assert(views(out@) =~= Seq::<Seq<u8>>::empty());
    while i < MEMBERS
        invariant
            i <= MEMBERS,
            values_read(doc@, i as int) == Some(views(out@)),
        decreases MEMBERS - i,
    {
        match value(doc, i) {
            Some(v) => {
                let ghost before = views(out@);
                out.push(v);
                assert(views(out@) =~= before.push(v@));
            },
            None => {
                proof {
                    lemma_values_missing(doc@, i as int + 1, MEMBERS as int);
                }
                return None;
            },
        }
        i += 1;
    }
    Some(out)
}

/// Where the first members are not all there, neither are more of them.
proof fn lemma_values_missing(doc: Seq<u8>, n: int, more: int)
    requires
        0 <= n <= more,
        values_read(doc, n) is None,
    ensures
        values_read(doc, more) is None,
    decreases more - n,
{
    if n < more {
        lemma_values_missing(doc, n, more - 1);
    }
}

fn wrapping_of(v: &Vec<Vec<u8>>) -> (r: Option<Option<KeyWrappingData>>)
    requires
        v@.len() == MEMBERS,
    ensures
        match r {
            Some(Some(w)) => wrapping_from(views(v@)) == Some(Some(w@)),
            Some(None) => wrapping_from(views(v@)) == Some(None::<KeyWrappingDataView>),
            None => wrapping_from(views(v@)) is None,
        },
{
    if eq_bytes(v[7].as_slice(), "false".as_bytes()) {
        return Some(None);
    }
    if !eq_bytes(v[7].as_slice(), "true".as_bytes()) {
        return None;
    }
    let key_id = match from_hex(v[8].as_slice()) {
        Some(b) => b,
        None => {
            return None;
        },
    };
    let algorithm = match wrapping_from_name(v[9].as_slice()) {
        Some(a) => a,
        None => {
            return None;
        },
    };
    let nonce = match from_hex(v[10].as_slice()) {
        Some(b) => b,
        None => {
            return None;
        },
    };
    let tag = match from_hex(v[11].as_slice()) {
        Some(b) => b,
        None => {
            return None;
        },
    };
    let encapsulation = match from_hex(v[12].as_slice()) {
        Some(b) => b,
        None => {
            return None;
        },
    };
    let original_format = match format_from(v[13].as_slice()) {
        Some(f) => f,
        None => {
            return None;
        },
    };
    match string_from_utf8(key_id) {
        Some(wrapping_key_id) => Some(
            Some(
                KeyWrappingData {
                    wrapping_key_id,
                    algorithm,
                    nonce,
                    tag,
                    encapsulation,
                    original_format,
                },
            ),
        ),
        None => None,
    }
}

fn object_of(v: &Vec<Vec<u8>>) -> (r: Option<Object>)
    requires
        v@.len() == MEMBERS,
    ensures
        match r {
            Some(o) => object_from(views(v@)) == Some(o@),
            None => object_from(views(v@)) is None,
        },
{
    let kind = match kind_from(v[0].as_slice()) {
        Some(k) => k,
        None => {
            return None;
        },
    };
    let material = match from_hex(v[4].as_slice()) {
        Some(b) => b,
        None => {
            return None;
        },
    };
    match kind {
        ObjectKind::Certificate => {
            let subject = match from_hex(v[5].as_slice()) {
                Some(b) => b,
                None => {
                    return None;
                },
            };
            let issuer = match from_hex(v[6].as_slice()) {
                Some(b) => b,
                None => {
                    return None;
                },
            };
            Some(Object::Certificate { certificate_value: material, subject, issuer })
        },
        _ => {
            let key_format_type = match format_from(v[1].as_slice()) {
                Some(f) => f,
                None => {
                    return None;
                },
            };
            let cryptographic_algorithm = if v[2].len() == 0 {
                None
            } else {
                match algorithm_from_name(v[2].as_slice()) {
                    Some(a) => Some(a),
                    None => {
                        return None;
                    },
                }
            };
            let cryptographic_length = match parse_length(v[3].as_slice()) {
                Some(l) => l,
                None => {
                    return None;
                },
            };
            let key_wrapping_data = match wrapping_of(v) {
                Some(w) => w,
                None => {
                    return None;
                },
            };
            let key_block = KeyBlock {
                key_format_type,
                key_material: material,
                cryptographic_algorithm,
                cryptographic_length,
                key_wrapping_data,
            };
            match kind {
                ObjectKind::SymmetricKey => Some(Object::SymmetricKey { key_block }),
                ObjectKind::PrivateKey => Some(Object::PrivateKey { key_block }),
                _ => Some(Object::PublicKey { key_block }),
            }
        },
    }
}

/// Reads the object that a document describes.
pub fn from_interchange(doc: &[u8]) -> (r: Option<Object>)
    ensures
        match r {
            Some(o) => read(doc@) == Some(o@),
            None => read(doc@) is None,
        },
{
    let first = line(doc, 0);
    let last = line(doc, MEMBERS + 1);
    if !eq_bytes(first.as_slice(), "{".as_bytes()) || !eq_bytes(last.as_slice(), "}".as_bytes()) {
        return None;
    }
    match read_values(doc) {
        Some(v) => {
            assert(views(v@).len() == v@.len());
            proof {
                lemma_values_count(doc@, MEMBERS as int);
            }
            object_of(&v)
        },
        None => None,
    }
}

/// As many values are read as members are asked for.
proof fn lemma_values_count(doc: Seq<u8>, n: int)
    requires
        0 <= n,
        values_read(doc, n) is Some,
    ensures
        values_read(doc, n)->0.len() == n,
    decreases n,
{
    if n > 0 {
        lemma_values_count(doc, n - 1);
    }
}

/// Writes the document under which an object travels. Reading it gives
/// the object back.
pub fn to_interchange(o: &Object) -> (r: Vec<u8>)
    ensures
        r@ == written(o@),
        read(r@) == Some(o@),
{
    proof {
        crate::interchange_laws::lemma_reads_back(o@);
    }
    write(o)
}

} // verus!
