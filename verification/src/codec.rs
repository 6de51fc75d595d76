//! The key format codec: from the interchange encodings to the one
//! encoding in which each kind of material is held, and back.

use vstd::prelude::*;
use vstd::string::{
    StringSliceAdditionalSpecFns,
    is_ascii_spec_bytes,
};
use crate::bytes::eq_bytes;
use crate::crypto::{
    KeyFamily,
    MAX_INPUT,
    Pkcs12Failure,
    certificate_of,
    open_pkcs12,
    pkcs12_opened,
    parse_certificate,
    parse_private_key,
    parse_public_key,
    pkcs1_of,
    pkcs8_of,
    public_half,
    public_key_of,
    sec1_of,
    to_pkcs1,
    to_sec1,
};
use crate::error::CodecError;
use crate::object::{
    CryptographicAlgorithm,
    KeyFormatType,
    ObjectKind,
};
use crate::pem::{
    armor,
    armored,
    unarmor,
    unarmored,
};

verus! {

/// Key material in the encoding its kind is held in: a symmetric key as
/// its bytes, a private key in PKCS#8, a public key in SPKI, a certificate
/// in X.509.
pub struct KeyMaterial {
    pub kind: ObjectKind,
    pub algorithm: CryptographicAlgorithm,
    /// The size of the key in bits.
    pub length: usize,
    pub bytes: Vec<u8>,
}

pub struct KeyMaterialView {
    pub kind: ObjectKind,
    pub algorithm: CryptographicAlgorithm,
    pub length: usize,
    pub bytes: Seq<u8>,
}

impl View for KeyMaterial {
    type V = KeyMaterialView;

    open spec fn view(&self) -> KeyMaterialView {
        KeyMaterialView {
            kind: self.kind,
            algorithm: self.algorithm,
            length: self.length,
            bytes: self.bytes@,
        }
    }
}

impl Clone for KeyMaterial {
    fn clone(&self) -> (r: Self)
        ensures
            r@ == self@,
    {
        KeyMaterial {
            kind: self.kind,
            algorithm: self.algorithm,
            length: self.length,
            bytes: self.bytes.clone(),
        }
    }
}

impl KeyMaterial {
    /// Whether two materials are the same.
    pub fn same(&self, other: &KeyMaterial) -> (r: bool)
        ensures
            r == (self@ == other@),
    {
        self.kind == other.kind && self.algorithm == other.algorithm && self.length == other.length
            && eq_bytes(self.bytes.as_slice(), other.bytes.as_slice())
    }
}

/// The algorithm of a family of keys, where the library knows it.
pub open spec fn family_algorithm(family: KeyFamily) -> Option<CryptographicAlgorithm> {
    match family {
        KeyFamily::Rsa => Some(CryptographicAlgorithm::RSA),
        KeyFamily::Ec => Some(CryptographicAlgorithm::EC),
        KeyFamily::Ed25519 => Some(CryptographicAlgorithm::Ed25519),
        KeyFamily::X25519 => Some(CryptographicAlgorithm::X25519),
        KeyFamily::Other => None,
    }
}

/// The material of an asymmetric key that was read, given the family and
/// size of its public key: no material where the family is unknown or is
/// not the declared algorithm.
pub open spec fn material_of(
    kind: ObjectKind,
    bytes: Seq<u8>,
    family: KeyFamily,
    bits: u32,
    declared: Option<CryptographicAlgorithm>,
) -> Result<KeyMaterialView, CodecError> {
    match family_algorithm(family) {
        None => Err(CodecError::UnsupportedFormat),
        Some(algorithm) => if declared is Some && declared->0 != algorithm {
            Err(CodecError::AlgorithmMismatch)
        } else {
            Ok(KeyMaterialView { kind, algorithm, length: bits as usize, bytes })
        },
    }
}

/// What the bytes of a symmetric key decode to. Without a declared
/// algorithm the key is taken for an AES key.
pub open spec fn decoded_raw(bytes: Seq<u8>, declared: Option<CryptographicAlgorithm>) -> Result<
    KeyMaterialView,
    CodecError,
> {
    let algorithm = match declared {
        Some(a) => a,
        None => CryptographicAlgorithm::AES,
    };
    if !algorithm.spec_is_symmetric() {
        Err(CodecError::AlgorithmMismatch)
    } else if bytes.len() * 8 > usize::MAX {
        Err(CodecError::MalformedInput)
    } else {
        Ok(
            KeyMaterialView {
                kind: ObjectKind::SymmetricKey,
                algorithm,
                length: (bytes.len() * 8) as usize,
                bytes,
            },
        )
    }
}

/// What a binary encoding of a private key decodes to. An encoding that is
/// specific to a key type holds no key of another type.
pub open spec fn decoded_private(
    der: Seq<u8>,
    format: KeyFormatType,
    declared: Option<CryptographicAlgorithm>,
) -> Result<KeyMaterialView, CodecError> {
    match pkcs8_of(der) {
        None => Err(CodecError::MalformedInput),
        Some(pkcs8) => match public_half(pkcs8) {
            None => Err(CodecError::MalformedInput),
            Some(spki) => match public_key_of(spki) {
                None => Err(CodecError::MalformedInput),
                Some((_, family, bits)) => match material_of(
                    ObjectKind::PrivateKey,
                    pkcs8,
                    family,
                    bits,
                    declared,
                ) {
                    Err(e) => Err(e),
                    Ok(m) => if (format == KeyFormatType::SEC1 && m.algorithm
                        != CryptographicAlgorithm::EC) || (format == KeyFormatType::PKCS1
                        && m.algorithm != CryptographicAlgorithm::RSA) {
                        Err(CodecError::AlgorithmMismatch)
                    } else {
                        Ok(m)
                    },
                },
            },
        },
    }
}

/// What a binary encoding of a public key decodes to.
pub open spec fn decoded_public(der: Seq<u8>, declared: Option<CryptographicAlgorithm>) -> Result<
    KeyMaterialView,
    CodecError,
> {
    match public_key_of(der) {
        None => Err(CodecError::MalformedInput),
        Some((spki, family, bits)) => material_of(
            ObjectKind::PublicKey,
            spki,
            family,
            bits,
            declared,
        ),
    }
}

/// What a binary encoding of a certificate decodes to. Its algorithm and
/// length are those of the certified public key.
pub open spec fn decoded_certificate(der: Seq<u8>, declared: Option<CryptographicAlgorithm>) -> Result<
    KeyMaterialView,
    CodecError,
> {
    match certificate_of(der) {
        None => Err(CodecError::MalformedInput),
        Some((encoded, _, _, spki)) => match public_key_of(spki) {
            None => Err(CodecError::MalformedInput),
            Some((_, family, bits)) => material_of(
                ObjectKind::Certificate,
                encoded,
                family,
                bits,
                declared,
            ),
        },
    }
}

/// What bytes in one of the binary formats are read as.
pub open spec fn parsed(
    bytes: Seq<u8>,
    format: KeyFormatType,
    declared: Option<CryptographicAlgorithm>,
) -> Result<KeyMaterialView, CodecError> {
    match format {
        KeyFormatType::Raw => decoded_raw(bytes, declared),
        KeyFormatType::PKCS8 => decoded_private(bytes, format, declared),
        KeyFormatType::SEC1 => decoded_private(bytes, format, declared),
        KeyFormatType::PKCS1 => decoded_private(bytes, format, declared),
        KeyFormatType::SPKI => decoded_public(bytes, declared),
        KeyFormatType::X509 => decoded_certificate(bytes, declared),
        _ => Err(CodecError::UnsupportedFormat),
    }
}

pub open spec fn label_private() -> Seq<u8> {
    "PRIVATE KEY".spec_bytes()
}

pub open spec fn label_ec_private() -> Seq<u8> {
    "EC PRIVATE KEY".spec_bytes()
}

pub open spec fn label_rsa_private() -> Seq<u8> {
    "RSA PRIVATE KEY".spec_bytes()
}

pub open spec fn label_public() -> Seq<u8> {
    "PUBLIC KEY".spec_bytes()
}

pub open spec fn label_certificate() -> Seq<u8> {
    "CERTIFICATE".spec_bytes()
}

/// The binary format that the label of an armour announces.
pub open spec fn label_format(label: Seq<u8>) -> Option<KeyFormatType> {
    if label == label_private() {
        Some(KeyFormatType::PKCS8)
    } else if label == label_ec_private() {
        Some(KeyFormatType::SEC1)
    } else if label == label_rsa_private() {
        Some(KeyFormatType::PKCS1)
    } else if label == label_public() {
        Some(KeyFormatType::SPKI)
    } else if label == label_certificate() {
        Some(KeyFormatType::X509)
    } else {
        None
    }
}

/// The label under which material of a kind is armoured.
pub open spec fn kind_label(kind: ObjectKind) -> Seq<u8> {
    match kind {
        ObjectKind::PrivateKey => label_private(),
        ObjectKind::PublicKey => label_public(),
        _ => label_certificate(),
    }
}

impl KeyMaterialView {
    /// Material is in the form in which it is held when reading its bytes
    /// in the encoding of its kind gives the material itself.
    pub open spec fn canonical(self) -> bool {
        parsed(self.bytes, self.kind.spec_canonical_format(), Some(self.algorithm)) == Ok::<
            KeyMaterialView,
            CodecError,
        >(self)
    }
}

/// What bytes in one of the binary formats decode to: what they are read
/// as, if that is in the form in which it is held.
pub open spec fn decoded_binary(
    bytes: Seq<u8>,
    format: KeyFormatType,
    declared: Option<CryptographicAlgorithm>,
) -> Result<KeyMaterialView, CodecError> {
    match parsed(bytes, format, declared) {
        Err(e) => Err(e),
        Ok(m) => if m.canonical() {
            Ok(m)
        } else {
            Err(CodecError::MalformedInput)
        },
    }
}

/// What bytes in a declared format decode to: `MalformedInput` where they
/// do not parse, `UnsupportedFormat` where the format or what it holds is
/// not one the codec reads, `AlgorithmMismatch` where a declared algorithm
/// or a format specific to a key type does not fit what was parsed.
pub open spec fn decoded(
    bytes: Seq<u8>,
    format: KeyFormatType,
    declared: Option<CryptographicAlgorithm>,
) -> Result<KeyMaterialView, CodecError> {
    match format {
        KeyFormatType::PEM => match unarmored(bytes) {
            None => Err(CodecError::MalformedInput),
            Some((label, der)) => match label_format(label) {
                None => Err(CodecError::UnsupportedFormat),
                Some(inner) => decoded_binary(der, inner, declared),
            },
        },
        _ => decoded_binary(bytes, format, declared),
    }
}

/// The bytes that encoding would hand out, before they are read back.
pub open spec fn candidate(m: KeyMaterialView, format: KeyFormatType) -> Result<Seq<u8>, CodecError> {
    match format {
        KeyFormatType::Raw => if m.kind == ObjectKind::SymmetricKey {
            Ok(m.bytes)
        } else {
            Err(CodecError::UnsupportedConversion)
        },
        KeyFormatType::PKCS8 => if m.kind == ObjectKind::PrivateKey {
            Ok(m.bytes)
        } else {
            Err(CodecError::UnsupportedConversion)
        },
        KeyFormatType::SPKI => if m.kind == ObjectKind::PublicKey {
            Ok(m.bytes)
        } else {
            Err(CodecError::UnsupportedConversion)
        },
        KeyFormatType::X509 => if m.kind == ObjectKind::Certificate {
            Ok(m.bytes)
        } else {
            Err(CodecError::UnsupportedConversion)
        },
        KeyFormatType::SEC1 => if m.kind == ObjectKind::PrivateKey && m.algorithm
            == CryptographicAlgorithm::EC && sec1_of(m.bytes) is Some {
            Ok(sec1_of(m.bytes)->0)
        } else {
            Err(CodecError::UnsupportedConversion)
        },
        KeyFormatType::PKCS1 => if m.kind == ObjectKind::PrivateKey && m.algorithm
            == CryptographicAlgorithm::RSA && pkcs1_of(m.bytes) is Some {
            Ok(pkcs1_of(m.bytes)->0)
        } else {
            Err(CodecError::UnsupportedConversion)
        },
        KeyFormatType::PEM => if m.kind != ObjectKind::SymmetricKey && m.bytes.len() <= MAX_INPUT {
            Ok(armored(kind_label(m.kind), m.bytes))
        } else {
            Err(CodecError::UnsupportedConversion)
        },
        _ => Err(CodecError::UnsupportedConversion),
    }
}

/// What material encodes to in a target format: `UnsupportedConversion`
/// where the format cannot represent the material, which includes the case
/// that the bytes, read back, would not give the same material.
pub open spec fn encoded(m: KeyMaterialView, format: KeyFormatType) -> Result<Seq<u8>, CodecError> {
    match candidate(m, format) {
        Err(e) => Err(e),
        Ok(bytes) => if decoded(bytes, format, Some(m.algorithm)) == Ok::<
            KeyMaterialView,
            CodecError,
        >(m) {
            Ok(bytes)
        } else {
            Err(CodecError::UnsupportedConversion)
        },
    }
}

pub(crate) fn algorithm_of(family: KeyFamily) -> (r: Option<CryptographicAlgorithm>)
    ensures
        r == family_algorithm(family),
{
    match family {
        KeyFamily::Rsa => Some(CryptographicAlgorithm::RSA),
        KeyFamily::Ec => Some(CryptographicAlgorithm::EC),
        KeyFamily::Ed25519 => Some(CryptographicAlgorithm::Ed25519),
        KeyFamily::X25519 => Some(CryptographicAlgorithm::X25519),
        KeyFamily::Other => None,
    }
}

fn make_material(
    kind: ObjectKind,
    bytes: Vec<u8>,
    family: KeyFamily,
    bits: u32,
    declared: Option<CryptographicAlgorithm>,
) -> (r: Result<KeyMaterial, CodecError>)
    ensures
        match r {
            Ok(m) => material_of(kind, bytes@, family, bits, declared) == Ok::<
                KeyMaterialView,
                CodecError,
            >(m@),
            Err(e) => material_of(kind, bytes@, family, bits, declared) == Err::<
                KeyMaterialView,
                CodecError,
            >(e),
        },
{
    match algorithm_of(family) {
        None => Err(CodecError::UnsupportedFormat),
        Some(algorithm) => {
            match declared {
                Some(d) => {
                    if d != algorithm {
                        return Err(CodecError::AlgorithmMismatch);
                    }
                },
                None => {},
            }
            Ok(KeyMaterial { kind, algorithm, length: bits as usize, bytes })
        },
    }
}

fn decode_raw(bytes: &[u8], declared: Option<CryptographicAlgorithm>) -> (r: Result<
    KeyMaterial,
    CodecError,
>)
    ensures
        match r {
            Ok(m) => decoded_raw(bytes@, declared) == Ok::<KeyMaterialView, CodecError>(m@),
            Err(e) => decoded_raw(bytes@, declared) == Err::<KeyMaterialView, CodecError>(e),
        },
{
    let algorithm = match declared {
        Some(a) => a,
        None => CryptographicAlgorithm::AES,
    };
    if !algorithm.is_symmetric() {
        return Err(CodecError::AlgorithmMismatch);
    }
    if bytes.len() > usize::MAX / 8 {
        return Err(CodecError::MalformedInput);
    }
    let mut copy: Vec<u8> = Vec::new();
    crate::bytes::append_bytes(&mut copy, bytes);
    assert(copy@ =~= bytes@);
    Ok(KeyMaterial { kind: ObjectKind::SymmetricKey, algorithm, length: bytes.len() * 8, bytes: copy })
}

fn decode_private(der: &[u8], format: KeyFormatType, declared: Option<CryptographicAlgorithm>) -> (r:
    Result<KeyMaterial, CodecError>)
    ensures
        match r {
            Ok(m) => decoded_private(der@, format, declared) == Ok::<KeyMaterialView, CodecError>(
                m@,
            ),
            Err(e) => decoded_private(der@, format, declared) == Err::<KeyMaterialView, CodecError>(
                e,
            ),
        },
{
    let key = match parse_private_key(der) {
        Ok(k) => k,
        Err(_) => {
            return Err(CodecError::MalformedInput);
        },
    };
    let public = match parse_public_key(key.spki.as_slice()) {
        Ok(p) => p,
        Err(_) => {
            return Err(CodecError::MalformedInput);
        },
    };
    match make_material(ObjectKind::PrivateKey, key.pkcs8, public.family, public.bits, declared) {
        Err(e) => Err(e),
        Ok(m) => {
            if (format == KeyFormatType::SEC1 && m.algorithm != CryptographicAlgorithm::EC) || (
            format == KeyFormatType::PKCS1 && m.algorithm != CryptographicAlgorithm::RSA) {
                Err(CodecError::AlgorithmMismatch)
            } else {
                Ok(m)
            }
        },
    }
}

fn decode_public(der: &[u8], declared: Option<CryptographicAlgorithm>) -> (r: Result<
    KeyMaterial,
    CodecError,
>)
    ensures
        match r {
            Ok(m) => decoded_public(der@, declared) == Ok::<KeyMaterialView, CodecError>(m@),
            Err(e) => decoded_public(der@, declared) == Err::<KeyMaterialView, CodecError>(e),
        },
{
    match parse_public_key(der) {
        Err(_) => Err(CodecError::MalformedInput),
        Ok(p) => make_material(ObjectKind::PublicKey, p.spki, p.family, p.bits, declared),
    }
}

fn decode_certificate(der: &[u8], declared: Option<CryptographicAlgorithm>) -> (r: Result<
    KeyMaterial,
    CodecError,
>)
    ensures
        match r {
            Ok(m) => decoded_certificate(der@, declared) == Ok::<KeyMaterialView, CodecError>(m@),
            Err(e) => decoded_certificate(der@, declared) == Err::<KeyMaterialView, CodecError>(e),
        },
{
    let cert = match parse_certificate(der) {
        Ok(c) => c,
        Err(_) => {
            return Err(CodecError::MalformedInput);
        },
    };
    match parse_public_key(cert.spki.as_slice()) {
        Err(_) => Err(CodecError::MalformedInput),
        Ok(p) => make_material(ObjectKind::Certificate, cert.der, p.family, p.bits, declared),
    }
}

fn parse(bytes: &[u8], format: KeyFormatType, declared: Option<CryptographicAlgorithm>) -> (r:
    Result<KeyMaterial, CodecError>)
    ensures
        match r {
            Ok(m) => parsed(bytes@, format, declared) == Ok::<KeyMaterialView, CodecError>(
                m@,
            ),
            Err(e) => parsed(bytes@, format, declared) == Err::<KeyMaterialView, CodecError>(
                e,
            ),
        },
{
    match format {
        KeyFormatType::Raw => decode_raw(bytes, declared),
        KeyFormatType::PKCS8 => decode_private(bytes, format, declared),
        KeyFormatType::SEC1 => decode_private(bytes, format, declared),
        KeyFormatType::PKCS1 => decode_private(bytes, format, declared),
        KeyFormatType::SPKI => decode_public(bytes, declared),
        KeyFormatType::X509 => decode_certificate(bytes, declared),
        _ => Err(CodecError::UnsupportedFormat),
    }
}

/// Reads bytes in one of the binary formats, and reads what came out once
/// more, in the encoding of its kind: what is handed out is in the form
/// in which it is held.
fn decode_binary(bytes: &[u8], format: KeyFormatType, declared: Option<CryptographicAlgorithm>) -> (r:
    Result<KeyMaterial, CodecError>)
    ensures
        match r {
            Ok(m) => decoded_binary(bytes@, format, declared) == Ok::<KeyMaterialView, CodecError>(
                m@,
            ) && m@.canonical(),
            Err(e) => decoded_binary(bytes@, format, declared) == Err::<KeyMaterialView, CodecError>(
                e,
            ),
        },
{
    let m = match parse(bytes, format, declared) {
        Ok(m) => m,
        Err(e) => {
            return Err(e);
        },
    };
    if m.kind == ObjectKind::SymmetricKey {
        proof {
            lemma_raw_is_canonical(bytes@, declared);
        }
        return Ok(m);
    }
    match parse(m.bytes.as_slice(), m.kind.canonical_format(), Some(m.algorithm)) {
        Ok(again) => {
            if again.same(&m) {
                Ok(m)
            } else {
                Err(CodecError::MalformedInput)
            }
        },
        Err(_) => Err(CodecError::MalformedInput),
    }
}

/// The bytes of a symmetric key are in the form in which they are held.
proof fn lemma_raw_is_canonical(bytes: Seq<u8>, declared: Option<CryptographicAlgorithm>)
    requires
        decoded_raw(bytes, declared) is Ok,
    ensures
        decoded_raw(bytes, declared)->Ok_0.canonical(),
{
}

fn format_of_label(label: &[u8]) -> (r: Option<KeyFormatType>)
    ensures
        r == label_format(label@),
{
    if eq_bytes(label, "PRIVATE KEY".as_bytes()) {
        Some(KeyFormatType::PKCS8)
    } else if eq_bytes(label, "EC PRIVATE KEY".as_bytes()) {
        Some(KeyFormatType::SEC1)
    } else if eq_bytes(label, "RSA PRIVATE KEY".as_bytes()) {
        Some(KeyFormatType::PKCS1)
    } else if eq_bytes(label, "PUBLIC KEY".as_bytes()) {
        Some(KeyFormatType::SPKI)
    } else if eq_bytes(label, "CERTIFICATE".as_bytes()) {
        Some(KeyFormatType::X509)
    } else {
        None
    }
}

/// Parses bytes in a declared format into material in the encoding its
/// kind is held in. What comes out was read twice: it is in the form in
/// which it is held.
pub fn decode(bytes: &[u8], declared_format: KeyFormatType, declared_algorithm: Option<
    CryptographicAlgorithm,
>) -> (r: Result<KeyMaterial, CodecError>)
    ensures
        match r {
            Ok(m) => decoded(bytes@, declared_format, declared_algorithm) == Ok::<
                KeyMaterialView,
                CodecError,
            >(m@) && m@.canonical(),
            Err(e) => decoded(bytes@, declared_format, declared_algorithm) == Err::<
                KeyMaterialView,
                CodecError,
            >(e),
        },
{
    match declared_format {
        KeyFormatType::PEM => {
            match unarmor(bytes) {
                None => Err(CodecError::MalformedInput),
                Some((label, der)) => {
                    match format_of_label(label.as_slice()) {
                        None => Err(CodecError::UnsupportedFormat),
                        Some(inner) => decode_binary(der.as_slice(), inner, declared_algorithm),
                    }
                },
            }
        },
        _ => decode_binary(bytes, declared_format, declared_algorithm),
    }
}

fn encode_candidate(material: &KeyMaterial, target_format: KeyFormatType) -> (r: Result<
    Vec<u8>,
    CodecError,
>)
    ensures
        match r {
            Ok(bytes) => candidate(material@, target_format) == Ok::<Seq<u8>, CodecError>(bytes@),
            Err(e) => candidate(material@, target_format) == Err::<Seq<u8>, CodecError>(e),
        },
        r is Ok && target_format == KeyFormatType::PEM ==> unarmored(r->Ok_0@) == Some(
            (kind_label(material.kind), material.bytes@),
        ),
{
    proof {
        lemma_labels(material.kind);
    }
    match target_format {
        KeyFormatType::Raw => {
            if material.kind == ObjectKind::SymmetricKey {
                Ok(material.bytes.clone())
            } else {
                Err(CodecError::UnsupportedConversion)
            }
        },
        KeyFormatType::PKCS8 => {
            if material.kind == ObjectKind::PrivateKey {
                Ok(material.bytes.clone())
            } else {
                Err(CodecError::UnsupportedConversion)
            }
        },
        KeyFormatType::SPKI => {
            if material.kind == ObjectKind::PublicKey {
                Ok(material.bytes.clone())
            } else {
                Err(CodecError::UnsupportedConversion)
            }
        },
        KeyFormatType::X509 => {
            if material.kind == ObjectKind::Certificate {
                Ok(material.bytes.clone())
            } else {
                Err(CodecError::UnsupportedConversion)
            }
        },
        KeyFormatType::SEC1 => {
            if material.kind == ObjectKind::PrivateKey && material.algorithm
                == CryptographicAlgorithm::EC {
                match to_sec1(material.bytes.as_slice()) {
                    Ok(der) => Ok(der),
                    Err(_) => Err(CodecError::UnsupportedConversion),
                }
            } else {
                Err(CodecError::UnsupportedConversion)
            }
        },
        KeyFormatType::PKCS1 => {
            if material.kind == ObjectKind::PrivateKey && material.algorithm
                == CryptographicAlgorithm::RSA {
                match to_pkcs1(material.bytes.as_slice()) {
                    Ok(der) => Ok(der),
                    Err(_) => Err(CodecError::UnsupportedConversion),
                }
            } else {
                Err(CodecError::UnsupportedConversion)
            }
        },
        KeyFormatType::PEM => {
            if material.kind != ObjectKind::SymmetricKey && material.bytes.len() <= MAX_INPUT {
                let label = match material.kind {
                    ObjectKind::PrivateKey => "PRIVATE KEY".as_bytes(),
                    ObjectKind::PublicKey => "PUBLIC KEY".as_bytes(),
                    _ => "CERTIFICATE".as_bytes(),
                };
                Ok(armor(label, material.bytes.as_slice()))
            } else {
                Err(CodecError::UnsupportedConversion)
            }
        },
        _ => Err(CodecError::UnsupportedConversion),
    }
}

/// Writes material in a target format. The bytes are read back before
/// they are handed out, so what comes out decodes to what went in.
pub fn encode(material: &KeyMaterial, target_format: KeyFormatType) -> (r: Result<
    Vec<u8>,
    CodecError,
>)
    ensures
        match r {
            Ok(bytes) => encoded(material@, target_format) == Ok::<Seq<u8>, CodecError>(bytes@),
            Err(e) => encoded(material@, target_format) == Err::<Seq<u8>, CodecError>(e),
        },
        material@.canonical() && target_format == material.kind.spec_canonical_format() ==> r
            is Ok,
        material@.canonical() && target_format == KeyFormatType::PEM && material.kind
            != ObjectKind::SymmetricKey && material.bytes@.len() <= MAX_INPUT ==> r is Ok,
{
    proof {
        if material@.canonical() {
            lemma_canonical_round_trip(material@);
            lemma_labels(material.kind);
        }
    }
    match encode_candidate(material, target_format) {
        Err(e) => Err(e),
        Ok(bytes) => {
            match decode(bytes.as_slice(), target_format, Some(material.algorithm)) {
                Ok(back) => {
                    if back.same(material) {
                        Ok(bytes)
                    } else {
                        Err(CodecError::UnsupportedConversion)
                    }
                },
                Err(_) => Err(CodecError::UnsupportedConversion),
            }
        },
    }
}

/// Decoding what was encoded gives the material back, in every format that
/// can represent it.
pub proof fn lemma_round_trip(m: KeyMaterialView, format: KeyFormatType)
    requires
        encoded(m, format) is Ok,
    ensures
        decoded(encoded(m, format)->Ok_0, format, Some(m.algorithm)) == Ok::<
            KeyMaterialView,
            CodecError,
        >(m),
        format != KeyFormatType::Raw ==> decoded(encoded(m, format)->Ok_0, format, None) == Ok::<
            KeyMaterialView,
            CodecError,
        >(m),
{
}

/// The bytes of a symmetric key come out as they are, and decode to the
/// key: for such material encoding never fails.
pub proof fn lemma_raw_round_trip(m: KeyMaterialView)
    requires
        m.kind == ObjectKind::SymmetricKey,
        m.algorithm.spec_is_symmetric(),
        m.length == m.bytes.len() * 8,
    ensures
        encoded(m, KeyFormatType::Raw) == Ok::<Seq<u8>, CodecError>(m.bytes),
        decoded(m.bytes, KeyFormatType::Raw, Some(m.algorithm)) == Ok::<KeyMaterialView, CodecError>(
            m,
        ),
{
}

/// A symmetric key has no encoding but its bytes; a certificate is no key.
pub proof fn lemma_unsupported_conversions(m: KeyMaterialView, format: KeyFormatType)
    ensures
        m.kind == ObjectKind::SymmetricKey && format != KeyFormatType::Raw ==> encoded(m, format)
            == Err::<Seq<u8>, CodecError>(CodecError::UnsupportedConversion),
        m.kind != ObjectKind::SymmetricKey && format == KeyFormatType::Raw ==> encoded(m, format)
            == Err::<Seq<u8>, CodecError>(CodecError::UnsupportedConversion),
        format == KeyFormatType::PKCS12 || format == KeyFormatType::JsonInterchange ==> encoded(
            m,
            format,
        ) == Err::<Seq<u8>, CodecError>(CodecError::UnsupportedConversion),
{
}

/// What a PKCS#12 archive decodes to: the private key, and the
/// certificates that came with it.
pub struct Pkcs12Material {
    pub private_key: KeyMaterial,
    /// The certificate of the key, in X.509.
    pub certificate: Option<Vec<u8>>,
    /// The certificates of the signers, in X.509.
    pub chain: Vec<Vec<u8>>,
}

/// What a PKCS#12 archive decodes to under a passphrase: `MalformedInput`
/// where the bytes are no archive, `AuthenticationFailed` where it does
/// not open under the passphrase, `UnsupportedFormat` where it holds no
/// private key.
pub open spec fn decoded_pkcs12(bytes: Seq<u8>, passphrase: Seq<char>) -> Result<
    (KeyMaterialView, Option<Seq<u8>>, Seq<Seq<u8>>),
    CodecError,
> {
    if passphrase.contains('\0') {
        Err(CodecError::AuthenticationFailed)
    } else {
        match pkcs12_opened(bytes, passphrase) {
            Err(Pkcs12Failure::Malformed) => Err(CodecError::MalformedInput),
            Err(Pkcs12Failure::Refused) => Err(CodecError::AuthenticationFailed),
            Ok(contents) => match contents.private_key {
                None => Err(CodecError::UnsupportedFormat),
                Some(pkcs8) => match decoded(pkcs8, KeyFormatType::PKCS8, None) {
                    Err(e) => Err(e),
                    Ok(m) => Ok((m, contents.certificate, contents.chain)),
                },
            },
        }
    }
}

fn has_nul(text: &str) -> (r: bool)
    ensures
        r == text@.contains('\0'),
{
    let n = text.unicode_len();
    let mut i: usize = 0;
    while i < n
        invariant
            i <= n,
            n == text@.len(),
            forall|j: int| 0 <= j < i ==> text@[j] != '\0',
        decreases n - i,
    {
        if text.get_char(i) == '\0' {
            return true;
        }
        i += 1;
    }
    false
}

/// Opens a PKCS#12 archive under a passphrase; none is the empty one. A
/// wrong passphrase is `AuthenticationFailed`.
pub fn decode_pkcs12(bytes: &[u8], passphrase: Option<&str>) -> (r: Result<Pkcs12Material, CodecError>)
    ensures
        match r {
            Ok(m) => decoded_pkcs12(
                bytes@,
                match passphrase {
                    Some(p) => p@,
                    None => Seq::empty(),
                },
            ) == Ok::<(KeyMaterialView, Option<Seq<u8>>, Seq<Seq<u8>>), CodecError>(
                (
                    m.private_key@,
                    match m.certificate {
                        Some(c) => Some(c@),
                        None => None,
                    },
                    m.chain@.map_values(|c: Vec<u8>| c@),
                ),
            ),
            Err(e) => decoded_pkcs12(
                bytes@,
                match passphrase {
                    Some(p) => p@,
                    None => Seq::empty(),
                },
            ) == Err::<(KeyMaterialView, Option<Seq<u8>>, Seq<Seq<u8>>), CodecError>(e),
        },
{
    let empty = String::new();
    let pass: &str = match passphrase {
        Some(p) => p,
        None => empty.as_str(),
    };
    if has_nul(pass) {
        return Err(CodecError::AuthenticationFailed);
    }
    match open_pkcs12(bytes, pass) {
        Err(Pkcs12Failure::Malformed) => Err(CodecError::MalformedInput),
        Err(Pkcs12Failure::Refused) => Err(CodecError::AuthenticationFailed),
        Ok(contents) => {
            match contents.private_key {
                None => Err(CodecError::UnsupportedFormat),
                Some(pkcs8) => {
                    match decode(pkcs8.as_slice(), KeyFormatType::PKCS8, None) {
                        Err(e) => Err(e),
                        Ok(private_key) => Ok(
                            Pkcs12Material {
                                private_key,
                                certificate: contents.certificate,
                                chain: contents.chain,
                            },
                        ),
                    }
                },
            }
        },
    }
}

/// The labels under which material is armoured hold no line end, and each
/// announces the encoding in which its kind is held.
pub proof fn lemma_labels(kind: ObjectKind)
    ensures
        !kind_label(kind).contains(10u8),
        kind != ObjectKind::SymmetricKey ==> label_format(kind_label(kind)) == Some(
            kind.spec_canonical_format(),
        ),
{
    reveal_strlit("PRIVATE KEY");
    reveal_strlit("EC PRIVATE KEY");
    reveal_strlit("RSA PRIVATE KEY");
    reveal_strlit("PUBLIC KEY");
    reveal_strlit("CERTIFICATE");
    is_ascii_spec_bytes("PRIVATE KEY");
    is_ascii_spec_bytes("EC PRIVATE KEY");
    is_ascii_spec_bytes("RSA PRIVATE KEY");
    is_ascii_spec_bytes("PUBLIC KEY");
    is_ascii_spec_bytes("CERTIFICATE");
    assert(vstd::string::is_ascii("PRIVATE KEY"));
    assert(vstd::string::is_ascii("EC PRIVATE KEY"));
    assert(vstd::string::is_ascii("RSA PRIVATE KEY"));
    assert(vstd::string::is_ascii("PUBLIC KEY"));
    assert(vstd::string::is_ascii("CERTIFICATE"));
    let private = label_private();
    let certificate = label_certificate();
    assert(private[0] != certificate[0]);
    let label = kind_label(kind);
    assert forall|i: int| 0 <= i < label.len() implies label[i] != 10u8 by {}
    if label.contains(10u8) {
        let i = choose|i: int| 0 <= i < label.len() && label[i] == 10u8;
        assert(label[i] != 10u8);
    }
}

/// Material in the form in which it is held decodes from its own bytes,
/// and encodes to them in the encoding of its kind.
pub proof fn lemma_canonical_round_trip(m: KeyMaterialView)
    requires
        m.canonical(),
    ensures
        decoded(m.bytes, m.kind.spec_canonical_format(), Some(m.algorithm)) == Ok::<
            KeyMaterialView,
            CodecError,
        >(m),
        encoded(m, m.kind.spec_canonical_format()) == Ok::<Seq<u8>, CodecError>(m.bytes),
{
}

} // verus!
