//! The cryptographic object model: keys, key pairs and certificates, with
//! their attributes and links, and the consistency check on them.

use vstd::prelude::*;
use crate::bytes::eq_bytes;
use crate::codec::{KeyMaterial, KeyMaterialView, decode, decoded, encode, encoded};
use crate::crypto::{certificate_of, parse_certificate};
use crate::error::{CodecError, ObjectError};

verus! {

/// The four kinds of object that the service holds.
#[derive(Clone, Copy, Debug, PartialEq, Eq, Structural)]
pub enum ObjectKind {
    SymmetricKey,
    PrivateKey,
    PublicKey,
    Certificate,
}

/// The algorithm a key is for.
#[derive(Clone, Copy, Debug, PartialEq, Eq, Structural)]
pub enum CryptographicAlgorithm {
    AES,
    ChaCha20,
    SHA3224,
    SHA3256,
    SHA3384,
    SHA3512,
    SHAKE128,
    SHAKE256,
    RSA,
    EC,
    Ed25519,
    X25519,
    MlKem,
}

/// The encoding in which key bytes are written.
#[derive(Clone, Copy, Debug, PartialEq, Eq, Structural)]
pub enum KeyFormatType {
    /// The bytes of a symmetric key, as they are.
    Raw,
    /// A textual armour around one of the binary encodings.
    PEM,
    /// An elliptic curve private key.
    SEC1,
    /// An RSA private or public key.
    PKCS1,
    /// A private key of any algorithm.
    PKCS8,
    /// A public key of any algorithm.
    SPKI,
    /// A private key with its certificate chain, under a passphrase.
    PKCS12,
    /// A certificate.
    X509,
    /// The self-describing form in which a whole object travels.
    JsonInterchange,
}

/// How a payload was wrapped.
#[derive(Clone, Copy, Debug, PartialEq, Eq, Structural)]
pub enum WrappingAlgorithm {
    /// Authenticated encryption under a 256-bit symmetric key.
    Aes256Gcm,
    /// Encryption to an RSA public key with OAEP padding.
    RsaOaep,
    /// Key agreement with a one-time key, then authenticated encryption.
    Ecies,
}

impl CryptographicAlgorithm {
    /// Whether keys of this algorithm are symmetric keys.
    pub open spec fn spec_is_symmetric(self) -> bool {
        match self {
            CryptographicAlgorithm::RSA => false,
            CryptographicAlgorithm::EC => false,
            CryptographicAlgorithm::Ed25519 => false,
            CryptographicAlgorithm::X25519 => false,
            CryptographicAlgorithm::MlKem => false,
            _ => true,
        }
    }

    #[verifier::when_used_as_spec(spec_is_symmetric)]
    pub fn is_symmetric(self) -> (r: bool)
        ensures
            r == self.spec_is_symmetric(),
    {
        match self {
            CryptographicAlgorithm::RSA => false,
            CryptographicAlgorithm::EC => false,
            CryptographicAlgorithm::Ed25519 => false,
            CryptographicAlgorithm::X25519 => false,
            CryptographicAlgorithm::MlKem => false,
            _ => true,
        }
    }

    /// The key lengths, in bits, that the algorithm admits.
    pub open spec fn spec_admits_length(self, bits: int) -> bool {
        match self {
            CryptographicAlgorithm::AES => bits == 128 || bits == 192 || bits == 256,
            CryptographicAlgorithm::ChaCha20 => bits == 256,
            CryptographicAlgorithm::SHA3224 => bits == 224,
            CryptographicAlgorithm::SHA3256 => bits == 256,
            CryptographicAlgorithm::SHA3384 => bits == 384,
            CryptographicAlgorithm::SHA3512 => bits == 512,
            CryptographicAlgorithm::SHAKE128 => bits == 128,
            CryptographicAlgorithm::SHAKE256 => bits == 256,
            CryptographicAlgorithm::RSA => bits == 2048 || bits == 3072 || bits == 4096,
            CryptographicAlgorithm::EC => bits == 192 || bits == 224 || bits == 256 || bits == 384
                || bits == 521,
            CryptographicAlgorithm::Ed25519 => bits == 256,
            CryptographicAlgorithm::X25519 => bits == 253 || bits == 256,
            CryptographicAlgorithm::MlKem => bits == 512 || bits == 768 || bits == 1024,
        }
    }

    pub fn admits_length(self, bits: usize) -> (r: bool)
        ensures
            r == self.spec_admits_length(bits as int),
    {
        match self {
            CryptographicAlgorithm::AES => bits == 128 || bits == 192 || bits == 256,
            CryptographicAlgorithm::ChaCha20 => bits == 256,
            CryptographicAlgorithm::SHA3224 => bits == 224,
            CryptographicAlgorithm::SHA3256 => bits == 256,
            CryptographicAlgorithm::SHA3384 => bits == 384,
            CryptographicAlgorithm::SHA3512 => bits == 512,
            CryptographicAlgorithm::SHAKE128 => bits == 128,
            CryptographicAlgorithm::SHAKE256 => bits == 256,
            CryptographicAlgorithm::RSA => bits == 2048 || bits == 3072 || bits == 4096,
            CryptographicAlgorithm::EC => bits == 192 || bits == 224 || bits == 256 || bits == 384
                || bits == 521,
            CryptographicAlgorithm::Ed25519 => bits == 256,
            CryptographicAlgorithm::X25519 => bits == 253 || bits == 256,
            CryptographicAlgorithm::MlKem => bits == 512 || bits == 768 || bits == 1024,
        }
    }
}

impl ObjectKind {
    /// The encoding in which material of this kind is held. An RSA
    /// private key is held in PKCS#1 as well, where it came in that.
    pub open spec fn spec_canonical_format(self) -> KeyFormatType {
        match self {
            ObjectKind::SymmetricKey => KeyFormatType::Raw,
            ObjectKind::PrivateKey => KeyFormatType::PKCS8,
            ObjectKind::PublicKey => KeyFormatType::SPKI,
            ObjectKind::Certificate => KeyFormatType::X509,
        }
    }

    #[verifier::when_used_as_spec(spec_canonical_format)]
    pub fn canonical_format(self) -> (r: KeyFormatType)
        ensures
            r == self.spec_canonical_format(),
    {
        match self {
            ObjectKind::SymmetricKey => KeyFormatType::Raw,
            ObjectKind::PrivateKey => KeyFormatType::PKCS8,
            ObjectKind::PublicKey => KeyFormatType::SPKI,
            ObjectKind::Certificate => KeyFormatType::X509,
        }
    }

    /// Whether an algorithm can belong to an object of this kind. A
    /// certificate carries the algorithm of the public key it certifies.
    pub open spec fn spec_admits_algorithm(self, algorithm: CryptographicAlgorithm) -> bool {
        match self {
            ObjectKind::SymmetricKey => algorithm.spec_is_symmetric(),
            _ => !algorithm.spec_is_symmetric(),
        }
    }

    #[verifier::when_used_as_spec(spec_admits_algorithm)]
    pub fn admits_algorithm(self, algorithm: CryptographicAlgorithm) -> (r: bool)
        ensures
            r == self.spec_admits_algorithm(algorithm),
    {
        match self {
            ObjectKind::SymmetricKey => algorithm.is_symmetric(),
            _ => !algorithm.is_symmetric(),
        }
    }
}

/// What is recorded about a wrapped payload: under which key it was wrapped
/// and how, the values needed to undo it, and the format the plaintext had.
pub struct KeyWrappingData {
    /// The identifier of the wrapping key, or of the certificate.
    pub wrapping_key_id: String,
    pub algorithm: WrappingAlgorithm,
    /// The nonce of the authenticated encryption.
    pub nonce: Vec<u8>,
    /// The integrity tag over the ciphertext.
    pub tag: Vec<u8>,
    /// What the recipient needs besides its key: the one-time public key
    /// of a key agreement; empty otherwise.
    pub encapsulation: Vec<u8>,
    /// The format type of the plaintext material.
    pub original_format: KeyFormatType,
}

pub struct KeyWrappingDataView {
    pub wrapping_key_id: Seq<char>,
    pub algorithm: WrappingAlgorithm,
    pub nonce: Seq<u8>,
    pub tag: Seq<u8>,
    pub encapsulation: Seq<u8>,
    pub original_format: KeyFormatType,
}

impl View for KeyWrappingData {
    type V = KeyWrappingDataView;

    open spec fn view(&self) -> KeyWrappingDataView {
        KeyWrappingDataView {
            wrapping_key_id: self.wrapping_key_id@,
            algorithm: self.algorithm,
            nonce: self.nonce@,
            tag: self.tag@,
            encapsulation: self.encapsulation@,
            original_format: self.original_format,
        }
    }
}

impl Clone for KeyWrappingData {
    fn clone(&self) -> (r: Self)
        ensures
            r@ == self@,
    {
        KeyWrappingData {
            wrapping_key_id: self.wrapping_key_id.clone(),
            algorithm: self.algorithm,
            nonce: self.nonce.clone(),
            tag: self.tag.clone(),
            encapsulation: self.encapsulation.clone(),
            original_format: self.original_format,
        }
    }
}

/// The material of a key with what describes it.
pub struct KeyBlock {
    pub key_format_type: KeyFormatType,
    /// The key bytes in `key_format_type`, or the ciphertext when
    /// `key_wrapping_data` is present.
    pub key_material: Vec<u8>,
    pub cryptographic_algorithm: Option<CryptographicAlgorithm>,
    /// The length of the key in bits.
    pub cryptographic_length: Option<usize>,
    pub key_wrapping_data: Option<KeyWrappingData>,
}

pub struct KeyBlockView {
    pub key_format_type: KeyFormatType,
    pub key_material: Seq<u8>,
    pub cryptographic_algorithm: Option<CryptographicAlgorithm>,
    pub cryptographic_length: Option<usize>,
    pub key_wrapping_data: Option<KeyWrappingDataView>,
}

impl View for KeyBlock {
    type V = KeyBlockView;

    open spec fn view(&self) -> KeyBlockView {
        KeyBlockView {
            key_format_type: self.key_format_type,
            key_material: self.key_material@,
            cryptographic_algorithm: self.cryptographic_algorithm,
            cryptographic_length: self.cryptographic_length,
            key_wrapping_data: match self.key_wrapping_data {
                Some(w) => Some(w@),
                None => None,
            },
        }
    }
}

impl Clone for KeyBlock {
    fn clone(&self) -> (r: Self)
        ensures
            r@ == self@,
    {
        KeyBlock {
            key_format_type: self.key_format_type,
            key_material: self.key_material.clone(),
            cryptographic_algorithm: self.cryptographic_algorithm,
            cryptographic_length: self.cryptographic_length,
            key_wrapping_data: match &self.key_wrapping_data {
                Some(w) => Some(w.clone()),
                None => None,
            },
        }
    }
}

/// A cryptographic object.
pub enum Object {
    SymmetricKey { key_block: KeyBlock },
    PrivateKey { key_block: KeyBlock },
    PublicKey { key_block: KeyBlock },
    Certificate {
        /// The certificate in its binary encoding.
        certificate_value: Vec<u8>,
        /// The encoded name of the holder.
        subject: Vec<u8>,
        /// The encoded name of the signer.
        issuer: Vec<u8>,
    },
}

pub enum ObjectView {
    SymmetricKey { key_block: KeyBlockView },
    PrivateKey { key_block: KeyBlockView },
    PublicKey { key_block: KeyBlockView },
    Certificate { certificate_value: Seq<u8>, subject: Seq<u8>, issuer: Seq<u8> },
}

impl View for Object {
    type V = ObjectView;

    open spec fn view(&self) -> ObjectView {
        match self {
            Object::SymmetricKey { key_block } => ObjectView::SymmetricKey { key_block: key_block@ },
            Object::PrivateKey { key_block } => ObjectView::PrivateKey { key_block: key_block@ },
            Object::PublicKey { key_block } => ObjectView::PublicKey { key_block: key_block@ },
            Object::Certificate { certificate_value, subject, issuer } => ObjectView::Certificate {
                certificate_value: certificate_value@,
                subject: subject@,
                issuer: issuer@,
            },
        }
    }
}

impl Clone for Object {
    fn clone(&self) -> (r: Self)
        ensures
            r@ == self@,
    {
        match self {
            Object::SymmetricKey { key_block } => Object::SymmetricKey { key_block: key_block.clone() },
            Object::PrivateKey { key_block } => Object::PrivateKey { key_block: key_block.clone() },
            Object::PublicKey { key_block } => Object::PublicKey { key_block: key_block.clone() },
            Object::Certificate { certificate_value, subject, issuer } => Object::Certificate {
                certificate_value: certificate_value.clone(),
                subject: subject.clone(),
                issuer: issuer.clone(),
            },
        }
    }
}

impl ObjectView {
    pub open spec fn kind(self) -> ObjectKind {
        match self {
            ObjectView::SymmetricKey { .. } => ObjectKind::SymmetricKey,
            ObjectView::PrivateKey { .. } => ObjectKind::PrivateKey,
            ObjectView::PublicKey { .. } => ObjectKind::PublicKey,
            ObjectView::Certificate { .. } => ObjectKind::Certificate,
        }
    }

    /// The key block of a key; a certificate has none.
    pub open spec fn key_block(self) -> Option<KeyBlockView> {
        match self {
            ObjectView::SymmetricKey { key_block } => Some(key_block),
            ObjectView::PrivateKey { key_block } => Some(key_block),
            ObjectView::PublicKey { key_block } => Some(key_block),
            ObjectView::Certificate { .. } => None,
        }
    }

    /// An object is wrapped when its key block carries wrapping metadata:
    /// its material is then ciphertext.
    pub open spec fn is_wrapped(self) -> bool {
        match self.key_block() {
            Some(b) => b.key_wrapping_data is Some,
            None => false,
        }
    }

    /// The format type in which the object's bytes are written.
    pub open spec fn format(self) -> KeyFormatType {
        match self.key_block() {
            Some(b) => b.key_format_type,
            None => KeyFormatType::X509,
        }
    }

    /// The bytes of the object: key material, ciphertext or certificate.
    pub open spec fn bytes(self) -> Seq<u8> {
        match self {
            ObjectView::SymmetricKey { key_block } => key_block.key_material,
            ObjectView::PrivateKey { key_block } => key_block.key_material,
            ObjectView::PublicKey { key_block } => key_block.key_material,
            ObjectView::Certificate { certificate_value, .. } => certificate_value,
        }
    }
}

/// The identifiers of the objects an object is tied to.
pub struct Links {
    pub private_key_id: Option<String>,
    pub public_key_id: Option<String>,
    pub certificate_id: Option<String>,
    /// For a certificate, the certificate of its signer.
    pub issuer_certificate_id: Option<String>,
}

pub struct LinksView {
    pub private_key_id: Option<Seq<char>>,
    pub public_key_id: Option<Seq<char>>,
    pub certificate_id: Option<Seq<char>>,
    pub issuer_certificate_id: Option<Seq<char>>,
}

pub open spec fn opt_string_view(s: Option<String>) -> Option<Seq<char>> {
    match s {
        Some(v) => Some(v@),
        None => None,
    }
}

pub fn clone_opt_string(s: &Option<String>) -> (r: Option<String>)
    ensures
        opt_string_view(r) == opt_string_view(*s),
{
    match s {
        Some(v) => Some(v.clone()),
        None => None,
    }
}

impl View for Links {
    type V = LinksView;

    open spec fn view(&self) -> LinksView {
        LinksView {
            private_key_id: opt_string_view(self.private_key_id),
            public_key_id: opt_string_view(self.public_key_id),
            certificate_id: opt_string_view(self.certificate_id),
            issuer_certificate_id: opt_string_view(self.issuer_certificate_id),
        }
    }
}

impl LinksView {
    pub open spec fn none() -> LinksView {
        LinksView {
            private_key_id: None,
            public_key_id: None,
            certificate_id: None,
            issuer_certificate_id: None,
        }
    }

    /// Whether an object of the given kind can carry these links: no object
    /// links to another of its own kind, but a certificate to its signer's;
    /// a symmetric key links to nothing.
    pub open spec fn fits(self, kind: ObjectKind) -> bool {
        match kind {
            ObjectKind::SymmetricKey => self == LinksView::none(),
            ObjectKind::PrivateKey => self.private_key_id is None
                && self.issuer_certificate_id is None,
            ObjectKind::PublicKey => self.public_key_id is None
                && self.issuer_certificate_id is None,
            ObjectKind::Certificate => self.certificate_id is None,
        }
    }
}

impl Links {
    pub fn none() -> (r: Links)
        ensures
            r@ == LinksView::none(),
    {
        Links {
            private_key_id: None,
            public_key_id: None,
            certificate_id: None,
            issuer_certificate_id: None,
        }
    }

    pub fn fits(&self, kind: ObjectKind) -> (r: bool)
        ensures
            r == self@.fits(kind),
    {
        match kind {
            ObjectKind::SymmetricKey => self.private_key_id.is_none()
                && self.public_key_id.is_none() && self.certificate_id.is_none()
                && self.issuer_certificate_id.is_none(),
            ObjectKind::PrivateKey => self.private_key_id.is_none()
                && self.issuer_certificate_id.is_none(),
            ObjectKind::PublicKey => self.public_key_id.is_none()
                && self.issuer_certificate_id.is_none(),
            ObjectKind::Certificate => self.certificate_id.is_none(),
        }
    }
}

impl Clone for Links {
    fn clone(&self) -> (r: Self)
        ensures
            r@ == self@,
    {
        Links {
            private_key_id: clone_opt_string(&self.private_key_id),
            public_key_id: clone_opt_string(&self.public_key_id),
            certificate_id: clone_opt_string(&self.certificate_id),
            issuer_certificate_id: clone_opt_string(&self.issuer_certificate_id),
        }
    }
}

/// The structured metadata kept with an object.
pub struct Attributes {
    pub object_type: ObjectKind,
    pub key_format_type: KeyFormatType,
    pub cryptographic_algorithm: Option<CryptographicAlgorithm>,
    pub cryptographic_length: Option<usize>,
    /// The operations the key is meant for, one bit each.
    pub cryptographic_usage_mask: u32,
    pub links: Links,
}

pub struct AttributesView {
    pub object_type: ObjectKind,
    pub key_format_type: KeyFormatType,
    pub cryptographic_algorithm: Option<CryptographicAlgorithm>,
    pub cryptographic_length: Option<usize>,
    pub cryptographic_usage_mask: u32,
    pub links: LinksView,
}

impl View for Attributes {
    type V = AttributesView;

    open spec fn view(&self) -> AttributesView {
        AttributesView {
            object_type: self.object_type,
            key_format_type: self.key_format_type,
            cryptographic_algorithm: self.cryptographic_algorithm,
            cryptographic_length: self.cryptographic_length,
            cryptographic_usage_mask: self.cryptographic_usage_mask,
            links: self.links@,
        }
    }
}

impl Clone for Attributes {
    fn clone(&self) -> (r: Self)
        ensures
            r@ == self@,
    {
        Attributes {
            object_type: self.object_type,
            key_format_type: self.key_format_type,
            cryptographic_algorithm: self.cryptographic_algorithm,
            cryptographic_length: self.cryptographic_length,
            cryptographic_usage_mask: self.cryptographic_usage_mask,
            links: self.links.clone(),
        }
    }
}

impl AttributesView {
    /// The attributes that an object determines, with the given usage mask
    /// and links.
    pub open spec fn of(object: ObjectView, usage_mask: u32, links: LinksView) -> AttributesView {
        AttributesView {
            object_type: object.kind(),
            key_format_type: object.format(),
            cryptographic_algorithm: match object.key_block() {
                Some(b) => b.cryptographic_algorithm,
                None => None,
            },
            cryptographic_length: match object.key_block() {
                Some(b) => b.cryptographic_length,
                None => None,
            },
            cryptographic_usage_mask: usage_mask,
            links,
        }
    }

    /// Whether the attributes agree with the object they are kept with.
    pub open spec fn describes(self, object: ObjectView) -> bool {
        self == AttributesView::of(object, self.cryptographic_usage_mask, self.links)
    }
}

impl KeyBlockView {
    /// Whether the format is one in which plain material of the kind is
    /// held: the encoding of the kind, or, for an RSA private key, PKCS#1.
    pub open spec fn held_in(self, kind: ObjectKind) -> bool {
        self.key_format_type == kind.spec_canonical_format() || (kind == ObjectKind::PrivateKey
            && self.key_format_type == KeyFormatType::PKCS1 && self.cryptographic_algorithm
            == Some(CryptographicAlgorithm::RSA))
    }

    /// Whether the bytes of a plain asymmetric key are what its format
    /// type says: they decode to a key of the kind, algorithm and length,
    /// and are the encoding of that key in the format.
    pub open spec fn well_encoded(self, kind: ObjectKind) -> bool {
        &&& self.cryptographic_algorithm is Some
        &&& self.cryptographic_length is Some
        &&& if kind == ObjectKind::PrivateKey && self.key_format_type == KeyFormatType::PKCS1 {
            match decoded(self.key_material, KeyFormatType::PKCS1, self.cryptographic_algorithm) {
                Ok(m) => m.kind == kind && m.algorithm == self.cryptographic_algorithm->0
                    && m.length == self.cryptographic_length->0 && encoded(
                    m,
                    KeyFormatType::PKCS1,
                ) == Ok::<Seq<u8>, CodecError>(self.key_material),
                Err(_) => false,
            }
        } else {
            decoded(self.key_material, self.key_format_type, self.cryptographic_algorithm) == Ok::<
                KeyMaterialView,
                CodecError,
            >(
                KeyMaterialView {
                    kind,
                    algorithm: self.cryptographic_algorithm->0,
                    length: self.cryptographic_length->0,
                    bytes: self.key_material,
                },
            )
        }
    }

    /// The first reason, if any, for which a key block of the given kind is
    /// inconsistent.
    pub open spec fn defect(self, kind: ObjectKind) -> Option<ObjectError> {
        if self.key_wrapping_data is None && !self.held_in(kind) {
            Some(ObjectError::FormatMismatch)
        } else if self.cryptographic_algorithm is None {
            Some(ObjectError::AlgorithmMismatch)
        } else if !kind.spec_admits_algorithm(self.cryptographic_algorithm->0) {
            Some(ObjectError::AlgorithmMismatch)
        } else if self.cryptographic_length is None {
            Some(ObjectError::LengthMismatch)
        } else if !self.cryptographic_algorithm->0.spec_admits_length(
            self.cryptographic_length->0 as int,
        ) {
            Some(ObjectError::LengthMismatch)
        } else if kind == ObjectKind::SymmetricKey && self.key_wrapping_data is None
            && self.key_material.len() * 8 != self.cryptographic_length->0 {
            Some(ObjectError::LengthMismatch)
        } else if self.key_wrapping_data is Some
            && self.key_wrapping_data->0.original_format != self.key_format_type {
            Some(ObjectError::InvalidWrapping)
        } else {
            None
        }
    }
}

impl ObjectView {
    /// The first reason, if any, for which the object with its attributes
    /// is inconsistent.
    pub open spec fn defect(self, attributes: AttributesView) -> Option<ObjectError> {
        let block_defect = match self.key_block() {
            Some(b) => b.defect(self.kind()),
            None => None,
        };
        if block_defect is Some {
            block_defect
        } else if attributes.object_type != self.kind() {
            Some(ObjectError::FormatMismatch)
        } else if attributes.key_format_type != self.format() {
            Some(ObjectError::FormatMismatch)
        } else if self.key_block() is Some && attributes.cryptographic_algorithm
            != self.key_block()->0.cryptographic_algorithm {
            Some(ObjectError::AlgorithmMismatch)
        } else if self.key_block() is Some && attributes.cryptographic_length
            != self.key_block()->0.cryptographic_length {
            Some(ObjectError::LengthMismatch)
        } else if !attributes.links.fits(self.kind()) {
            Some(ObjectError::InvalidLink)
        } else if self.ill_encoded() {
            Some(ObjectError::FormatMismatch)
        } else {
            None
        }
    }

    /// Whether the bytes of the object are not what its format type says:
    /// a certificate whose bytes do not read as a certificate with its
    /// subject and issuer, or a plain asymmetric key whose bytes do not
    /// decode to a key of its kind, algorithm and length. Ciphertext and
    /// the bytes of a symmetric key have no encoding to check.
    pub open spec fn ill_encoded(self) -> bool {
        match self {
            ObjectView::Certificate { certificate_value, subject, issuer } => match (
                decoded(certificate_value, KeyFormatType::X509, None),
                certificate_of(certificate_value),
            ) {
                (Ok(m), Some((_, s, i, _))) => !(m.bytes == certificate_value && s == subject && i
                    == issuer),
                _ => true,
            },
            ObjectView::SymmetricKey { .. } => false,
            _ => {
                let b = self.key_block()->0;
                b.key_wrapping_data is None && !b.well_encoded(self.kind())
            },
        }
    }
}

impl KeyBlock {
    /// Checks a key block that belongs to an object of the given kind.
    pub fn validate(&self, kind: ObjectKind) -> (r: Result<(), ObjectError>)
        ensures
            r is Ok <==> self@.defect(kind) is None,
            r is Err ==> Some(r->Err_0) == self@.defect(kind),
    {
        if self.key_wrapping_data.is_none() && self.key_format_type != kind.canonical_format() {
            let rsa = match self.cryptographic_algorithm {
                Some(a) => a == CryptographicAlgorithm::RSA,
                None => false,
            };
            if !(kind == ObjectKind::PrivateKey && self.key_format_type == KeyFormatType::PKCS1
                && rsa) {
                return Err(ObjectError::FormatMismatch);
            }
        }
        let algorithm = match self.cryptographic_algorithm {
            Some(a) => a,
            None => {
                return Err(ObjectError::AlgorithmMismatch);
            },
        };
        if !kind.admits_algorithm(algorithm) {
            return Err(ObjectError::AlgorithmMismatch);
        }
        let bits: usize = match self.cryptographic_length {
            Some(l) => l,
            None => {
                return Err(ObjectError::LengthMismatch);
            },
        };
        if !algorithm.admits_length(bits) {
            return Err(ObjectError::LengthMismatch);
        }
        if kind == ObjectKind::SymmetricKey && self.key_wrapping_data.is_none() {
            // an admitted length is at most 4096, so the material of a
            // consistent key is short
            if self.key_material.len() > 512 || self.key_material.len() * 8 != bits {
                return Err(ObjectError::LengthMismatch);
            }
        }
        match &self.key_wrapping_data {
            Some(w) => {
                if w.original_format != self.key_format_type {
                    return Err(ObjectError::InvalidWrapping);
                }
            },
            None => {},
        }
        Ok(())
    }
}

impl Object {
    pub fn kind(&self) -> (r: ObjectKind)
        ensures
            r == self@.kind(),
    {
        match self {
            Object::SymmetricKey { .. } => ObjectKind::SymmetricKey,
            Object::PrivateKey { .. } => ObjectKind::PrivateKey,
            Object::PublicKey { .. } => ObjectKind::PublicKey,
            Object::Certificate { .. } => ObjectKind::Certificate,
        }
    }

    pub fn key_block(&self) -> (r: Option<&KeyBlock>)
        ensures
            match r {
                Some(b) => self@.key_block() == Some(b@),
                None => self@.key_block() is None,
            },
    {
        match self {
            Object::SymmetricKey { key_block } => Some(key_block),
            Object::PrivateKey { key_block } => Some(key_block),
            Object::PublicKey { key_block } => Some(key_block),
            Object::Certificate { .. } => None,
        }
    }

    /// The bytes of the object: key material, ciphertext or certificate.
    pub fn bytes(&self) -> (r: &Vec<u8>)
        ensures
            r@ == self@.bytes(),
    {
        match self {
            Object::SymmetricKey { key_block } => &key_block.key_material,
            Object::PrivateKey { key_block } => &key_block.key_material,
            Object::PublicKey { key_block } => &key_block.key_material,
            Object::Certificate { certificate_value, .. } => certificate_value,
        }
    }

    pub fn is_wrapped(&self) -> (r: bool)
        ensures
            r == self@.is_wrapped(),
    {
        match self.key_block() {
            Some(b) => b.key_wrapping_data.is_some(),
            None => false,
        }
    }

    pub fn format(&self) -> (r: KeyFormatType)
        ensures
            r == self@.format(),
    {
        match self.key_block() {
            Some(b) => b.key_format_type,
            None => KeyFormatType::X509,
        }
    }

    /// The attributes that this object determines.
    pub fn attributes(&self, usage_mask: u32, links: Links) -> (r: Attributes)
        ensures
            r@ == AttributesView::of(self@, usage_mask, links@),
    {
        let (algorithm, length) = match self.key_block() {
            Some(b) => (b.cryptographic_algorithm, b.cryptographic_length),
            None => (None, None),
        };
        Attributes {
            object_type: self.kind(),
            key_format_type: self.format(),
            cryptographic_algorithm: algorithm,
            cryptographic_length: length,
            cryptographic_usage_mask: usage_mask,
            links,
        }
    }

    /// Checks the internal consistency of the object with its attributes:
    /// the format type is the one its kind is held in, the algorithm belongs
    /// to the kind, the length is one the algorithm admits and that of the
    /// material, the attributes repeat what the object says, the links are
    /// ones its kind can carry, and the bytes are in the encoding that the
    /// format type names.
    pub fn validate(&self, attributes: &Attributes) -> (r: Result<(), ObjectError>)
        ensures
            r is Ok <==> self@.defect(attributes@) is None,
            r is Err ==> Some(r->Err_0) == self@.defect(attributes@),
    {
        let kind = self.kind();
        match self.key_block() {
            Some(b) => {
                match b.validate(kind) {
                    Err(e) => {
                        return Err(e);
                    },
                    Ok(()) => {},
                }
            },
            None => {},
        }
        if attributes.object_type != kind {
            return Err(ObjectError::FormatMismatch);
        }
        if attributes.key_format_type != self.format() {
            return Err(ObjectError::FormatMismatch);
        }
        match self.key_block() {
            Some(b) => {
                if !opt_algorithm_eq(attributes.cryptographic_algorithm, b.cryptographic_algorithm) {
                    return Err(ObjectError::AlgorithmMismatch);
                }
                if !opt_usize_eq(attributes.cryptographic_length, b.cryptographic_length) {
                    return Err(ObjectError::LengthMismatch);
                }
            },
            None => {},
        }
        if !attributes.links.fits(kind) {
            return Err(ObjectError::InvalidLink);
        }
        if self.ill_encoded() {
            return Err(ObjectError::FormatMismatch);
        }
        Ok(())
    }

    /// Whether the bytes of the object are not what its format type says.
    pub fn ill_encoded(&self) -> (r: bool)
        ensures
            r == self@.ill_encoded(),
    {
        match self {
            Object::Certificate { certificate_value, subject, issuer } => {
                match (
                    decode(certificate_value.as_slice(), KeyFormatType::X509, None),
                    parse_certificate(certificate_value.as_slice()),
                ) {
                    (Ok(m), Ok(c)) => !(eq_bytes(m.bytes.as_slice(), certificate_value.as_slice())
                        && eq_bytes(c.subject.as_slice(), subject.as_slice()) && eq_bytes(
                        c.issuer.as_slice(),
                        issuer.as_slice(),
                    )),
                    _ => true,
                }
            },
            Object::SymmetricKey { .. } => false,
            Object::PrivateKey { key_block } => ill_encoded_key(ObjectKind::PrivateKey, key_block),
            Object::PublicKey { key_block } => ill_encoded_key(ObjectKind::PublicKey, key_block),
        }
    }
}

fn ill_encoded_key(kind: ObjectKind, b: &KeyBlock) -> (r: bool)
    ensures
        r == (b@.key_wrapping_data is None && !b@.well_encoded(kind)),
{
    if b.key_wrapping_data.is_some() {
        return false;
    }
    match (b.cryptographic_algorithm, b.cryptographic_length) {
        (Some(algorithm), Some(length)) => {
            match decode(b.key_material.as_slice(), b.key_format_type, b.cryptographic_algorithm) {
                Ok(m) => {
                    if kind == ObjectKind::PrivateKey && b.key_format_type == KeyFormatType::PKCS1 {
                        if m.kind != kind || m.algorithm != algorithm || m.length != length {
                            return true;
                        }
                        match encode(&m, KeyFormatType::PKCS1) {
                            Ok(back) => !eq_bytes(back.as_slice(), b.key_material.as_slice()),
                            Err(_) => true,
                        }
                    } else {
                        let expected = KeyMaterial {
                            kind,
                            algorithm,
                            length,
                            bytes: b.key_material.clone(),
                        };
                        !m.same(&expected)
                    }
                },
                Err(_) => true,
            }
        },
        _ => true,
    }
}

pub fn opt_algorithm_eq(a: Option<CryptographicAlgorithm>, b: Option<CryptographicAlgorithm>) -> (r:
    bool)
    ensures
        r == (a == b),
{
    match (a, b) {
        (Some(x), Some(y)) => x == y,
        (None, None) => true,
        _ => false,
    }
}

pub fn opt_usize_eq(a: Option<usize>, b: Option<usize>) -> (r: bool)
    ensures
        r == (a == b),
{
    match (a, b) {
        (Some(x), Some(y)) => x == y,
        (None, None) => true,
        _ => false,
    }
}

impl KeyWrappingData {
    /// Whether two records of a wrapping say the same.
    pub fn same(&self, other: &KeyWrappingData) -> (r: bool)
        ensures
            r == (self@ == other@),
    {
        self.wrapping_key_id == other.wrapping_key_id && self.algorithm == other.algorithm
            && eq_bytes(self.nonce.as_slice(), other.nonce.as_slice()) && eq_bytes(
            self.tag.as_slice(),
            other.tag.as_slice(),
        ) && eq_bytes(self.encapsulation.as_slice(), other.encapsulation.as_slice())
            && self.original_format == other.original_format
    }
}

impl KeyBlock {
    /// Whether two key blocks hold the same.
    pub fn same(&self, other: &KeyBlock) -> (r: bool)
        ensures
            r == (self@ == other@),
    {
        let wrapping = match (&self.key_wrapping_data, &other.key_wrapping_data) {
            (Some(a), Some(b)) => a.same(b),
            (None, None) => true,
            _ => false,
        };
        wrapping && self.key_format_type == other.key_format_type && eq_bytes(
            self.key_material.as_slice(),
            other.key_material.as_slice(),
        ) && opt_algorithm_eq(self.cryptographic_algorithm, other.cryptographic_algorithm)
            && opt_usize_eq(self.cryptographic_length, other.cryptographic_length)
    }
}

impl Object {
    /// Whether two objects are the same.
    pub fn same(&self, other: &Object) -> (r: bool)
        ensures
            r == (self@ == other@),
    {
        match (self, other) {
            (Object::SymmetricKey { key_block: a }, Object::SymmetricKey { key_block: b }) => a.same(
                b,
            ),
            (Object::PrivateKey { key_block: a }, Object::PrivateKey { key_block: b }) => a.same(b),
            (Object::PublicKey { key_block: a }, Object::PublicKey { key_block: b }) => a.same(b),
            (
                Object::Certificate { certificate_value: a, subject: sa, issuer: ia },
                Object::Certificate { certificate_value: b, subject: sb, issuer: ib },
            ) => eq_bytes(a.as_slice(), b.as_slice()) && eq_bytes(sa.as_slice(), sb.as_slice())
                && eq_bytes(ia.as_slice(), ib.as_slice()),
            _ => false,
        }
    }
}

} // verus!
