//! The wrapping engine: key material is encrypted under another key, a
//! public key or a certificate, and comes back only with the right key.

use vstd::prelude::*;
use vstd::utf8::encode_utf8;
use crate::bytes::append_bytes;
use crate::crypto::{
    KeyFamily,
    MAX_INPUT,
    aead_open,
    aead_opened,
    aead_seal,
    agree,
    agreed,
    certificate_of,
    check_ec,
    check_rsa,
    ec_checked,
    one_time_key,
    parse_certificate,
    parse_private_key,
    parse_public_key,
    pkcs8_of,
    public_half,
    public_key_of,
    random_bytes,
    rsa_open,
    rsa_opened,
    rsa_seal,
    sha256,
    sha256_of,
    sound_key,
    wipe,
};
use crate::error::WrapError;
use crate::secret::Secret;
use crate::object::{
    KeyFormatType,
    KeyWrappingData,
    KeyWrappingDataView,
    ObjectKind,
    WrappingAlgorithm,
};

verus! {

/// A key to wrap under or to unwrap with: the identifier under which
/// wrapped material names it, and its material in the encoding of its
/// kind.
pub struct WrappingKey {
    pub id: String,
    pub kind: ObjectKind,
    pub material: Vec<u8>,
}

pub struct WrappingKeyView {
    pub id: Seq<char>,
    pub kind: ObjectKind,
    pub material: Seq<u8>,
}

/// The material of a key is wiped when the key goes out of scope.
impl Drop for WrappingKey {
    fn drop(&mut self)
        opens_invariants none
        no_unwind
    {
        wipe(&mut self.material);
    }
}

impl View for WrappingKey {
    type V = WrappingKeyView;

    open spec fn view(&self) -> WrappingKeyView {
        WrappingKeyView { id: self.id@, kind: self.kind, material: self.material@ }
    }
}

/// Wrapped material: the ciphertext and what is recorded about it.
pub struct WrappedBlob {
    pub ciphertext: Vec<u8>,
    pub wrapping: KeyWrappingData,
}

pub struct WrappedBlobView {
    pub ciphertext: Seq<u8>,
    pub wrapping: KeyWrappingDataView,
}

impl View for WrappedBlob {
    type V = WrappedBlobView;

    open spec fn view(&self) -> WrappedBlobView {
        WrappedBlobView { ciphertext: self.ciphertext@, wrapping: self.wrapping@ }
    }
}

/// The number that stands for a format type in what the integrity tag
/// covers.
pub open spec fn format_code(format: KeyFormatType) -> u8 {
    match format {
        KeyFormatType::Raw => 1,
        KeyFormatType::PEM => 2,
        KeyFormatType::SEC1 => 3,
        KeyFormatType::PKCS1 => 4,
        KeyFormatType::PKCS8 => 5,
        KeyFormatType::SPKI => 6,
        KeyFormatType::PKCS12 => 7,
        KeyFormatType::X509 => 8,
        KeyFormatType::JsonInterchange => 9,
    }
}

/// What the integrity tag covers besides the ciphertext: the format of the
/// plaintext and the identifier of the wrapping key.
pub open spec fn bound_data(format: KeyFormatType, key_id: Seq<u8>) -> Seq<u8> {
    seq![format_code(format)] + key_id
}

/// The public key, in SPKI, to which material is wrapped under an
/// asymmetric key or a certificate, and its family.
pub open spec fn recipient(key: WrappingKeyView) -> Option<(Seq<u8>, KeyFamily)> {
    match key.kind {
        ObjectKind::SymmetricKey => None,
        ObjectKind::PublicKey => match public_key_of(key.material) {
            Some((_, family, _)) => Some((key.material, family)),
            None => None,
        },
        ObjectKind::Certificate => match certificate_of(key.material) {
            Some((_, _, _, spki)) => match public_key_of(spki) {
                Some((_, family, _)) => Some((spki, family)),
                None => None,
            },
            None => None,
        },
        ObjectKind::PrivateKey => match pkcs8_of(key.material) {
            Some(pkcs8) => match public_half(pkcs8) {
                Some(spki) => match public_key_of(spki) {
                    Some((_, family, _)) => Some((spki, family)),
                    None => None,
                },
                None => None,
            },
            None => None,
        },
    }
}

/// How material is wrapped under a key: under a symmetric key of 256 bits
/// by authenticated encryption; to an RSA key with OAEP; to an elliptic
/// curve or X25519 key by key agreement with a one-time key. Under any
/// other key it is not.
pub open spec fn algorithm_for(key: WrappingKeyView) -> Option<WrappingAlgorithm> {
    match key.kind {
        ObjectKind::SymmetricKey => if key.material.len() == 32 {
            Some(WrappingAlgorithm::Aes256Gcm)
        } else {
            None
        },
        _ => match recipient(key) {
            Some((_, KeyFamily::Rsa)) => Some(WrappingAlgorithm::RsaOaep),
            Some((_, KeyFamily::Ec)) => Some(WrappingAlgorithm::Ecies),
            Some((_, KeyFamily::X25519)) => Some(WrappingAlgorithm::Ecies),
            _ => None,
        },
    }
}

/// Whether `with` is a key that opens what was sealed under `under`: the
/// same symmetric key, or a sound private key of which the recipient is
/// the public half.
pub open spec fn opens(under: WrappingKeyView, with: WrappingKeyView) -> bool {
    match algorithm_for(under) {
        Some(WrappingAlgorithm::Aes256Gcm) => with.kind == ObjectKind::SymmetricKey
            && with.material == under.material,
        Some(_) => with.kind == ObjectKind::PrivateKey && match recipient(under) {
            Some((spki, _)) => public_half(with.material) == Some(spki) && sound_key(
                with.material,
            ),
            None => false,
        },
        None => false,
    }
}

/// Finds out whether a private key in PKCS#8 is sound, so that it opens
/// what is sealed to its public half: the provider finds the parameters
/// of an RSA key correct, or an elliptic curve key valid. An elliptic
/// curve key that the provider finds valid is always found; of a key that
/// is neither an RSA nor an elliptic curve key nothing is found.
pub fn is_sound(pkcs8: &[u8]) -> (r: bool)
    ensures
        r ==> sound_key(pkcs8@),
        ec_checked(pkcs8@) ==> r,
{
    check_ec(pkcs8) || check_rsa(pkcs8)
}

/// Whether `with` is the key that undoes a wrapping under `under`: it is
/// known under the same identifier and opens what was sealed under it.
pub open spec fn undoes(under: WrappingKeyView, with: WrappingKeyView) -> bool {
    with.id == under.id && opens(under, with)
}

/// Whether material can be wrapped under a key with a hint: the key is one
/// to wrap under, the hint, if any, names the way that fits the key, and
/// the sizes are ones the engine takes.
pub open spec fn wrappable(plaintext: Seq<u8>, key: WrappingKeyView, hint: Option<WrappingAlgorithm>) -> bool {
    &&& algorithm_for(key) is Some
    &&& hint is Some ==> hint == algorithm_for(key)
    &&& plaintext.len() <= MAX_INPUT
    &&& encode_utf8(key.id).len() < MAX_INPUT
}

/// The key of the authenticated encryption that something was sealed
/// with, as the holder of `key` recovers it from what came with the
/// ciphertext.
pub open spec fn content_key(
    algorithm: WrappingAlgorithm,
    encapsulation: Seq<u8>,
    key: WrappingKeyView,
) -> Option<Seq<u8>> {
    match algorithm {
        WrappingAlgorithm::Aes256Gcm => if key.kind == ObjectKind::SymmetricKey
            && key.material.len() == 32 {
            Some(key.material)
        } else {
            None
        },
        WrappingAlgorithm::RsaOaep => if key.kind == ObjectKind::PrivateKey {
            rsa_opened(key.material, encapsulation)
        } else {
            None
        },
        WrappingAlgorithm::Ecies => if key.kind == ObjectKind::PrivateKey {
            match agreed(key.material, encapsulation) {
                Some(secret) => Some(sha256_of(secret + encapsulation)),
                None => None,
            }
        } else {
            None
        },
    }
}

/// Sealed data: the ciphertext, and what it takes besides the key to open
/// it.
pub struct Sealed {
    pub algorithm: WrappingAlgorithm,
    /// What the recipient needs besides its key: the one-time public key
    /// of a key agreement, or the wrapped key of the encryption; empty
    /// under a symmetric key.
    pub encapsulation: Vec<u8>,
    pub nonce: Vec<u8>,
    pub data: Vec<u8>,
    pub tag: Vec<u8>,
}

pub struct SealedView {
    pub algorithm: WrappingAlgorithm,
    pub encapsulation: Seq<u8>,
    pub nonce: Seq<u8>,
    pub data: Seq<u8>,
    pub tag: Seq<u8>,
}

impl View for Sealed {
    type V = SealedView;

    open spec fn view(&self) -> SealedView {
        SealedView {
            algorithm: self.algorithm,
            encapsulation: self.encapsulation@,
            nonce: self.nonce@,
            data: self.data@,
            tag: self.tag@,
        }
    }
}

/// What opening sealed data with a key gives, under the associated data
/// it was sealed with: the plaintext; `WrongKey` where the key recovers no
/// key of 256 bits or the integrity check fails; `UnsupportedAlgorithm`
/// where a size is not one this engine works with.
pub open spec fn opened(sealed: SealedView, aad: Seq<u8>, key: WrappingKeyView) -> Result<
    Seq<u8>,
    WrapError,
> {
    if sealed.nonce.len() != 12 || sealed.tag.len() != 16 || sealed.data.len() > MAX_INPUT
        || aad.len() > MAX_INPUT {
        Err(WrapError::UnsupportedAlgorithm)
    } else {
        match content_key(sealed.algorithm, sealed.encapsulation, key) {
            None => Err(WrapError::WrongKey),
            Some(k) => if k.len() != 32 {
                Err(WrapError::WrongKey)
            } else {
                match aead_opened(k, sealed.nonce, aad, sealed.data, sealed.tag) {
                    Some(plaintext) => Ok(plaintext),
                    None => Err(WrapError::WrongKey),
                }
            },
        }
    }
}

/// The sealed data that a wrapped blob holds.
pub open spec fn sealed_in(blob: WrappedBlobView) -> SealedView {
    SealedView {
        algorithm: blob.wrapping.algorithm,
        encapsulation: blob.wrapping.encapsulation,
        nonce: blob.wrapping.nonce,
        data: blob.ciphertext,
        tag: blob.wrapping.tag,
    }
}

/// What unwrapping a blob with a key gives: `WrongKey` where the key is
/// not the one the blob names; else what opening the sealed data gives,
/// under the format of the plaintext and the identifier of the key as
/// associated data.
pub open spec fn unwrapped(blob: WrappedBlobView, key: WrappingKeyView) -> Result<Seq<u8>, WrapError> {
    if blob.wrapping.nonce.len() != 12 || blob.wrapping.tag.len() != 16 || blob.ciphertext.len()
        > MAX_INPUT || encode_utf8(blob.wrapping.wrapping_key_id).len() >= MAX_INPUT {
        Err(WrapError::UnsupportedAlgorithm)
    } else if blob.wrapping.wrapping_key_id != key.id {
        Err(WrapError::WrongKey)
    } else {
        opened(
            sealed_in(blob),
            bound_data(blob.wrapping.original_format, encode_utf8(key.id)),
            key,
        )
    }
}

fn code_of(format: KeyFormatType) -> (r: u8)
    ensures
        r == format_code(format),
{
    match format {
        KeyFormatType::Raw => 1,
        KeyFormatType::PEM => 2,
        KeyFormatType::SEC1 => 3,
        KeyFormatType::PKCS1 => 4,
        KeyFormatType::PKCS8 => 5,
        KeyFormatType::SPKI => 6,
        KeyFormatType::PKCS12 => 7,
        KeyFormatType::X509 => 8,
        KeyFormatType::JsonInterchange => 9,
    }
}

fn bound(format: KeyFormatType, key_id: &String) -> (r: Vec<u8>)
    ensures
        r@ == bound_data(format, encode_utf8(key_id@)),
{
    let mut out: Vec<u8> = Vec::new();
    out.push(code_of(format));
    append_bytes(&mut out, key_id.as_str().as_bytes());
    out
}

/// The recipient of a wrapping under a key that is not symmetric.
fn recipient_of(key: &WrappingKey) -> (r: Option<(Vec<u8>, KeyFamily)>)
    ensures
        match r {
            Some((spki, family)) => recipient(key@) == Some((spki@, family)),
            None => recipient(key@) is None,
        },
{
    match key.kind {
        ObjectKind::SymmetricKey => None,
        ObjectKind::PublicKey => {
            match parse_public_key(key.material.as_slice()) {
                Ok(p) => Some((key.material.clone(), p.family)),
                Err(_) => None,
            }
        },
        ObjectKind::Certificate => {
            match parse_certificate(key.material.as_slice()) {
                Ok(c) => {
                    match parse_public_key(c.spki.as_slice()) {
                        Ok(p) => Some((c.spki, p.family)),
                        Err(_) => None,
                    }
                },
                Err(_) => None,
            }
        },
        ObjectKind::PrivateKey => {
            match parse_private_key(key.material.as_slice()) {
                Ok(k) => {
                    match parse_public_key(k.spki.as_slice()) {
                        Ok(p) => Some((k.spki, p.family)),
                        Err(_) => None,
                    }
                },
                Err(_) => None,
            }
        },
    }
}

/// What sealing to a recipient hands out: the key of the authenticated
/// encryption, and what the recipient needs to recover it.
struct Encapsulated {
    content_key: Secret,
    encapsulation: Vec<u8>,
}

/// Makes a key for the authenticated encryption that only the holder of
/// the recipient's private key recovers.
fn encapsulate(spki: &[u8], algorithm: WrappingAlgorithm) -> (r: Option<Encapsulated>)
    requires
        algorithm != WrappingAlgorithm::Aes256Gcm,
    ensures
        match r {
            Some(e) => e.content_key@.len() == 32 && forall|with: WrappingKeyView|
                #![trigger content_key(algorithm, e.encapsulation@, with)]
                with.kind == ObjectKind::PrivateKey && public_half(with.material) == Some(spki@)
                    && sound_key(with.material) ==> content_key(algorithm, e.encapsulation@, with) == Some(e.content_key@),
            None => true,
        },
{
    match algorithm {
        WrappingAlgorithm::RsaOaep => {
            let content = match random_bytes(32) {
                Ok(c) => Secret::new(c),
                Err(_) => {
                    return None;
                },
            };
            match rsa_seal(spki, content.as_slice()) {
                Ok(sealed) => Some(Encapsulated { content_key: content, encapsulation: sealed }),
                Err(_) => None,
            }
        },
        _ => {
            let one_time = match one_time_key(spki) {
                Ok(k) => k,
                Err(_) => {
                    return None;
                },
            };
            let private = Secret::new(one_time.pkcs8);
            let mut joined = match agree(private.as_slice(), spki) {
                Ok(s) => s,
                Err(_) => {
                    return None;
                },
            };
            let ghost shared = joined@;
            append_bytes(&mut joined, one_time.spki.as_slice());
            let secret = Secret::new(joined);
            let content = Secret::new(sha256(secret.as_slice()));
            assert forall|with: WrappingKeyView|
                #![trigger content_key(algorithm, one_time.spki@, with)]
                with.kind == ObjectKind::PrivateKey && public_half(with.material) == Some(
                    spki@,
                ) && sound_key(with.material) implies content_key(algorithm, one_time.spki@, with) == Some(content@) by {
                assert(agreed(with.material, one_time.spki@) == Some(shared));
            }
            Some(Encapsulated { content_key: content, encapsulation: one_time.spki })
        },
    }
}

/// Whether data can be sealed under a key with a hint: the key is one to
/// seal under, the hint, if any, names the way that fits the key, and the
/// sizes are ones the engine takes.
pub open spec fn sealable(
    plaintext: Seq<u8>,
    aad: Seq<u8>,
    key: WrappingKeyView,
    hint: Option<WrappingAlgorithm>,
) -> bool {
    &&& algorithm_for(key) is Some
    &&& hint is Some ==> hint == algorithm_for(key)
    &&& plaintext.len() <= MAX_INPUT
    &&& aad.len() <= MAX_INPUT
}

/// What sealing hands out for what the provider gave back: the sealed
/// data made of the way of sealing, what the recipient needs, the nonce
/// that was drawn, and the ciphertext with its tag. Where the provider
/// gave nothing, or a nonce, a tag or a ciphertext of a size that sealed
/// data does not have, the provider has refused.
pub open spec fn sealed_of(
    algorithm: WrappingAlgorithm,
    encapsulation: Seq<u8>,
    nonce: Seq<u8>,
    outcome: Option<(Seq<u8>, Seq<u8>)>,
) -> Result<SealedView, WrapError> {
    match outcome {
        None => Err(WrapError::Provider),
        Some((data, tag)) => if nonce.len() != 12 || tag.len() != 16 || data.len() > MAX_INPUT {
            Err(WrapError::Provider)
        } else {
            Ok(SealedView { algorithm, encapsulation, nonce, data, tag })
        },
    }
}

/// Makes sealed data of what the provider gave back.
pub fn sealed_from(
    algorithm: WrappingAlgorithm,
    encapsulation: Vec<u8>,
    nonce: Vec<u8>,
    outcome: Option<(Vec<u8>, Vec<u8>)>,
) -> (r: Result<Sealed, WrapError>)
    ensures
        match r {
            Ok(sealed) => sealed_of(
                algorithm,
                encapsulation@,
                nonce@,
                match outcome {
                    Some(pair) => Some((pair.0@, pair.1@)),
                    None => None,
                },
            ) == Ok::<SealedView, WrapError>(sealed@),
            Err(e) => sealed_of(
                algorithm,
                encapsulation@,
                nonce@,
                match outcome {
                    Some(pair) => Some((pair.0@, pair.1@)),
                    None => None,
                },
            ) == Err::<SealedView, WrapError>(e),
        },
{
    match outcome {
        None => Err(WrapError::Provider),
        Some((data, tag)) => {
            if nonce.len() != 12 || tag.len() != 16 || data.len() > MAX_INPUT {
                Err(WrapError::Provider)
            } else {
                Ok(Sealed { algorithm, encapsulation, nonce, data, tag })
            }
        },
    }
}

/// Seals data under a key, with associated data that the integrity tag
/// covers too. Whoever holds a key that opens what is sealed under this
/// one gets the data back from it, under the same associated data.
///
/// Failure is `UnsupportedAlgorithm` exactly where the data cannot be
/// sealed under the key: the key is not one to seal under, the hint names
/// another way than fits the key, or a size is beyond what the engine
/// takes. Any other failure is `Provider`: the cryptographic provider
/// refused.
pub fn seal(plaintext: &[u8], aad: &[u8], key: &WrappingKey, algorithm_hint: Option<
    WrappingAlgorithm,
>) -> (r: Result<Sealed, WrapError>)
    ensures
        r == Err::<Sealed, WrapError>(WrapError::UnsupportedAlgorithm) <==> !sealable(
            plaintext@,
            aad@,
            key@,
            algorithm_hint,
        ),
        match r {
            Ok(sealed) => {
                &&& algorithm_for(key@) == Some(sealed.algorithm)
                &&& sealed.nonce@.len() == 12
                &&& sealed.tag@.len() == 16
                &&& sealed.data@.len() <= MAX_INPUT
                &&& forall|with: WrappingKeyView| #[trigger]
                    opens(key@, with) ==> opened(sealed@, aad@, with) == Ok::<Seq<u8>, WrapError>(
                        plaintext@,
                    )
            },
            Err(e) => e == WrapError::UnsupportedAlgorithm || e == WrapError::Provider,
        },
{
    if plaintext.len() > MAX_INPUT || aad.len() > MAX_INPUT {
        return Err(WrapError::UnsupportedAlgorithm);
    }
    let (algorithm, sealed_to) = match key.kind {
        ObjectKind::SymmetricKey => {
            if key.material.len() != 32 {
                return Err(WrapError::UnsupportedAlgorithm);
            }
            (WrappingAlgorithm::Aes256Gcm, None)
        },
        _ => {
            match recipient_of(key) {
                Some((spki, KeyFamily::Rsa)) => (WrappingAlgorithm::RsaOaep, Some(spki)),
                Some((spki, KeyFamily::Ec)) => (WrappingAlgorithm::Ecies, Some(spki)),
                Some((spki, KeyFamily::X25519)) => (WrappingAlgorithm::Ecies, Some(spki)),
                _ => {
                    return Err(WrapError::UnsupportedAlgorithm);
                },
            }
        },
    };
    match algorithm_hint {
        Some(hint) => {
            if hint != algorithm {
                return Err(WrapError::UnsupportedAlgorithm);
            }
        },
        None => {},
    }
    let made = match sealed_to {
        None => Encapsulated {
            content_key: Secret::new(key.material.clone()),
            encapsulation: Vec::new(),
        },
        Some(spki) => {
            match encapsulate(spki.as_slice(), algorithm) {
                Some(e) => e,
                None => {
                    return Err(WrapError::Provider);
                },
            }
        },
    };
    let content = made.content_key;
    let ghost content_view = content@;
    let nonce = match random_bytes(12) {
        Ok(n) => n,
        Err(_) => {
            return Err(WrapError::Provider);
        },
    };
    let outcome = match aead_seal(content.as_slice(), nonce.as_slice(), aad, plaintext) {
        Ok(pair) => Some(pair),
        Err(_) => None,
    };
    let sealed = match sealed_from(algorithm, made.encapsulation, nonce, outcome) {
        Ok(s) => s,
        Err(e) => {
            return Err(e);
        },
    };
    assert forall|with: WrappingKeyView| #[trigger] opens(key@, with) implies opened(
        sealed@,
        aad@,
        with,
    ) == Ok::<Seq<u8>, WrapError>(plaintext@) by {
        assert(content_key(algorithm, sealed.encapsulation@, with) == Some(content_view));
    }
    Ok(sealed)
}

/// Wraps material under a key. The blob records the identifier of the
/// key, the way of wrapping and the format of the plaintext; whoever holds
/// the key that undoes the wrapping gets the plaintext back from it, and
/// a key known under another identifier gets `WrongKey`.
///
/// Failure is `UnsupportedAlgorithm` exactly where the material cannot
/// be wrapped under the key: the key is not one to wrap under, the hint
/// names another way than fits the key, or a size is beyond what the
/// engine takes. Any other failure is `Provider`: the cryptographic
/// provider refused.
pub fn wrap(
    plaintext: &[u8],
    original_format: KeyFormatType,
    wrapping_key: &WrappingKey,
    algorithm_hint: Option<WrappingAlgorithm>,
) -> (r: Result<WrappedBlob, WrapError>)
    ensures
        r == Err::<WrappedBlob, WrapError>(WrapError::UnsupportedAlgorithm) <==> !wrappable(
            plaintext@,
            wrapping_key@,
            algorithm_hint,
        ),
        match r {
            Ok(blob) => {
                &&& Some(blob@.wrapping.algorithm) == algorithm_for(wrapping_key@)
                &&& blob@.ciphertext.len() <= MAX_INPUT
                &&& blob@.wrapping.wrapping_key_id == wrapping_key@.id
                &&& blob@.wrapping.original_format == original_format
                &&& blob@.wrapping.nonce.len() == 12
                &&& blob@.wrapping.tag.len() == 16
                &&& forall|with: WrappingKeyView| #[trigger]
                    undoes(wrapping_key@, with) ==> unwrapped(blob@, with) == Ok::<
                        Seq<u8>,
                        WrapError,
                    >(plaintext@)
                &&& forall|other: WrappingKeyView|
                    other.id != wrapping_key@.id ==> #[trigger] unwrapped(blob@, other) == Err::<
                        Seq<u8>,
                        WrapError,
                    >(WrapError::WrongKey)
            },
            Err(e) => e == WrapError::UnsupportedAlgorithm || e == WrapError::Provider,
        },
{
    if wrapping_key.id.as_str().as_bytes().len() >= MAX_INPUT {
        return Err(WrapError::UnsupportedAlgorithm);
    }
    let aad = bound(original_format, &wrapping_key.id);
    let sealed = match seal(plaintext, aad.as_slice(), wrapping_key, algorithm_hint) {
        Ok(s) => s,
        Err(e) => {
            return Err(e);
        },
    };
    let ghost sealed_view = sealed@;
    let blob = WrappedBlob {
        ciphertext: sealed.data,
        wrapping: KeyWrappingData {
            wrapping_key_id: wrapping_key.id.clone(),
            algorithm: sealed.algorithm,
            nonce: sealed.nonce,
            tag: sealed.tag,
            encapsulation: sealed.encapsulation,
            original_format,
        },
    };
    assert(sealed_in(blob@) == sealed_view);
    assert forall|with: WrappingKeyView| #[trigger] undoes(wrapping_key@, with) implies unwrapped(
        blob@,
        with,
    ) == Ok::<Seq<u8>, WrapError>(plaintext@) by {
        assert(opens(wrapping_key@, with));
    }
    Ok(blob)
}

/// The key of the authenticated encryption of sealed data, recovered with
/// a key.
fn recover(algorithm: WrappingAlgorithm, encapsulation: &[u8], key: &WrappingKey) -> (r: Option<
    Secret,
>)
    ensures
        match r {
            Some(k) => content_key(algorithm, encapsulation@, key@) == Some(k@),
            None => content_key(algorithm, encapsulation@, key@) is None,
        },
{
    match algorithm {
        WrappingAlgorithm::Aes256Gcm => {
            if key.kind == ObjectKind::SymmetricKey && key.material.len() == 32 {
                Some(Secret::new(key.material.clone()))
            } else {
                None
            }
        },
        WrappingAlgorithm::RsaOaep => {
            if key.kind == ObjectKind::PrivateKey {
                match rsa_open(key.material.as_slice(), encapsulation) {
                    Ok(k) => Some(Secret::new(k)),
                    Err(_) => None,
                }
            } else {
                None
            }
        },
        WrappingAlgorithm::Ecies => {
            if key.kind == ObjectKind::PrivateKey {
                match agree(key.material.as_slice(), encapsulation) {
                    Ok(secret) => {
                        let mut joined = secret;
                        append_bytes(&mut joined, encapsulation);
                        let secret = Secret::new(joined);
                        Some(Secret::new(sha256(secret.as_slice())))
                    },
                    Err(_) => None,
                }
            } else {
                None
            }
        },
    }
}

/// The plaintext of what was sealed, opened with a key.
fn open_parts(
    algorithm: WrappingAlgorithm,
    encapsulation: &[u8],
    nonce: &[u8],
    data: &[u8],
    tag: &[u8],
    aad: &[u8],
    key: &WrappingKey,
) -> (r: Result<Vec<u8>, WrapError>)
    ensures
        ({
            let sealed = SealedView {
                algorithm,
                encapsulation: encapsulation@,
                nonce: nonce@,
                data: data@,
                tag: tag@,
            };
            match r {
                Ok(plaintext) => opened(sealed, aad@, key@) == Ok::<Seq<u8>, WrapError>(plaintext@),
                Err(e) => opened(sealed, aad@, key@) == Err::<Seq<u8>, WrapError>(e),
            }
        }),
{
    if nonce.len() != 12 || tag.len() != 16 || data.len() > MAX_INPUT || aad.len() > MAX_INPUT {
        return Err(WrapError::UnsupportedAlgorithm);
    }
    let content = match recover(algorithm, encapsulation, key) {
        Some(k) => k,
        None => {
            return Err(WrapError::WrongKey);
        },
    };
    if content.len() != 32 {
        return Err(WrapError::WrongKey);
    }
    match aead_open(content.as_slice(), nonce, aad, data, tag) {
        Ok(plaintext) => Ok(plaintext),
        Err(_) => Err(WrapError::WrongKey),
    }
}

/// Opens sealed data with a key, under the associated data it was sealed
/// with.
pub fn open(sealed: &Sealed, aad: &[u8], key: &WrappingKey) -> (r: Result<Vec<u8>, WrapError>)
    ensures
        match r {
            Ok(plaintext) => opened(sealed@, aad@, key@) == Ok::<Seq<u8>, WrapError>(plaintext@),
            Err(e) => opened(sealed@, aad@, key@) == Err::<Seq<u8>, WrapError>(e),
        },
{
    open_parts(
        sealed.algorithm,
        sealed.encapsulation.as_slice(),
        sealed.nonce.as_slice(),
        sealed.data.as_slice(),
        sealed.tag.as_slice(),
        aad,
        key,
    )
}

/// Unwraps a blob with a key.
pub fn unwrap(blob: &WrappedBlob, wrapping_key: &WrappingKey) -> (r: Result<Vec<u8>, WrapError>)
    ensures
        match r {
            Ok(plaintext) => unwrapped(blob@, wrapping_key@) == Ok::<Seq<u8>, WrapError>(plaintext@),
            Err(e) => unwrapped(blob@, wrapping_key@) == Err::<Seq<u8>, WrapError>(e),
        },
{
    if blob.wrapping.nonce.len() != 12 || blob.wrapping.tag.len() != 16 || blob.ciphertext.len()
        > MAX_INPUT || blob.wrapping.wrapping_key_id.as_str().as_bytes().len() >= MAX_INPUT {
        return Err(WrapError::UnsupportedAlgorithm);
    }
    if blob.wrapping.wrapping_key_id != wrapping_key.id {
        return Err(WrapError::WrongKey);
    }
    let aad = bound(blob.wrapping.original_format, &wrapping_key.id);
    open_parts(
        blob.wrapping.algorithm,
        blob.wrapping.encapsulation.as_slice(),
        blob.wrapping.nonce.as_slice(),
        blob.ciphertext.as_slice(),
        blob.wrapping.tag.as_slice(),
        aad.as_slice(),
        wrapping_key,
    )
}

/// A key known under another identifier than the one a blob names unwraps
/// nothing: the answer is `WrongKey`.
pub proof fn lemma_other_key_is_wrong(blob: WrappedBlobView, other: WrappingKeyView)
    requires
        blob.wrapping.nonce.len() == 12,
        blob.wrapping.tag.len() == 16,
        blob.ciphertext.len() <= MAX_INPUT,
        encode_utf8(blob.wrapping.wrapping_key_id).len() < MAX_INPUT,
        other.id != blob.wrapping.wrapping_key_id,
    ensures
        unwrapped(blob, other) == Err::<Seq<u8>, WrapError>(WrapError::WrongKey),
{
}

} // verus!
