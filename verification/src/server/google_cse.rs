//! The bridge for client-side encryption: the requests it takes, and how
//! a failure of the engine is answered.

use vstd::prelude::*;
use vstd::utf8::encode_utf8;
use crate::access::{Identity, Right};
use crate::bytes::{append_bytes, ascii_text, slice_of};
use crate::cipher::{Ciphertext, decryption_key, encryption_key};
use crate::crypto::{
    MAX_INPUT,
    base64_decode,
    base64_decoded,
    base64_encode,
    base64_of,
    is_base64_byte,
    rsa_label_opened,
    rsa_open_labelled,
    rsa_sign,
    rsa_signature,
};
use crate::engine::Engine;
use crate::error::{KmsError, WrapError};
use crate::object::{ObjectKind, WrappingAlgorithm};
use crate::secret::Secret;
use crate::storage::{ObjectStore, Records, gate};
use crate::wrapping::{SealedView, WrappingKeyView, opened, opens, seal, sealable};

verus! {

/// Error reply of the bridge: a status, a fixed message, and what failed.
pub struct CseErrorReply {
    pub code: u16,
    pub message: String,
    pub details: String,
}

/// The status under which a failure is reported: what the caller got
/// wrong, 422; a key or passphrase that does not fit, 403; an object that
/// is not there, 404; one the caller may not use, 401; an identifier that
/// is taken, 409; anything else, 500.
pub open spec fn spec_status_code(e: KmsError) -> u16 {
    match e {
        KmsError::InvalidParameter => 422,
        KmsError::MalformedInput => 422,
        KmsError::UnsupportedFormat => 422,
        KmsError::UnsupportedConversion => 422,
        KmsError::AlgorithmMismatch => 422,
        KmsError::UnsupportedAlgorithm => 422,
        KmsError::WrongKey => 403,
        KmsError::AuthenticationFailed => 403,
        KmsError::NotFound => 404,
        KmsError::Unauthorized => 401,
        KmsError::AlreadyExists => 409,
        KmsError::StorageError => 500,
        KmsError::Internal => 500,
    }
}

#[verifier::when_used_as_spec(spec_status_code)]
pub fn status_code(e: KmsError) -> (r: u16)
    ensures
        r == spec_status_code(e),
{
    match e {
        KmsError::InvalidParameter => 422,
        KmsError::MalformedInput => 422,
        KmsError::UnsupportedFormat => 422,
        KmsError::UnsupportedConversion => 422,
        KmsError::AlgorithmMismatch => 422,
        KmsError::UnsupportedAlgorithm => 422,
        KmsError::WrongKey => 403,
        KmsError::AuthenticationFailed => 403,
        KmsError::NotFound => 404,
        KmsError::Unauthorized => 401,
        KmsError::AlreadyExists => 409,
        KmsError::StorageError => 500,
        KmsError::Internal => 500,
    }
}

/// The status of the answer that carries a reply: the reply's own code
/// where it is one of those the bridge answers with, else 500.
pub open spec fn answered_with(code: u16) -> u16 {
    if code == 400 || code == 401 || code == 403 || code == 404 || code == 405 || code == 422 {
        code
    } else {
        500
    }
}

impl CseErrorReply {
    /// The reply for a failure of the engine.
    pub fn from(e: KmsError) -> (r: CseErrorReply)
        ensures
            r.code == spec_status_code(e),
            r.message@ == "A CSE request to the Cosmian KMS failed"@,
            r.details@ == e.message(),
    {
        CseErrorReply {
            code: status_code(e),
            message: String::from_str("A CSE request to the Cosmian KMS failed"),
            details: e.to_string(),
        }
    }

    /// The status of the answer that carries this reply.
    pub fn response_status(&self) -> (r: u16)
        ensures
            r == answered_with(self.code),
    {
        let code = self.code;
        if code == 400 || code == 401 || code == 403 || code == 404 || code == 405 || code == 422 {
            code
        } else {
            500
        }
    }
}

/// What the bridge answers: the result with status 200, or the reply for
/// the failure with its status.
pub enum CseAnswer<T> {
    Done { status: u16, body: T },
    Failed { status: u16, reply: CseErrorReply },
}

/// The answer of the bridge to the outcome of an operation.
pub fn answer<T>(outcome: Result<T, KmsError>) -> (r: CseAnswer<T>)
    ensures
        match (outcome, r) {
            (Ok(value), CseAnswer::Done { status, body }) => status == 200 && body == value,
            (Err(e), CseAnswer::Failed { status, reply }) => status == answered_with(
                spec_status_code(e),
            ) && reply.code == spec_status_code(e) && reply.message@
                == "A CSE request to the Cosmian KMS failed"@ && reply.details@ == e.message(),
            _ => false,
        },
{
    match outcome {
        Ok(body) => CseAnswer::Done { status: 200, body },
        Err(e) => {
            let reply = CseErrorReply::from(e);
            let status = reply.response_status();
            CseAnswer::Failed { status, reply }
        },
    }
}

pub struct DigestRequest {
    pub authorization: String,
    pub reason: String,
    pub wrapped_key: String,
}

pub struct PrivilegedPrivateKeyDecryptRequest {
    pub authentication: String,
    pub algorithm: String,
    pub encrypted_data_encryption_key: String,
    pub rsa_oaep_label: String,
    pub reason: String,
    pub spki_hash: String,
    pub spki_hash_algorithm: String,
    pub wrapped_private_key: String,
}

pub struct PrivilegedUnwrapRequest {
    pub authentication: String,
    pub reason: String,
    pub resource_name: String,
    pub wrapped_key: String,
}

pub struct PrivilegedWrapRequest {
    pub authentication: String,
    pub key: String,
    pub perimeter_id: String,
    pub reason: String,
    pub resource_name: String,
}

pub struct RewrapRequest {
    pub authorization: String,
    pub original_kacls_url: String,
    pub reason: String,
    pub wrapped_key: String,
}

pub struct WrapPrivateKeyRequest {
    pub authentication: String,
    pub perimeter_id: String,
    pub private_key: String,
}

/// The identifier of the key under which the bridge seals.
pub open spec fn bridge_key() -> Seq<char> {
    "google_cse"@
}

/// Sealed data as the bridge hands it out: the nonce, the tag and the
/// ciphertext, one after the other.
pub open spec fn laid_out(sealed: SealedView) -> Seq<u8> {
    sealed.nonce + sealed.tag + sealed.data
}

/// The sealed data that a blob of the bridge holds: a nonce of 12 bytes, a
/// tag of 16, and the ciphertext; none in fewer than 28 bytes.
pub open spec fn cut(blob: Seq<u8>) -> Option<SealedView> {
    if blob.len() < 28 {
        None
    } else {
        Some(
            SealedView {
                algorithm: WrappingAlgorithm::Aes256Gcm,
                encapsulation: Seq::empty(),
                nonce: blob.subrange(0, 12),
                tag: blob.subrange(12, 28),
                data: blob.subrange(28, blob.len() as int),
            },
        )
    }
}

/// Cutting what was laid out gives the sealed data back.
pub proof fn lemma_cut_undoes_lay_out(sealed: SealedView)
    requires
        sealed.algorithm == WrappingAlgorithm::Aes256Gcm,
        sealed.encapsulation == Seq::<u8>::empty(),
        sealed.nonce.len() == 12,
        sealed.tag.len() == 16,
    ensures
        cut(laid_out(sealed)) == Some(sealed),
{
    let blob = laid_out(sealed);
    assert(blob.subrange(0, 12) =~= sealed.nonce);
    assert(blob.subrange(12, 28) =~= sealed.tag);
    assert(blob.subrange(28, blob.len() as int) =~= sealed.data);
}

/// Lays sealed data out as the bridge hands it out.
pub fn lay_out(sealed: &Ciphertext) -> (r: Vec<u8>)
    ensures
        r@ == laid_out(sealed@),
{
    let mut blob: Vec<u8> = Vec::new();
    append_bytes(&mut blob, sealed.nonce.as_slice());
    append_bytes(&mut blob, sealed.tag.as_slice());
    append_bytes(&mut blob, sealed.data.as_slice());
    blob
}

/// Cuts a blob of the bridge into the sealed data it holds.
pub fn cut_blob(blob: &[u8]) -> (r: Option<Ciphertext>)
    ensures
        match r {
            Some(sealed) => cut(blob@) == Some(sealed@),
            None => cut(blob@) is None,
        },
{
    if blob.len() < 28 {
        return None;
    }
    Some(
        Ciphertext {
            algorithm: WrappingAlgorithm::Aes256Gcm,
            encapsulation: Vec::new(),
            nonce: slice_of(blob, 0, 12),
            tag: slice_of(blob, 12, 28),
            data: slice_of(blob, 28, blob.len()),
        },
    )
}

/// The base64 text of bytes.
pub fn base64_text(data: &[u8]) -> (r: String)
    requires
        data@.len() <= MAX_INPUT,
    ensures
        encode_utf8(r@) == base64_of(data@),
        base64_decoded(encode_utf8(r@)) == Some(data@),
{
    let text = base64_encode(data);
    assert forall|i: int| 0 <= i < text@.len() implies text@[i] < 128 by {
        assert(is_base64_byte(text@[i]));
    }
    let ghost bytes = text@;
    let out = ascii_text(text);
    proof {
        vstd::utf8::decode_utf8_encode_utf8(bytes);
    }
    out
}

/// What the bridge answers to a request to unwrap. The caller is asked
/// for the `Decrypt` right on the key of the bridge before anything of
/// the request is read. Then: the plaintext of what the base64 text
/// holds, opened with the key of the bridge under the reason as
/// associated data. A text that is no base64, or holds fewer than 28
/// bytes, is `MalformedInput`.
pub open spec fn unwrapped_key(records: Records, wrapped: Seq<u8>, reason: Seq<u8>, caller: Seq<char>) -> Result<
    Seq<u8>,
    KmsError,
> {
    match gate(records, bridge_key(), caller, Right::Decrypt) {
        Err(refusal) => Err(KmsError::of_storage(refusal)),
        Ok(()) => match base64_decoded(wrapped) {
            None => Err(KmsError::MalformedInput),
            Some(blob) => match cut(blob) {
                None => Err(KmsError::MalformedInput),
                Some(sealed) => match decryption_key(records, bridge_key(), caller) {
                    Err(e) => Err(e),
                    Ok(key) => match opened(sealed, reason, key) {
                        Ok(plaintext) => Ok(plaintext),
                        Err(e) => Err(KmsError::of_wrap(e)),
                    },
                },
            },
        },
    }
}

/// Whether a text is what the bridge hands out for a key that it wrapped
/// under `under`: the base64 text of sealed data, laid out, that whoever
/// holds a key that opens what is sealed under `under` opens to the key.
pub open spec fn is_wrapped_key(text: Seq<u8>, key: Seq<u8>, reason: Seq<u8>, under: WrappingKeyView) -> bool {
    &&& base64_decoded(text) is Some
    &&& cut(base64_decoded(text)->0) is Some
    &&& forall|with: WrappingKeyView| #[trigger]
        opens(under, with) ==> opened(cut(base64_decoded(text)->0)->0, reason, with) == Ok::<
            Seq<u8>,
            WrapError,
        >(key)
}

/// Whether the bridge wraps a key under its own: that is a symmetric key
/// to seal under, and the key to wrap leaves room for the nonce and the
/// tag in what the bridge hands out.
pub open spec fn bridge_wrappable(key: Seq<u8>, reason: Seq<u8>, under: WrappingKeyView) -> bool {
    &&& under.kind == ObjectKind::SymmetricKey
    &&& key.len() <= MAX_INPUT - 28
    &&& sealable(key, reason, under, None)
}

/// Whether `e` is what the bridge answers to a request to wrap that it
/// does not carry out. The caller is asked for the `Encrypt` right on the
/// key of the bridge before anything of the request is read. Then a key
/// that is no base64 is `MalformedInput`; a key of the bridge that is not
/// to be had, the error of `encryption_key`; a key that the bridge does
/// not wrap under its own, `UnsupportedAlgorithm`; and a refusal of the
/// cryptographic provider, `Internal`.
pub open spec fn wrap_refusal(records: Records, key_b64: Seq<u8>, reason: Seq<u8>, caller: Seq<char>, e: KmsError) -> bool {
    match gate(records, bridge_key(), caller, Right::Encrypt) {
        Err(refusal) => e == KmsError::of_storage(refusal),
        Ok(()) => match base64_decoded(key_b64) {
            None => e == KmsError::MalformedInput,
            Some(key) => match encryption_key(records, bridge_key(), caller) {
                Err(refusal) => e == refusal,
                Ok(under) => if bridge_wrappable(key, reason, under) {
                    e == KmsError::Internal
                } else {
                    e == KmsError::UnsupportedAlgorithm
                },
            },
        },
    }
}

/// Wraps a key for the bridge: the key comes in base64, is sealed under
/// the key of the bridge with the reason as associated data, and leaves
/// laid out and in base64. Whoever may decrypt with the key of the bridge
/// unwraps it again.
pub fn wrap_key<S: ObjectStore>(engine: &Engine<S>, key_b64: &str, reason: &str, caller: &Identity) -> (r:
    Result<String, KmsError>)
    requires
        engine.well_formed(),
    ensures
        match r {
            Ok(text) => {
                let under = encryption_key(engine.records(), bridge_key(), caller@);
                &&& base64_decoded(encode_utf8(key_b64@)) is Some
                &&& under is Ok
                &&& bridge_wrappable(
                    base64_decoded(encode_utf8(key_b64@))->0,
                    encode_utf8(reason@),
                    under->Ok_0,
                )
                &&& is_wrapped_key(
                    encode_utf8(text@),
                    base64_decoded(encode_utf8(key_b64@))->0,
                    encode_utf8(reason@),
                    under->Ok_0,
                )
            },
            Err(e) => wrap_refusal(
                engine.records(),
                encode_utf8(key_b64@),
                encode_utf8(reason@),
                caller@,
                e,
            ) || (e == KmsError::StorageError && !engine.store.reliable()),
        },
{
    let id = String::from_str("google_cse");
    match engine.store.permitted(&id, caller, Right::Encrypt) {
        Ok(()) => {},
        Err(e) => {
            return Err(KmsError::from_storage(e));
        },
    }
    let key = match base64_decode(key_b64.as_bytes()) {
        Ok(k) => Secret::new(k),
        Err(_) => {
            return Err(KmsError::MalformedInput);
        },
    };
    let under = match engine.encryption_key_of(&id, caller) {
        Ok(k) => k,
        Err(e) => {
            return Err(e);
        },
    };
    if under.kind != ObjectKind::SymmetricKey || key.len() > MAX_INPUT - 28 {
        return Err(KmsError::UnsupportedAlgorithm);
    }
    let sealed = match seal(key.as_slice(), reason.as_bytes(), &under, None) {
        Ok(s) => s,
        Err(e) => {
            return Err(KmsError::from_wrap(e));
        },
    };
    if sealed.algorithm != WrappingAlgorithm::Aes256Gcm || sealed.encapsulation.len() != 0
        || sealed.data.len() > MAX_INPUT - 28 {
        return Err(KmsError::Internal);
    }
    let blob = lay_out(&sealed);
    proof {
        assert(sealed@.encapsulation =~= Seq::<u8>::empty());
        lemma_cut_undoes_lay_out(sealed@);
    }
    Ok(base64_text(blob.as_slice()))
}

/// Unwraps what the bridge wrapped.
pub fn unwrap_key<S: ObjectStore>(engine: &Engine<S>, wrapped: &str, reason: &str, caller: &Identity) -> (r:
    Result<Vec<u8>, KmsError>)
    requires
        engine.well_formed(),
    ensures
        match r {
            Ok(key) => unwrapped_key(
                engine.records(),
                encode_utf8(wrapped@),
                encode_utf8(reason@),
                caller@,
            ) == Ok::<Seq<u8>, KmsError>(key@),
            Err(e) => unwrapped_key(
                engine.records(),
                encode_utf8(wrapped@),
                encode_utf8(reason@),
                caller@,
            ) == Err::<Seq<u8>, KmsError>(e) || (e == KmsError::StorageError
                && !engine.store.reliable()),
        },
{
    let id = String::from_str("google_cse");
    match engine.store.permitted(&id, caller, Right::Decrypt) {
        Ok(()) => {},
        Err(e) => {
            return Err(KmsError::from_storage(e));
        },
    }
    let blob = match base64_decode(wrapped.as_bytes()) {
        Ok(b) => b,
        Err(_) => {
            return Err(KmsError::MalformedInput);
        },
    };
    let sealed = match cut_blob(blob.as_slice()) {
        Some(s) => s,
        None => {
            return Err(KmsError::MalformedInput);
        },
    };
    engine.decrypt(&id, &sealed, reason.as_bytes(), caller)
}

/// The answer to a request to unwrap as the bridge hands it out: the key
/// in base64.
pub open spec fn unwrapped_text(records: Records, wrapped: Seq<u8>, reason: Seq<u8>, caller: Seq<char>) -> Result<
    Seq<u8>,
    KmsError,
> {
    match unwrapped_key(records, wrapped, reason, caller) {
        Err(e) => Err(e),
        Ok(key) => if key.len() > MAX_INPUT {
            Err(KmsError::Internal)
        } else {
            Ok(base64_of(key))
        },
    }
}

/// Unwraps what the bridge wrapped, and hands the key out in base64.
pub fn unwrap_key_text<S: ObjectStore>(engine: &Engine<S>, wrapped: &str, reason: &str, caller: &Identity) -> (r:
    Result<String, KmsError>)
    requires
        engine.well_formed(),
    ensures
        match r {
            Ok(text) => unwrapped_text(
                engine.records(),
                encode_utf8(wrapped@),
                encode_utf8(reason@),
                caller@,
            ) == Ok::<Seq<u8>, KmsError>(encode_utf8(text@)),
            Err(e) => unwrapped_text(
                engine.records(),
                encode_utf8(wrapped@),
                encode_utf8(reason@),
                caller@,
            ) == Err::<Seq<u8>, KmsError>(e) || (e == KmsError::StorageError
                && !engine.store.reliable()),
        },
{
    match unwrap_key(engine, wrapped, reason, caller) {
        Err(e) => Err(e),
        Ok(key) => {
            let key = Secret::new(key);
            if key.len() > MAX_INPUT {
                return Err(KmsError::Internal);
            }
            Ok(base64_text(key.as_slice()))
        },
    }
}

/// What the bridge answers to a request to sign with a wrapped private
/// key: the base64 text of the signature of the unwrapped key over the
/// digest. A digest that is no base64 is `MalformedInput`; a key that
/// does not sign it, `UnsupportedAlgorithm`.
pub open spec fn signed_digest(
    records: Records,
    wrapped: Seq<u8>,
    digest: Seq<u8>,
    reason: Seq<u8>,
    caller: Seq<char>,
) -> Result<Seq<u8>, KmsError> {
    match unwrapped_key(records, wrapped, reason, caller) {
        Err(e) => Err(e),
        Ok(key) => match base64_decoded(digest) {
            None => Err(KmsError::MalformedInput),
            Some(hash) => match rsa_signature(key, hash) {
                None => Err(KmsError::UnsupportedAlgorithm),
                Some(signature) => if signature.len() > MAX_INPUT {
                    Err(KmsError::UnsupportedAlgorithm)
                } else {
                    Ok(base64_of(signature))
                },
            },
        },
    }
}

/// Unwraps a wrapped private key and signs the digest with it.
pub fn private_key_sign<S: ObjectStore>(
    engine: &Engine<S>,
    wrapped_private_key: &str,
    digest: &str,
    reason: &str,
    caller: &Identity,
) -> (r: Result<String, KmsError>)
    requires
        engine.well_formed(),
    ensures
        match r {
            Ok(text) => signed_digest(
                engine.records(),
                encode_utf8(wrapped_private_key@),
                encode_utf8(digest@),
                encode_utf8(reason@),
                caller@,
            ) == Ok::<Seq<u8>, KmsError>(encode_utf8(text@)),
            Err(e) => signed_digest(
                engine.records(),
                encode_utf8(wrapped_private_key@),
                encode_utf8(digest@),
                encode_utf8(reason@),
                caller@,
            ) == Err::<Seq<u8>, KmsError>(e) || (e == KmsError::StorageError
                && !engine.store.reliable()),
        },
{
    let key = match unwrap_key(engine, wrapped_private_key, reason, caller) {
        Ok(k) => Secret::new(k),
        Err(e) => {
            return Err(e);
        },
    };
    let hash = match base64_decode(digest.as_bytes()) {
        Ok(h) => h,
        Err(_) => {
            return Err(KmsError::MalformedInput);
        },
    };
    match rsa_sign(key.as_slice(), hash.as_slice()) {
        Err(_) => Err(KmsError::UnsupportedAlgorithm),
        Ok(signature) => {
            if signature.len() > MAX_INPUT {
                return Err(KmsError::UnsupportedAlgorithm);
            }
            Ok(base64_text(signature.as_slice()))
        },
    }
}

/// What the bridge answers to a request to decrypt with a wrapped private
/// key: the base64 text of what the unwrapped key decrypts the data to,
/// under the label where one is given. A text that is no base64 is
/// `MalformedInput`; a key that does not decrypt the data, `WrongKey`.
pub open spec fn decrypted_key(
    records: Records,
    wrapped: Seq<u8>,
    data: Seq<u8>,
    label: Option<Seq<u8>>,
    reason: Seq<u8>,
    caller: Seq<char>,
) -> Result<Seq<u8>, KmsError> {
    match unwrapped_key(records, wrapped, reason, caller) {
        Err(e) => Err(e),
        Ok(key) => match base64_decoded(data) {
            None => Err(KmsError::MalformedInput),
            Some(sealed) => if label is Some && (base64_decoded(label->0) is None
                || base64_decoded(label->0)->0.len() > MAX_INPUT) {
                Err(KmsError::MalformedInput)
            } else {
                match rsa_label_opened(
                    key,
                    match label {
                        Some(l) => base64_decoded(l),
                        None => None,
                    },
                    sealed,
                ) {
                    None => Err(KmsError::WrongKey),
                    Some(plain) => if plain.len() > MAX_INPUT {
                        Err(KmsError::WrongKey)
                    } else {
                        Ok(base64_of(plain))
                    },
                }
            },
        },
    }
}

/// Unwraps a wrapped private key and decrypts with it the key that was
/// encrypted to its public key.
pub fn private_key_decrypt<S: ObjectStore>(
    engine: &Engine<S>,
    wrapped_private_key: &str,
    encrypted_key: &str,
    label: Option<&str>,
    reason: &str,
    caller: &Identity,
) -> (r: Result<String, KmsError>)
    requires
        engine.well_formed(),
    ensures
        match r {
            Ok(text) => decrypted_key(
                engine.records(),
                encode_utf8(wrapped_private_key@),
                encode_utf8(encrypted_key@),
                match label {
                    Some(l) => Some(encode_utf8(l@)),
                    None => None,
                },
                encode_utf8(reason@),
                caller@,
            ) == Ok::<Seq<u8>, KmsError>(encode_utf8(text@)),
            Err(e) => decrypted_key(
                engine.records(),
                encode_utf8(wrapped_private_key@),
                encode_utf8(encrypted_key@),
                match label {
                    Some(l) => Some(encode_utf8(l@)),
                    None => None,
                },
                encode_utf8(reason@),
                caller@,
            ) == Err::<Seq<u8>, KmsError>(e) || (e == KmsError::StorageError
                && !engine.store.reliable()),
        },
{
    let key = match unwrap_key(engine, wrapped_private_key, reason, caller) {
        Ok(k) => Secret::new(k),
        Err(e) => {
            return Err(e);
        },
    };
    let sealed = match base64_decode(encrypted_key.as_bytes()) {
        Ok(s) => s,
        Err(_) => {
            return Err(KmsError::MalformedInput);
        },
    };
    let label_bytes = match label {
        None => None,
        Some(l) => match base64_decode(l.as_bytes()) {
            Ok(b) => {
                if b.len() > MAX_INPUT {
                    return Err(KmsError::MalformedInput);
                }
                Some(b)
            },
            Err(_) => {
                return Err(KmsError::MalformedInput);
            },
        },
    };
    let opened = match &label_bytes {
        Some(b) => rsa_open_labelled(key.as_slice(), Some(b.as_slice()), sealed.as_slice()),
        None => rsa_open_labelled(key.as_slice(), None, sealed.as_slice()),
    };
    match opened {
        Err(_) => Err(KmsError::WrongKey),
        Ok(plain) => {
            let plain = Secret::new(plain);
            if plain.len() > MAX_INPUT {
                return Err(KmsError::WrongKey);
            }
            Ok(base64_text(plain.as_slice()))
        },
    }
}

/// A caller whom the key of the bridge refuses is answered with that
/// refusal whatever the request holds: nothing of it is read first.
pub proof fn lemma_bridge_asks_first(
    records: Records,
    wrapped: Seq<u8>,
    other: Seq<u8>,
    label: Option<Seq<u8>>,
    reason: Seq<u8>,
    caller: Seq<char>,
)
    requires
        gate(records, bridge_key(), caller, Right::Decrypt) is Err,
    ensures
        ({
            let refusal = KmsError::of_storage(
                gate(records, bridge_key(), caller, Right::Decrypt)->Err_0,
            );
            &&& unwrapped_key(records, wrapped, reason, caller) == Err::<Seq<u8>, KmsError>(refusal)
            &&& signed_digest(records, wrapped, other, reason, caller) == Err::<Seq<u8>, KmsError>(
                refusal,
            )
            &&& decrypted_key(records, wrapped, other, label, reason, caller) == Err::<
                Seq<u8>,
                KmsError,
            >(refusal)
        }),
{
}

/// Once the key of the bridge is gone, nothing is unwrapped: the answer
/// is `NotFound`.
pub proof fn lemma_bridge_key_gone(records: Records, wrapped: Seq<u8>, reason: Seq<u8>, caller: Seq<char>)
    requires
        !records.dom().contains(bridge_key()),
    ensures
        unwrapped_key(records, wrapped, reason, caller) == Err::<Seq<u8>, KmsError>(
            KmsError::NotFound,
        ),
{
}

/// What the bridge wrapped under its symmetric key, it unwraps to the key
/// that was wrapped, for a caller who may decrypt with the key of the
/// bridge and under the same reason.
pub proof fn lemma_bridge_round_trip(
    records: Records,
    text: Seq<u8>,
    key: Seq<u8>,
    reason: Seq<u8>,
    wrapper: Seq<char>,
    caller: Seq<char>,
)
    requires
        records.dom().contains(bridge_key()),
        records[bridge_key()].object.kind() == ObjectKind::SymmetricKey,
        encryption_key(records, bridge_key(), wrapper) is Ok,
        is_wrapped_key(text, key, reason, encryption_key(records, bridge_key(), wrapper)->Ok_0),
        crate::wrapping::algorithm_for(encryption_key(records, bridge_key(), wrapper)->Ok_0)
            is Some,
        decryption_key(records, bridge_key(), caller) is Ok,
    ensures
        unwrapped_key(records, text, reason, caller) == Ok::<Seq<u8>, KmsError>(key),
{
    let under = encryption_key(records, bridge_key(), wrapper)->Ok_0;
    let with = decryption_key(records, bridge_key(), caller)->Ok_0;
    assert(opens(under, with));
}

} // verus!
