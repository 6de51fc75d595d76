//! Encryption and decryption with a stored key. A key that is stored
//! wrapped is unwrapped for the operation alone; the plain key is held in
//! a buffer that is wiped when the operation is done.

use vstd::prelude::*;
use crate::access::{Identity, Right};
use crate::crypto::sound_key;
use crate::error::WrapError;
use crate::export::{plain_material, wrapping_key};
use crate::import::{pairs, spki_of};
use crate::secret::Secret;
use crate::engine::Engine;
use crate::error::KmsError;
use crate::import::{blob_of, unwrapping_key};
use crate::object::{CryptographicAlgorithm, KeyFormatType, Object, ObjectKind};
use crate::codec::KeyMaterialView;
use crate::error::StorageError;
use crate::storage::{ObjectStore, Records, gate};
use crate::wrapping::{
    Sealed,
    WrappedBlob,
    WrappingKey,
    WrappingKeyView,
    algorithm_for,
    open,
    opened,
    opens,
    seal,
    sealable,
    unwrap,
    unwrapped,
};

verus! {

/// What encryption hands out: sealed data.
pub type Ciphertext = Sealed;

/// The key that an operation under a right works with: the bytes of a
/// stored AES key of 256 bits, unwrapped where it is stored wrapped. Any
/// other object is not one to encrypt with.
pub open spec fn cipher_key(records: Records, id: Seq<char>, caller: Seq<char>, right: Right) -> Result<
    Seq<u8>,
    KmsError,
> {
    match gate(records, id, caller, right) {
        Err(e) => Err(KmsError::of_storage(e)),
        Ok(()) => {
            let o = records[id].object;
            if o.kind() != ObjectKind::SymmetricKey || o.key_block()->0.cryptographic_algorithm
                != Some(CryptographicAlgorithm::AES) {
                Err(KmsError::UnsupportedAlgorithm)
            } else if !o.is_wrapped() {
                if o.bytes().len() != 32 {
                    Err(KmsError::UnsupportedAlgorithm)
                } else {
                    Ok(o.bytes())
                }
            } else {
                let b = o.key_block()->0;
                let w = b.key_wrapping_data->0;
                if w.original_format != KeyFormatType::Raw {
                    Err(KmsError::UnsupportedAlgorithm)
                } else {
                    match unwrapping_key(records, w.wrapping_key_id, caller) {
                        Err(e) => Err(e),
                        Ok(key) => match unwrapped(blob_of(b), key) {
                            Err(e) => Err(KmsError::of_wrap(e)),
                            Ok(plain) => if plain.len() != 32 {
                                Err(KmsError::UnsupportedAlgorithm)
                            } else {
                                Ok(plain)
                            },
                        },
                    }
                }
            }
        },
    }
}

/// The key that data is encrypted under, for a caller with the `Encrypt`
/// right: a stored AES key of 256 bits, or a plain public key,
/// certificate or private key, to whose public key the data is sealed.
pub open spec fn encryption_key(records: Records, id: Seq<char>, caller: Seq<char>) -> Result<
    WrappingKeyView,
    KmsError,
> {
    match gate(records, id, caller, Right::Encrypt) {
        Err(e) => Err(KmsError::of_storage(e)),
        Ok(()) => if records[id].object.kind() == ObjectKind::SymmetricKey {
            match cipher_key(records, id, caller, Right::Encrypt) {
                Ok(k) => Ok(WrappingKeyView { id, kind: ObjectKind::SymmetricKey, material: k }),
                Err(e) => Err(e),
            }
        } else {
            wrapping_key(records, id, caller)
        },
    }
}

/// The private key that decrypts for an object and is stored wrapped, if
/// there is one: the object itself, or the private key that a public key
/// or a certificate is linked to, where the caller holds the `Decrypt`
/// right on it.
pub open spec fn wrapped_private_key(records: Records, id: Seq<char>, caller: Seq<char>) -> Option<
    Seq<char>,
> {
    let o = records[id].object;
    if o.kind() == ObjectKind::PrivateKey {
        if o.is_wrapped() {
            Some(id)
        } else {
            None
        }
    } else {
        match records[id].attributes.links.private_key_id {
            Some(key_id) => if gate(records, key_id, caller, Right::Decrypt) is Ok
                && records[key_id].object.kind() == ObjectKind::PrivateKey
                && records[key_id].object.is_wrapped() {
                Some(key_id)
            } else {
                None
            },
            None => None,
        }
    }
}

/// The key that data is decrypted with, for a caller with the `Decrypt`
/// right: a stored AES key of 256 bits, a private key, or the private key
/// that a public key or a certificate is linked to. A symmetric or
/// private key that is stored wrapped is unwrapped for the operation.
pub open spec fn decryption_key(records: Records, id: Seq<char>, caller: Seq<char>) -> Result<
    WrappingKeyView,
    KmsError,
> {
    match gate(records, id, caller, Right::Decrypt) {
        Err(e) => Err(KmsError::of_storage(e)),
        Ok(()) => if records[id].object.kind() == ObjectKind::SymmetricKey {
            match cipher_key(records, id, caller, Right::Decrypt) {
                Ok(k) => Ok(WrappingKeyView { id, kind: ObjectKind::SymmetricKey, material: k }),
                Err(e) => Err(e),
            }
        } else {
            match wrapped_private_key(records, id, caller) {
                Some(key_id) => match plain_material(records, key_id, true, caller) {
                    Ok(m) => Ok(
                        WrappingKeyView { id, kind: ObjectKind::PrivateKey, material: m.bytes },
                    ),
                    Err(e) => Err(e),
                },
                None => unwrapping_key(records, id, caller),
            }
        },
    }
}

impl<S: ObjectStore> Engine<S> {
    /// The key that an operation under a right works with.
    fn cipher_key_of(&self, id: &String, caller: &Identity, right: Right) -> (r: Result<
        Secret,
        KmsError,
    >)
        requires
            self.well_formed(),
        ensures
            match r {
                Ok(k) => cipher_key(self.records(), id@, caller@, right) == Ok::<Seq<u8>, KmsError>(
                    k@,
                ),
                Err(e) => cipher_key(self.records(), id@, caller@, right) == Err::<
                    Seq<u8>,
                    KmsError,
                >(e) || (e == KmsError::StorageError && !self.store.reliable()),
            },
    {
        let (object, _) = match self.store.fetch(id, caller, right) {
            Ok(found) => found,
            Err(e) => {
                return Err(KmsError::from_storage(e));
            },
        };
        let b = match &object {
            Object::SymmetricKey { key_block } => key_block,
            _ => {
                return Err(KmsError::UnsupportedAlgorithm);
            },
        };
        match b.cryptographic_algorithm {
            Some(CryptographicAlgorithm::AES) => {},
            _ => {
                return Err(KmsError::UnsupportedAlgorithm);
            },
        }
        match &b.key_wrapping_data {
            None => {
                if b.key_material.len() != 32 {
                    Err(KmsError::UnsupportedAlgorithm)
                } else {
                    Ok(Secret::new(b.key_material.clone()))
                }
            },
            Some(w) => {
                if w.original_format != KeyFormatType::Raw {
                    return Err(KmsError::UnsupportedAlgorithm);
                }
                let key = match self.unwrapping_key(&w.wrapping_key_id, caller) {
                    Ok(k) => k,
                    Err(e) => {
                        return Err(e);
                    },
                };
                let blob = WrappedBlob { ciphertext: b.key_material.clone(), wrapping: w.clone() };
                match unwrap(&blob, &key) {
                    Err(e) => Err(KmsError::from_wrap(e)),
                    Ok(plain) => {
                        let plain = Secret::new(plain);
                        if plain.len() != 32 {
                            Err(KmsError::UnsupportedAlgorithm)
                        } else {
                            Ok(plain)
                        }
                    },
                }
            },
        }
    }

    /// The key that data is encrypted under.
    pub(crate) fn encryption_key_of(&self, id: &String, caller: &Identity) -> (r: Result<WrappingKey, KmsError>)
        requires
            self.well_formed(),
        ensures
            match r {
                Ok(k) => encryption_key(self.records(), id@, caller@) == Ok::<
                    WrappingKeyView,
                    KmsError,
                >(k@),
                Err(e) => encryption_key(self.records(), id@, caller@) == Err::<
                    WrappingKeyView,
                    KmsError,
                >(e) || (e == KmsError::StorageError && !self.store.reliable()),
            },
    {
        let (object, _) = match self.store.fetch(id, caller, Right::Encrypt) {
            Ok(found) => found,
            Err(e) => {
                return Err(KmsError::from_storage(e));
            },
        };
        if object.kind() == ObjectKind::SymmetricKey {
            match self.cipher_key_of(id, caller, Right::Encrypt) {
                Ok(k) => Ok(
                    WrappingKey { id: id.clone(), kind: ObjectKind::SymmetricKey, material: k.to_vec() },
                ),
                Err(e) => Err(e),
            }
        } else {
            self.wrapping_key(id, caller)
        }
    }

    /// The key that data is decrypted with.
    pub(crate) fn decryption_key_of(&self, id: &String, caller: &Identity) -> (r: Result<WrappingKey, KmsError>)
        requires
            self.well_formed(),
        ensures
            match r {
                Ok(k) => decryption_key(self.records(), id@, caller@) == Ok::<
                    WrappingKeyView,
                    KmsError,
                >(k@),
                Err(e) => decryption_key(self.records(), id@, caller@) == Err::<
                    WrappingKeyView,
                    KmsError,
                >(e) || (e == KmsError::StorageError && !self.store.reliable()),
            },
    {
        let (object, attributes) = match self.store.fetch(id, caller, Right::Decrypt) {
            Ok(found) => found,
            Err(e) => {
                return Err(KmsError::from_storage(e));
            },
        };
        if object.kind() == ObjectKind::SymmetricKey {
            match self.cipher_key_of(id, caller, Right::Decrypt) {
                Ok(k) => Ok(
                    WrappingKey { id: id.clone(), kind: ObjectKind::SymmetricKey, material: k.to_vec() },
                ),
                Err(e) => Err(e),
            }
        } else if object.kind() == ObjectKind::PrivateKey {
            if object.is_wrapped() {
                self.unwrapped_private_key(id, id, &object, caller)
            } else {
                self.unwrapping_key(id, caller)
            }
        } else {
            match &attributes.links.private_key_id {
                None => self.unwrapping_key(id, caller),
                Some(key_id) => {
                    match self.store.fetch(key_id, caller, Right::Decrypt) {
                        Ok((key, _)) => {
                            if key.kind() == ObjectKind::PrivateKey && key.is_wrapped() {
                                self.unwrapped_private_key(id, key_id, &key, caller)
                            } else {
                                self.unwrapping_key(id, caller)
                            }
                        },
                        Err(StorageError::Backend) => Err(KmsError::StorageError),
                        Err(_) => self.unwrapping_key(id, caller),
                    }
                },
            }
        }
    }

    /// The key under `id` that a private key stored wrapped under
    /// `key_id` gives when it is unwrapped for the operation.
    fn unwrapped_private_key(&self, id: &String, key_id: &String, key: &Object, caller: &Identity) -> (r:
        Result<WrappingKey, KmsError>)
        requires
            self.well_formed(),
            key@ == self.records()[key_id@].object,
        ensures
            match r {
                Ok(k) => plain_material(self.records(), key_id@, true, caller@) is Ok && k@ == (
                WrappingKeyView {
                    id: id@,
                    kind: ObjectKind::PrivateKey,
                    material: plain_material(self.records(), key_id@, true, caller@)->Ok_0.bytes,
                }),
                Err(e) => plain_material(self.records(), key_id@, true, caller@) == Err::<
                    KeyMaterialView,
                    KmsError,
                >(e) || (e == KmsError::StorageError && !self.store.reliable()),
            },
    {
        match self.plain_material_of(key_id, key, true, caller) {
            Ok(m) => Ok(
                WrappingKey { id: id.clone(), kind: ObjectKind::PrivateKey, material: m.bytes },
            ),
            Err(e) => Err(e),
        }
    }

    /// Encrypts data under a stored key, for a caller with the `Encrypt`
    /// right on it: under an AES key of 256 bits by authenticated
    /// encryption, to a public key, a certificate or the public half of a
    /// private key as the wrapping engine seals. Whoever holds a key that
    /// opens what is sealed under this one decrypts, under the same
    /// associated data, to what went in.
    ///
    /// Failure is the one of `encryption_key`; or `UnsupportedAlgorithm`,
    /// exactly where the key is not one to encrypt under or a size is
    /// beyond what the engine takes; or `Internal`, where the
    /// cryptographic provider refused.
    pub fn encrypt(&self, id: &String, plaintext: &[u8], aad: &[u8], caller: &Identity) -> (r: Result<
        Ciphertext,
        KmsError,
    >)
        requires
            self.well_formed(),
        ensures
            match r {
                Ok(c) => {
                    let key = encryption_key(self.records(), id@, caller@);
                    &&& key is Ok
                    &&& algorithm_for(key->Ok_0) == Some(c.algorithm)
                    &&& c.nonce@.len() == 12
                    &&& c.tag@.len() == 16
                    &&& forall|with: WrappingKeyView| #[trigger]
                        opens(key->Ok_0, with) ==> opened(c@, aad@, with) == Ok::<
                            Seq<u8>,
                            WrapError,
                        >(plaintext@)
                },
                Err(e) => {
                    let key = encryption_key(self.records(), id@, caller@);
                    ||| key == Err::<WrappingKeyView, KmsError>(e)
                    ||| (e == KmsError::StorageError && !self.store.reliable())
                    ||| (key is Ok && if sealable(plaintext@, aad@, key->Ok_0, None) {
                        e == KmsError::Internal
                    } else {
                        e == KmsError::UnsupportedAlgorithm
                    })
                },
            },
    {
        let key = match self.encryption_key_of(id, caller) {
            Ok(k) => k,
            Err(e) => {
                return Err(e);
            },
        };
        match seal(plaintext, aad, &key, None) {
            Ok(sealed) => Ok(sealed),
            Err(e) => Err(KmsError::from_wrap(e)),
        }
    }

    /// Decrypts data with a stored key, for a caller with the `Decrypt`
    /// right on it.
    pub fn decrypt(&self, id: &String, ciphertext: &Ciphertext, aad: &[u8], caller: &Identity) -> (r:
        Result<Vec<u8>, KmsError>)
        requires
            self.well_formed(),
        ensures
            match decryption_key(self.records(), id@, caller@) {
                Err(refusal) => r == Err::<Vec<u8>, KmsError>(refusal) || (r == Err::<
                    Vec<u8>,
                    KmsError,
                >(KmsError::StorageError) && !self.store.reliable()),
                Ok(key) => match r {
                    Ok(plaintext) => opened(ciphertext@, aad@, key) == Ok::<Seq<u8>, WrapError>(
                        plaintext@,
                    ),
                    Err(e) => (opened(ciphertext@, aad@, key) is Err && e == KmsError::of_wrap(
                        opened(ciphertext@, aad@, key)->Err_0,
                    )) || (e == KmsError::StorageError && !self.store.reliable()),
                },
            },
    {
        let key = match self.decryption_key_of(id, caller) {
            Ok(k) => k,
            Err(e) => {
                return Err(e);
            },
        };
        match open(ciphertext, aad, &key) {
            Ok(plaintext) => Ok(plaintext),
            Err(e) => Err(KmsError::from_wrap(e)),
        }
    }
}

/// What was encrypted under a stored key is decrypted with the key that
/// the engine decrypts with under the same identifier: a symmetric key or
/// a private key in the encoding of its kind opens what was sealed under
/// itself, and the private key that a public key or a certificate is
/// linked to opens what was sealed to that public key or certificate,
/// where the two show the same public key and the private key is sound.
pub proof fn lemma_decryption_key_opens(records: Records, id: Seq<char>, caller: Seq<char>)
    requires
        encryption_key(records, id, caller) is Ok,
        decryption_key(records, id, caller) is Ok,
        algorithm_for(encryption_key(records, id, caller)->Ok_0) is Some,
        records[id].object.kind() != ObjectKind::SymmetricKey ==> spki_of(records[id].object)
            is Some,
        records[id].object.kind() == ObjectKind::PublicKey || records[id].object.kind()
            == ObjectKind::Certificate ==> {
            let linked = records[records[id].attributes.links.private_key_id->0].object;
            spki_of(linked) is Some && pairs(records[id].object, linked)
        },
        decryption_key(records, id, caller)->Ok_0.kind == ObjectKind::PrivateKey ==> sound_key(
            decryption_key(records, id, caller)->Ok_0.material,
        ),
    ensures
        opens(encryption_key(records, id, caller)->Ok_0, decryption_key(records, id, caller)->Ok_0),
{
}

/// What was encrypted to a certificate or a public key is decrypted with
/// the sound private key that shows the same public key.
pub proof fn lemma_private_key_opens(
    records: Records,
    public_id: Seq<char>,
    private_id: Seq<char>,
    caller: Seq<char>,
)
    requires
        encryption_key(records, public_id, caller) is Ok,
        decryption_key(records, private_id, caller) is Ok,
        algorithm_for(encryption_key(records, public_id, caller)->Ok_0) is Some,
        records[public_id].object.kind() == ObjectKind::PublicKey
            || records[public_id].object.kind() == ObjectKind::Certificate,
        records[private_id].object.kind() == ObjectKind::PrivateKey,
        spki_of(records[public_id].object) is Some,
        spki_of(records[private_id].object) is Some,
        pairs(records[public_id].object, records[private_id].object),
        sound_key(decryption_key(records, private_id, caller)->Ok_0.material),
    ensures
        opens(
            encryption_key(records, public_id, caller)->Ok_0,
            decryption_key(records, private_id, caller)->Ok_0,
        ),
{
}

} // verus!
