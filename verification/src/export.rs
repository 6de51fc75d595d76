//! Export: how a stored object leaves the engine, plain in a requested
//! format or wrapped under a key of the caller's choice.

use vstd::prelude::*;
use crate::access::{
    Identity,
    Right,
};
use crate::codec::{
    KeyMaterial,
    KeyMaterialView,
    decode,
    decoded,
    encode,
    encoded,
};
use crate::crypto::wipe;
use crate::secret::Secret;
use crate::engine::{
    Engine,
    export_verdict,
};
use crate::error::{
    KmsError,
    StorageError,
    WrapError,
};
use crate::import::{blob_of, key_object, key_object_of, pairs, spki_of, unwrapping_key};
use crate::interchange::{
    read,
    to_interchange,
    written,
};
use crate::object::{
    KeyBlock,
    KeyFormatType,
    Object,
    ObjectKind,
    ObjectView,
};
use crate::storage::{ObjectStore, Records, gate, with_object};
use crate::wrapping::{
    WrappedBlob,
    WrappingKey,
    WrappingKeyView,
    undoes,
    unwrap,
    unwrapped,
    wrap,
    wrappable,
};

verus! {

/// What a caller asks for when it exports an object.
pub struct ExportRequest {
    pub id: String,
    /// The format of the bytes; under a wrapping, of the plaintext.
    pub format: KeyFormatType,
    /// The key or certificate to wrap under, if any.
    pub wrapping_key_id: Option<String>,
    /// Whether material that is stored wrapped is unwrapped first.
    pub unwrap: bool,
}

/// The material of a stored object that is not wrapped. A key block
/// without algorithm or length, or a certificate or a key held in PKCS#1
/// that does not parse, is a fault of the store.
pub open spec fn material_held(o: ObjectView) -> Result<KeyMaterialView, KmsError> {
    match o.key_block() {
        None => match decoded(o.bytes(), KeyFormatType::X509, None) {
            Ok(m) => Ok(m),
            Err(_) => Err(KmsError::Internal),
        },
        Some(b) => if b.cryptographic_algorithm is None || b.cryptographic_length is None {
            Err(KmsError::Internal)
        } else if o.kind() == ObjectKind::PrivateKey && b.key_format_type == KeyFormatType::PKCS1 {
            match decoded(b.key_material, KeyFormatType::PKCS1, b.cryptographic_algorithm) {
                Ok(m) => Ok(m),
                Err(_) => Err(KmsError::Internal),
            }
        } else {
            Ok(
                KeyMaterialView {
                    kind: o.kind(),
                    algorithm: b.cryptographic_algorithm->0,
                    length: b.cryptographic_length->0,
                    bytes: b.key_material,
                },
            )
        },
    }
}

/// The plain material of a stored object: what it holds, or, for one that
/// is stored wrapped, what unwrapping gives, if the request asks for it.
pub open spec fn plain_material(records: Records, id: Seq<char>, unwrap: bool, caller: Seq<char>) -> Result<
    KeyMaterialView,
    KmsError,
> {
    let o = records[id].object;
    if !o.is_wrapped() {
        material_held(o)
    } else if !unwrap {
        Err(KmsError::UnsupportedConversion)
    } else {
        let b = o.key_block()->0;
        let w = b.key_wrapping_data->0;
        match unwrapping_key(records, w.wrapping_key_id, caller) {
            Err(e) => Err(e),
            Ok(key) => match unwrapped(blob_of(b), key) {
                Err(e) => Err(KmsError::of_wrap(e)),
                Ok(plain) => match decoded(plain, w.original_format, b.cryptographic_algorithm) {
                    Err(e) => Err(KmsError::of_codec(e)),
                    Ok(m) => if m.kind != o.kind() {
                        Err(KmsError::InvalidParameter)
                    } else {
                        Ok(m)
                    },
                },
            },
        }
    }
}

/// The object that plain material stands for: the stored certificate, or
/// the key as it is held.
pub open spec fn plain_object(stored: ObjectView, m: KeyMaterialView) -> ObjectView {
    if stored.kind() == ObjectKind::Certificate {
        stored
    } else {
        key_object(m)
    }
}

/// The bytes of an export without wrapping. An object that is stored
/// wrapped leaves as it is in the interchange form alone; plain material
/// leaves in the requested format.
pub open spec fn exported(
    records: Records,
    id: Seq<char>,
    format: KeyFormatType,
    unwrap: bool,
    caller: Seq<char>,
) -> Result<Seq<u8>, KmsError> {
    match export_verdict(records, id, caller) {
        Err(e) => Err(KmsError::of_storage(e)),
        Ok(()) => {
            let o = records[id].object;
            if o.is_wrapped() && !unwrap && format == KeyFormatType::JsonInterchange {
                Ok(written(o))
            } else {
                match plain_material(records, id, unwrap, caller) {
                    Err(e) => Err(e),
                    Ok(m) => if format == KeyFormatType::JsonInterchange {
                        Ok(written(plain_object(o, m)))
                    } else {
                        match encoded(m, format) {
                            Ok(bytes) => Ok(bytes),
                            Err(e) => Err(KmsError::of_codec(e)),
                        }
                    },
                }
            }
        },
    }
}

/// The key under which the caller wraps what it exports. The caller needs
/// the `Encrypt` right on it; a key that is itself wrapped wraps nothing.
pub open spec fn wrapping_key(records: Records, id: Seq<char>, caller: Seq<char>) -> Result<
    WrappingKeyView,
    KmsError,
> {
    match gate(records, id, caller, Right::Encrypt) {
        Err(e) => Err(KmsError::of_storage(e)),
        Ok(()) => if records[id].object.is_wrapped() {
            Err(KmsError::WrongKey)
        } else {
            Ok(
                WrappingKeyView {
                    id,
                    kind: records[id].object.kind(),
                    material: records[id].object.bytes(),
                },
            )
        },
    }
}

/// The format of the plaintext under a wrapping: the requested one, or,
/// where the interchange form is requested, the one the kind is held in.
pub open spec fn inner_format(kind: ObjectKind, format: KeyFormatType) -> KeyFormatType {
    if format == KeyFormatType::JsonInterchange {
        kind.spec_canonical_format()
    } else {
        format
    }
}

/// What is wrapped in an export under a wrapping key, and under which
/// key: the plain material in the format of the plaintext. A certificate
/// is not wrapped.
pub open spec fn wrap_plan(
    records: Records,
    id: Seq<char>,
    format: KeyFormatType,
    wrapping_key_id: Seq<char>,
    unwrap: bool,
    caller: Seq<char>,
) -> Result<(KeyMaterialView, Seq<u8>, WrappingKeyView), KmsError> {
    match export_verdict(records, id, caller) {
        Err(e) => Err(KmsError::of_storage(e)),
        Ok(()) => if records[id].object.kind() == ObjectKind::Certificate {
            Err(KmsError::InvalidParameter)
        } else {
            match plain_material(records, id, unwrap, caller) {
                Err(e) => Err(e),
                Ok(m) => match encoded(m, inner_format(m.kind, format)) {
                    Err(e) => Err(KmsError::of_codec(e)),
                    Ok(plaintext) => match wrapping_key(records, wrapping_key_id, caller) {
                        Err(e) => Err(e),
                        Ok(key) => Ok((m, plaintext, key)),
                    },
                },
            }
        },
    }
}

/// Whether a document is a wrapped export as planned: it describes an
/// object of the kind, algorithm and length of the material, wrapped
/// under the planned key, and whoever holds the key that undoes the
/// wrapping gets the planned plaintext back from it.
pub open spec fn is_wrapped_export(
    doc: Seq<u8>,
    m: KeyMaterialView,
    plaintext: Seq<u8>,
    key: WrappingKeyView,
    format: KeyFormatType,
) -> bool {
    match read(doc) {
        Some(o) => {
            &&& o.kind() == m.kind
            &&& o.key_block() is Some
            &&& o.key_block()->0.cryptographic_algorithm == Some(m.algorithm)
            &&& o.key_block()->0.cryptographic_length == Some(m.length)
            &&& o.key_block()->0.key_format_type == inner_format(m.kind, format)
            &&& o.key_block()->0.key_wrapping_data is Some
            &&& o.key_block()->0.key_wrapping_data->0.wrapping_key_id == key.id
            &&& o.key_block()->0.key_wrapping_data->0.original_format == inner_format(
                m.kind,
                format,
            )
            &&& forall|with: WrappingKeyView| #[trigger]
                undoes(key, with) ==> unwrapped(blob_of(o.key_block()->0), with) == Ok::<
                    Seq<u8>,
                    WrapError,
                >(plaintext)
        },
        None => false,
    }
}

fn material_of_object(o: &Object) -> (r: Result<KeyMaterial, KmsError>)
    requires
        !o@.is_wrapped(),
    ensures
        match r {
            Ok(m) => material_held(o@) == Ok::<KeyMaterialView, KmsError>(m@),
            Err(e) => material_held(o@) == Err::<KeyMaterialView, KmsError>(e),
        },
{
    match o.key_block() {
        None => {
            match decode(o.bytes().as_slice(), KeyFormatType::X509, None) {
                Ok(m) => Ok(m),
                Err(_) => Err(KmsError::Internal),
            }
        },
        Some(b) => {
            match (b.cryptographic_algorithm, b.cryptographic_length) {
                (Some(algorithm), Some(length)) => {
                    if o.kind() == ObjectKind::PrivateKey && b.key_format_type
                        == KeyFormatType::PKCS1 {
                        match decode(
                            b.key_material.as_slice(),
                            KeyFormatType::PKCS1,
                            b.cryptographic_algorithm,
                        ) {
                            Ok(m) => Ok(m),
                            Err(_) => Err(KmsError::Internal),
                        }
                    } else {
                        Ok(
                            KeyMaterial {
                                kind: o.kind(),
                                algorithm,
                                length,
                                bytes: b.key_material.clone(),
                            },
                        )
                    }
                },
                _ => Err(KmsError::Internal),
            }
        },
    }
}

/// Whether `e` is what the wrapping of material under a key fails with:
/// `UnsupportedAlgorithm` where the material cannot be wrapped under the
/// key, `Internal` where it can and the cryptographic provider refused.
pub open spec fn wrap_refused(plaintext: Seq<u8>, key: WrappingKeyView, e: KmsError) -> bool {
    if wrappable(plaintext, key, None) {
        e == KmsError::Internal
    } else {
        e == KmsError::UnsupportedAlgorithm
    }
}

impl<S: ObjectStore> Engine<S> {
    /// The stored object, for a caller that may export it.
    fn fetch_for_export(&self, id: &String, caller: &Identity) -> (r: Result<Object, KmsError>)
        requires
            self.well_formed(),
        ensures
            match r {
                Ok(o) => export_verdict(self.records(), id@, caller@) is Ok && o@
                    == self.records()[id@].object,
                Err(e) => (export_verdict(self.records(), id@, caller@) is Err && e
                    == KmsError::of_storage(export_verdict(self.records(), id@, caller@)->Err_0))
                    || (e == KmsError::StorageError && !self.store.reliable()),
            },
    {
        let (object, _) = match self.store.fetch(id, caller, Right::Get) {
            Ok(found) => found,
            Err(e) => {
                return Err(KmsError::from_storage(e));
            },
        };
        let kind = object.kind();
        if kind == ObjectKind::PrivateKey || kind == ObjectKind::SymmetricKey {
            match self.store.permitted(id, caller, Right::Export) {
                Ok(()) => Ok(object),
                Err(e) => Err(KmsError::from_storage(e)),
            }
        } else {
            Ok(object)
        }
    }

    /// The plain material of a stored object.
    pub(crate) fn plain_material_of(&self, id: &String, object: &Object, unwrap_first: bool, caller: &Identity) -> (r:
        Result<KeyMaterial, KmsError>)
        requires
            self.well_formed(),
            object@ == self.records()[id@].object,
        ensures
            match r {
                Ok(m) => plain_material(self.records(), id@, unwrap_first, caller@) == Ok::<
                    KeyMaterialView,
                    KmsError,
                >(m@),
                Err(e) => plain_material(self.records(), id@, unwrap_first, caller@) == Err::<
                    KeyMaterialView,
                    KmsError,
                >(e) || (e == KmsError::StorageError && !self.store.reliable()),
            },
    {
        if !object.is_wrapped() {
            return material_of_object(object);
        }
        if !unwrap_first {
            return Err(KmsError::UnsupportedConversion);
        }
        let b = match object.key_block() {
            Some(b) => b,
            None => {
                return Err(KmsError::Internal);
            },
        };
        let w = match &b.key_wrapping_data {
            Some(w) => w,
            None => {
                return Err(KmsError::Internal);
            },
        };
        let key = match self.unwrapping_key(&w.wrapping_key_id, caller) {
            Ok(k) => k,
            Err(e) => {
                return Err(e);
            },
        };
        let blob = WrappedBlob { ciphertext: b.key_material.clone(), wrapping: w.clone() };
        match unwrap(&blob, &key) {
            Err(e) => Err(KmsError::from_wrap(e)),
            Ok(plain) => {
                let plain = Secret::new(plain);
                match decode(plain.as_slice(), w.original_format, b.cryptographic_algorithm) {
                    Err(e) => Err(KmsError::from_codec(e)),
                    Ok(m) => {
                        if m.kind != object.kind() {
                            Err(KmsError::InvalidParameter)
                        } else {
                            Ok(m)
                        }
                    },
                }
            },
        }
    }

    /// Finds the key under which the caller wraps what it exports.
    pub fn wrapping_key(&self, id: &String, caller: &Identity) -> (r: Result<WrappingKey, KmsError>)
        requires
            self.well_formed(),
        ensures
            match r {
                Ok(k) => wrapping_key(self.records(), id@, caller@) == Ok::<
                    WrappingKeyView,
                    KmsError,
                >(k@),
                Err(e) => wrapping_key(self.records(), id@, caller@) == Err::<
                    WrappingKeyView,
                    KmsError,
                >(e) || (e == KmsError::StorageError && !self.store.reliable()),
            },
    {
        match self.store.fetch(id, caller, Right::Encrypt) {
            Err(e) => Err(KmsError::from_storage(e)),
            Ok((object, _)) => {
                if object.is_wrapped() {
                    Err(KmsError::WrongKey)
                } else {
                    Ok(
                        WrappingKey {
                            id: id.clone(),
                            kind: object.kind(),
                            material: object.bytes().clone(),
                        },
                    )
                }
            },
        }
    }

    /// Exports an object without wrapping it: its bytes in the requested
    /// format. Secret keys leave only for a caller with the `Export`
    /// right.
    pub fn export_plain(&self, id: &String, format: KeyFormatType, unwrap_first: bool, caller: &Identity) -> (r:
        Result<Vec<u8>, KmsError>)
        requires
            self.well_formed(),
        ensures
            match r {
                Ok(bytes) => exported(self.records(), id@, format, unwrap_first, caller@) == Ok::<
                    Seq<u8>,
                    KmsError,
                >(bytes@),
                Err(e) => exported(self.records(), id@, format, unwrap_first, caller@) == Err::<
                    Seq<u8>,
                    KmsError,
                >(e) || (e == KmsError::StorageError && !self.store.reliable()),
            },
    {
        let object = match self.fetch_for_export(id, caller) {
            Ok(o) => o,
            Err(e) => {
                return Err(e);
            },
        };
        if object.is_wrapped() && !unwrap_first && format == KeyFormatType::JsonInterchange {
            return Ok(to_interchange(&object));
        }
        let material = match self.plain_material_of(id, &object, unwrap_first, caller) {
            Ok(m) => m,
            Err(e) => {
                return Err(e);
            },
        };
        let mut material = material;
        let r = if format == KeyFormatType::JsonInterchange {
            if object.kind() == ObjectKind::Certificate {
                Ok(to_interchange(&object))
            } else {
                let plain = key_object_of(material.clone());
                Ok(to_interchange(&plain))
            }
        } else {
            match encode(&material, format) {
                Ok(bytes) => Ok(bytes),
                Err(e) => Err(KmsError::from_codec(e)),
            }
        };
        wipe(&mut material.bytes);
        r
    }

    /// Exports a key wrapped under another key or a certificate, as an
    /// interchange document that carries the wrapping metadata.
    ///
    /// What is wrapped and under which key is `wrap_plan`; where that
    /// fails, so does the export, with the same error. Where it does not,
    /// the export fails with `UnsupportedAlgorithm` exactly where the key
    /// is not one to wrap the material under, and with `Internal` where
    /// the cryptographic provider refused.
    pub fn export_wrapped(
        &self,
        id: &String,
        format: KeyFormatType,
        wrapping_key_id: &String,
        unwrap_first: bool,
        caller: &Identity,
    ) -> (r: Result<Vec<u8>, KmsError>)
        requires
            self.well_formed(),
        ensures
            match r {
                Ok(doc) => {
                    let plan = wrap_plan(
                        self.records(),
                        id@,
                        format,
                        wrapping_key_id@,
                        unwrap_first,
                        caller@,
                    );
                    &&& plan is Ok
                    &&& wrappable(plan->Ok_0.1, plan->Ok_0.2, None)
                    &&& is_wrapped_export(doc@, plan->Ok_0.0, plan->Ok_0.1, plan->Ok_0.2, format)
                },
                Err(e) => {
                    let plan = wrap_plan(
                        self.records(),
                        id@,
                        format,
                        wrapping_key_id@,
                        unwrap_first,
                        caller@,
                    );
                    ||| plan == Err::<(KeyMaterialView, Seq<u8>, WrappingKeyView), KmsError>(e)
                    ||| (e == KmsError::StorageError && !self.store.reliable())
                    ||| (plan is Ok && wrap_refused(plan->Ok_0.1, plan->Ok_0.2, e))
                },
            },
    {
        let object = match self.fetch_for_export(id, caller) {
            Ok(o) => o,
            Err(e) => {
                return Err(e);
            },
        };
        let kind = object.kind();
        if kind == ObjectKind::Certificate {
            return Err(KmsError::InvalidParameter);
        }
        let mut material = match self.plain_material_of(id, &object, unwrap_first, caller) {
            Ok(m) => m,
            Err(e) => {
                return Err(e);
            },
        };
        let inner = if format == KeyFormatType::JsonInterchange {
            kind.canonical_format()
        } else {
            format
        };
        let encoding = encode(&material, inner);
        wipe(&mut material.bytes);
        let plaintext = match encoding {
            Ok(bytes) => Secret::new(bytes),
            Err(e) => {
                return Err(KmsError::from_codec(e));
            },
        };
        let key = match self.wrapping_key(wrapping_key_id, caller) {
            Ok(k) => k,
            Err(e) => {
                return Err(e);
            },
        };
        let blob = match wrap(plaintext.as_slice(), inner, &key, None) {
            Ok(b) => b,
            Err(e) => {
                return Err(KmsError::from_wrap(e));
            },
        };
        let ghost blob_view = blob@;
        let key_block = KeyBlock {
            key_format_type: inner,
            key_material: blob.ciphertext,
            cryptographic_algorithm: Some(material.algorithm),
            cryptographic_length: Some(material.length),
            key_wrapping_data: Some(blob.wrapping),
        };
        assert(blob_of(key_block@) == blob_view);
        let out = match kind {
            ObjectKind::SymmetricKey => Object::SymmetricKey { key_block },
            ObjectKind::PrivateKey => Object::PrivateKey { key_block },
            _ => Object::PublicKey { key_block },
        };
        Ok(to_interchange(&out))
    }

    /// Exports an object: plain, or wrapped under the key that the
    /// request names.
    pub fn export(&self, request: &ExportRequest, caller: &Identity) -> (r: Result<Vec<u8>, KmsError>)
        requires
            self.well_formed(),
        ensures
            request.wrapping_key_id is None ==> match r {
                Ok(bytes) => exported(
                    self.records(),
                    request.id@,
                    request.format,
                    request.unwrap,
                    caller@,
                ) == Ok::<Seq<u8>, KmsError>(bytes@),
                Err(e) => exported(
                    self.records(),
                    request.id@,
                    request.format,
                    request.unwrap,
                    caller@,
                ) == Err::<Seq<u8>, KmsError>(e) || (e == KmsError::StorageError
                    && !self.store.reliable()),
            },
            request.wrapping_key_id is Some ==> {
                let plan = wrap_plan(
                    self.records(),
                    request.id@,
                    request.format,
                    request.wrapping_key_id->0@,
                    request.unwrap,
                    caller@,
                );
                match r {
                    Ok(doc) => plan is Ok && wrappable(plan->Ok_0.1, plan->Ok_0.2, None)
                        && is_wrapped_export(
                        doc@,
                        plan->Ok_0.0,
                        plan->Ok_0.1,
                        plan->Ok_0.2,
                        request.format,
                    ),
                    Err(e) => {
                        ||| plan == Err::<(KeyMaterialView, Seq<u8>, WrappingKeyView), KmsError>(e)
                        ||| (e == KmsError::StorageError && !self.store.reliable())
                        ||| (plan is Ok && wrap_refused(plan->Ok_0.1, plan->Ok_0.2, e))
                    },
                }
            },
    {
        match &request.wrapping_key_id {
            None => self.export_plain(&request.id, request.format, request.unwrap, caller),
            Some(key_id) => self.export_wrapped(
                &request.id,
                request.format,
                key_id,
                request.unwrap,
                caller,
            ),
        }
    }
}

/// An object that is stored plain and well encoded leaves, in the encoding
/// in which it is held, as the bytes that are stored: whoever may export
/// it gets exactly them.
pub proof fn lemma_export_returns_stored_bytes(
    records: Records,
    id: Seq<char>,
    unwrap: bool,
    caller: Seq<char>,
)
    requires
        export_verdict(records, id, caller) is Ok,
        !records[id].object.is_wrapped(),
        !records[id].object.ill_encoded(),
        records[id].object.kind() == ObjectKind::SymmetricKey ==> {
            let b = records[id].object.key_block()->0;
            &&& b.cryptographic_algorithm is Some
            &&& b.cryptographic_algorithm->0.spec_is_symmetric()
            &&& b.cryptographic_length == Some((b.key_material.len() * 8) as usize)
            &&& b.key_material.len() * 8 <= usize::MAX
        },
    ensures
        exported(
            records,
            id,
            if records[id].object.kind() == ObjectKind::PrivateKey && records[id].object.format()
                == KeyFormatType::PKCS1 {
                KeyFormatType::PKCS1
            } else {
                records[id].object.kind().spec_canonical_format()
            },
            unwrap,
            caller,
        ) == Ok::<Seq<u8>, KmsError>(records[id].object.bytes()),
{
    let o = records[id].object;
    let m = material_held(o)->Ok_0;
    if o.kind() == ObjectKind::SymmetricKey {
        crate::codec::lemma_raw_round_trip(m);
    } else if o.kind() == ObjectKind::PrivateKey && o.format() == KeyFormatType::PKCS1 {
        assert(o.key_block()->0.well_encoded(o.kind()));
    } else {
        assert(m.canonical());
        crate::codec::lemma_canonical_round_trip(m);
    }
}

/// Whether an object is what a stored key becomes when it is wrapped anew
/// as planned: of the kind, algorithm and length of the material, held in
/// the encoding of its kind, and wrapped under the planned key so that
/// whoever holds the key that undoes the wrapping gets the planned
/// plaintext back.
pub open spec fn is_rewrapped(
    o: ObjectView,
    m: KeyMaterialView,
    plaintext: Seq<u8>,
    key: WrappingKeyView,
) -> bool {
    &&& o.kind() == m.kind
    &&& o.key_block() is Some
    &&& o.key_block()->0.cryptographic_algorithm == Some(m.algorithm)
    &&& o.key_block()->0.cryptographic_length == Some(m.length)
    &&& o.key_block()->0.key_format_type == m.kind.spec_canonical_format()
    &&& o.key_block()->0.key_wrapping_data is Some
    &&& o.key_block()->0.key_wrapping_data->0.wrapping_key_id == key.id
    &&& o.key_block()->0.key_wrapping_data->0.original_format == m.kind.spec_canonical_format()
    &&& forall|with: WrappingKeyView| #[trigger]
        undoes(key, with) ==> unwrapped(blob_of(o.key_block()->0), with) == Ok::<
            Seq<u8>,
            WrapError,
        >(plaintext)
}

/// What is wrapped when a stored key is wrapped anew, and under which key:
/// the material of a secret key, plain, in the encoding of its kind. A
/// public key or a certificate is not wrapped anew.
pub open spec fn rewrap_plan(
    records: Records,
    id: Seq<char>,
    wrapping_key_id: Seq<char>,
    caller: Seq<char>,
) -> Result<(KeyMaterialView, Seq<u8>, WrappingKeyView), KmsError> {
    match export_verdict(records, id, caller) {
        Err(e) => Err(KmsError::of_storage(e)),
        Ok(()) => if records[id].object.kind() == ObjectKind::PublicKey {
            Err(KmsError::InvalidParameter)
        } else {
            wrap_plan(
                records,
                id,
                KeyFormatType::JsonInterchange,
                wrapping_key_id,
                true,
                caller,
            )
        },
    }
}

impl<S: ObjectStore> Engine<S> {
    /// Wraps a stored key anew: its material, unwrapped where it is stored
    /// wrapped, is wrapped under the given key, and what is stored is the
    /// wrapped key with its new wrapping metadata. The plain material is
    /// at no time stored.
    ///
    /// What is wrapped and under which key is `rewrap_plan`; where that
    /// fails, so does the operation, with the same error, and nothing
    /// changes. Where it does not, the operation fails with
    /// `UnsupportedAlgorithm` exactly where the key is not one to wrap the
    /// material under, and with `Internal` where the cryptographic
    /// provider refused.
    pub fn rewrap(&mut self, id: &String, wrapping_key_id: &String, caller: &Identity) -> (r: Result<
        (),
        KmsError,
    >)
        requires
            old(self).well_formed(),
        ensures
            final(self).well_formed(),
            final(self).store.reliable() == old(self).store.reliable(),
            ({
                let plan = rewrap_plan(old(self).records(), id@, wrapping_key_id@, caller@);
                match r {
                    Ok(()) => {
                        &&& plan is Ok
                        &&& final(self).records().dom().contains(id@)
                        &&& final(self).records() == with_object(
                            old(self).records(),
                            id@,
                            final(self).records()[id@].object,
                        )
                        &&& is_rewrapped(
                            final(self).records()[id@].object,
                            plan->Ok_0.0,
                            plan->Ok_0.1,
                            plan->Ok_0.2,
                        )
                    },
                    Err(e) => {
                        &&& final(self).records() == old(self).records()
                        &&& {
                            ||| plan == Err::<(KeyMaterialView, Seq<u8>, WrappingKeyView), KmsError>(
                                e,
                            )
                            ||| (e == KmsError::StorageError && !old(self).store.reliable())
                            ||| (plan is Ok && wrap_refused(plan->Ok_0.1, plan->Ok_0.2, e))
                        }
                    },
                }
            }),
    {
        let object = match self.fetch_for_export(id, caller) {
            Ok(o) => o,
            Err(e) => {
                return Err(e);
            },
        };
        let kind = object.kind();
        if kind == ObjectKind::Certificate || kind == ObjectKind::PublicKey {
            return Err(KmsError::InvalidParameter);
        }
        let mut material = match self.plain_material_of(id, &object, true, caller) {
            Ok(m) => m,
            Err(e) => {
                return Err(e);
            },
        };
        let inner = kind.canonical_format();
        let encoding = encode(&material, inner);
        wipe(&mut material.bytes);
        let plaintext = match encoding {
            Ok(bytes) => Secret::new(bytes),
            Err(e) => {
                return Err(KmsError::from_codec(e));
            },
        };
        let key = match self.wrapping_key(wrapping_key_id, caller) {
            Ok(k) => k,
            Err(e) => {
                return Err(e);
            },
        };
        let blob = match wrap(plaintext.as_slice(), inner, &key, None) {
            Ok(b) => b,
            Err(e) => {
                return Err(KmsError::from_wrap(e));
            },
        };
        let ghost blob_view = blob@;
        let key_block = KeyBlock {
            key_format_type: inner,
            key_material: blob.ciphertext,
            cryptographic_algorithm: Some(material.algorithm),
            cryptographic_length: Some(material.length),
            key_wrapping_data: Some(blob.wrapping),
        };
        assert(blob_of(key_block@) == blob_view);
        let wrapped = match kind {
            ObjectKind::SymmetricKey => Object::SymmetricKey { key_block },
            ObjectKind::PrivateKey => Object::PrivateKey { key_block },
            _ => Object::PublicKey { key_block },
        };
        match self.store.update_object(id, wrapped, caller) {
            Ok(()) => Ok(()),
            Err(e) => {
                proof {
                    assert(gate(old(self).records(), id@, caller@, Right::Export) is Ok);
                }
                Err(KmsError::from_storage(e))
            },
        }
    }
}

/// What was wrapped under a stored key comes back with the key that the
/// engine unwraps with: a symmetric key or a private key in the encoding
/// of its kind undoes what was wrapped under itself, and the private key
/// that a public key or a certificate is linked to undoes what was wrapped
/// under that public key or certificate, where the two show the same
/// public key and the private key is sound.
pub proof fn lemma_linked_key_undoes(records: Records, id: Seq<char>, caller: Seq<char>)
    requires
        wrapping_key(records, id, caller) is Ok,
        unwrapping_key(records, id, caller) is Ok,
        crate::wrapping::algorithm_for(wrapping_key(records, id, caller)->Ok_0) is Some,
        records[id].object.kind() != ObjectKind::SymmetricKey ==> spki_of(records[id].object)
            is Some,
        records[id].object.kind() == ObjectKind::PublicKey || records[id].object.kind()
            == ObjectKind::Certificate ==> {
            let linked = records[records[id].attributes.links.private_key_id->0].object;
            spki_of(linked) is Some && pairs(records[id].object, linked)
        },
        unwrapping_key(records, id, caller)->Ok_0.kind == ObjectKind::PrivateKey
            ==> crate::crypto::sound_key(unwrapping_key(records, id, caller)->Ok_0.material),
    ensures
        undoes(wrapping_key(records, id, caller)->Ok_0, unwrapping_key(records, id, caller)->Ok_0),
{
}

} // verus!
