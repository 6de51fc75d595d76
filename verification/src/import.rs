//! Import: how caller-supplied objects are brought into the form in which
//! they are held, tied to the objects they link to, and stored.

use vstd::prelude::*;
use crate::access::{AccessView, Identity, Right};
use crate::codec::{
    KeyMaterial,
    KeyMaterialView,
    decode,
    decode_pkcs12,
    decoded,
    decoded_pkcs12,
    encode,
    encoded,
};
use crate::crypto::{
    certificate_of,
    parse_certificate,
};
use crate::engine::Engine;
use crate::error::{
    CodecError,
    KmsError,
    StorageError,
};
use crate::object::{
    Attributes,
    AttributesView,
    CryptographicAlgorithm,
    KeyBlock,
    KeyBlockView,
    KeyFormatType,
    Links,
    LinksView,
    Object,
    ObjectKind,
    ObjectView,
    opt_string_view,
};
use crate::storage::{
    clone_tags,
    ObjectStore,
    RecordView,
    Records,
    gate,
    insert_verdict,
    tag_set,
    with_attributes,
};
use crate::wrapping::{
    WrappedBlob,
    WrappedBlobView,
    WrappingKey,
    WrappingKeyView,
    unwrap,
    unwrapped,
};

verus! {

/// What a caller hands in to have an object stored.
pub struct ImportRequest {
    /// The identifier to store under; without one the storage assigns it.
    pub id: Option<String>,
    /// The object as supplied: key bytes in the format its key block
    /// declares, or a certificate in binary or armoured form.
    pub object: Object,
    /// Whether wrapped material is unwrapped before it is stored.
    pub unwrap: bool,
    pub replace_existing: bool,
    pub tags: Vec<String>,
    pub links: Links,
}

/// The usage mask that an object of a kind gets: a symmetric key is for
/// encryption, decryption, wrapping and unwrapping; a private key for
/// signing, decryption and unwrapping; a public key or a certificate for
/// verification, encryption and wrapping.
pub open spec fn default_usage(kind: ObjectKind) -> u32 {
    match kind {
        ObjectKind::SymmetricKey => 60,
        ObjectKind::PrivateKey => 41,
        _ => 22,
    }
}

/// A key as it is held: of the material's kind, in the encoding of that
/// kind, with algorithm and length, not wrapped.
pub open spec fn key_object(m: KeyMaterialView) -> ObjectView {
    let key_block = KeyBlockView {
        key_format_type: m.kind.spec_canonical_format(),
        key_material: m.bytes,
        cryptographic_algorithm: Some(m.algorithm),
        cryptographic_length: Some(m.length),
        key_wrapping_data: None,
    };
    match m.kind {
        ObjectKind::SymmetricKey => ObjectView::SymmetricKey { key_block },
        ObjectKind::PrivateKey => ObjectView::PrivateKey { key_block },
        _ => ObjectView::PublicKey { key_block },
    }
}

/// An RSA private key as an object that holds it in PKCS#1.
pub open spec fn pkcs1_object(m: KeyMaterialView) -> Result<ObjectView, KmsError> {
    match encoded(m, KeyFormatType::PKCS1) {
        Err(e) => Err(KmsError::of_codec(e)),
        Ok(bytes) => Ok(
            ObjectView::PrivateKey {
                key_block: KeyBlockView {
                    key_format_type: KeyFormatType::PKCS1,
                    key_material: bytes,
                    cryptographic_algorithm: Some(m.algorithm),
                    cryptographic_length: Some(m.length),
                    key_wrapping_data: None,
                },
            },
        ),
    }
}

/// The object in which the private key of an archive is held: an RSA key
/// in PKCS#1, any other in the encoding of its kind.
pub open spec fn archive_key(m: KeyMaterialView) -> Result<ObjectView, KmsError> {
    if m.algorithm == CryptographicAlgorithm::RSA {
        pkcs1_object(m)
    } else {
        Ok(key_object(m))
    }
}

/// The bytes of a stored plain key in the encoding of its kind: what the
/// object holds, or, for a private key held in PKCS#1, what that decodes
/// to.
pub open spec fn key_bytes(o: ObjectView) -> Option<Seq<u8>> {
    match o {
        ObjectView::PrivateKey { key_block } => if key_block.key_format_type
            == KeyFormatType::PKCS1 {
            match decoded(
                key_block.key_material,
                KeyFormatType::PKCS1,
                key_block.cryptographic_algorithm,
            ) {
                Ok(m) => Some(m.bytes),
                Err(_) => None,
            }
        } else {
            Some(key_block.key_material)
        },
        _ => Some(o.bytes()),
    }
}

/// The form in which plain key bytes of a declared format are held: what
/// the codec decodes them to, if that is a key of the announced kind and
/// of the announced length, where one was announced. A private key that
/// comes in PKCS#1 is held in PKCS#1, any other key in the encoding of
/// its kind.
pub open spec fn held_plain(
    kind: ObjectKind,
    bytes: Seq<u8>,
    format: KeyFormatType,
    algorithm: Option<CryptographicAlgorithm>,
    length: Option<usize>,
) -> Result<ObjectView, KmsError> {
    match decoded(bytes, format, algorithm) {
        Err(e) => Err(KmsError::of_codec(e)),
        Ok(m) => if m.kind != kind || kind == ObjectKind::Certificate {
            Err(KmsError::InvalidParameter)
        } else if length is Some && length != Some(m.length) {
            Err(KmsError::InvalidParameter)
        } else if kind == ObjectKind::PrivateKey && format == KeyFormatType::PKCS1 {
            pkcs1_object(m)
        } else {
            Ok(key_object(m))
        },
    }
}

/// What a supplied certificate decodes to: it is read as binary, and
/// where that fails, as armoured text.
pub open spec fn decoded_certificate_input(value: Seq<u8>) -> Result<KeyMaterialView, CodecError> {
    match decoded(value, KeyFormatType::X509, None) {
        Ok(m) => Ok(m),
        Err(_) => decoded(value, KeyFormatType::PEM, None),
    }
}

/// The form in which a supplied certificate is held: its binary encoding
/// with the names of its subject and issuer.
pub open spec fn held_certificate(value: Seq<u8>) -> Result<ObjectView, KmsError> {
    match decoded_certificate_input(value) {
        Err(e) => Err(KmsError::of_codec(e)),
        Ok(m) => if m.kind != ObjectKind::Certificate {
            Err(KmsError::InvalidParameter)
        } else {
            match certificate_of(m.bytes) {
                None => Err(KmsError::MalformedInput),
                Some((_, subject, issuer, _)) => Ok(
                    ObjectView::Certificate { certificate_value: m.bytes, subject, issuer },
                ),
            }
        },
    }
}

/// The key with which the caller unwraps what names `id` as its wrapping
/// key. The caller needs the `Decrypt` right on it. A symmetric key or a
/// private key unwraps by itself; a public key or a certificate stands
/// for the private key it is linked to, on which the caller needs the
/// `Decrypt` right too; a key that is itself wrapped unwraps nothing.
pub open spec fn unwrapping_key(records: Records, id: Seq<char>, caller: Seq<char>) -> Result<
    WrappingKeyView,
    KmsError,
> {
    match gate(records, id, caller, Right::Decrypt) {
        Err(e) => Err(KmsError::of_storage(e)),
        Ok(()) => {
            let found = records[id].object;
            match found.kind() {
                ObjectKind::PublicKey | ObjectKind::Certificate => match records[id].attributes.links.private_key_id {
                    None => Err(KmsError::WrongKey),
                    Some(key_id) => match gate(records, key_id, caller, Right::Decrypt) {
                        Err(e) => Err(KmsError::of_storage(e)),
                        Ok(()) => if records[key_id].object.kind() != ObjectKind::PrivateKey
                            || records[key_id].object.is_wrapped() || key_bytes(
                            records[key_id].object,
                        ) is None {
                            Err(KmsError::WrongKey)
                        } else {
                            Ok(
                                WrappingKeyView {
                                    id,
                                    kind: ObjectKind::PrivateKey,
                                    material: key_bytes(records[key_id].object)->0,
                                },
                            )
                        },
                    },
                },
                kind => if found.is_wrapped() || key_bytes(found) is None {
                    Err(KmsError::WrongKey)
                } else {
                    Ok(WrappingKeyView { id, kind, material: key_bytes(found)->0 })
                },
            }
        },
    }
}

/// The wrapped blob that a key block with wrapping metadata holds.
pub open spec fn blob_of(b: KeyBlockView) -> WrappedBlobView {
    WrappedBlobView { ciphertext: b.key_material, wrapping: b.key_wrapping_data->0 }
}

/// The form in which a supplied object is held. Plain key bytes are
/// decoded; wrapped material is stored as it is, unless the request asks
/// to unwrap it first, and then what comes out is decoded.
pub open spec fn held(records: Records, input: ObjectView, unwrap: bool, caller: Seq<char>) -> Result<
    ObjectView,
    KmsError,
> {
    match input.key_block() {
        None => held_certificate(input.bytes()),
        Some(b) => match b.key_wrapping_data {
            None => held_plain(
                input.kind(),
                b.key_material,
                b.key_format_type,
                b.cryptographic_algorithm,
                b.cryptographic_length,
            ),
            Some(w) => if !unwrap {
                if w.original_format != b.key_format_type {
                    Err(KmsError::InvalidParameter)
                } else {
                    Ok(input)
                }
            } else {
                match unwrapping_key(records, w.wrapping_key_id, caller) {
                    Err(e) => Err(e),
                    Ok(key) => match unwrapped(blob_of(b), key) {
                        Err(e) => Err(KmsError::of_wrap(e)),
                        Ok(plain) => held_plain(
                            input.kind(),
                            plain,
                            w.original_format,
                            b.cryptographic_algorithm,
                            b.cryptographic_length,
                        ),
                    },
                }
            },
        },
    }
}

/// An exec result that is the expected one, or a storage failure on a
/// backend that is not reliable.
pub open spec fn or_failure<T>(got: Result<T, KmsError>, expected: Result<T, KmsError>, reliable: bool) -> bool {
    got == expected || (got == Err::<T, KmsError>(KmsError::StorageError) && !reliable)
}

fn default_usage_of(kind: ObjectKind) -> (r: u32)
    ensures
        r == default_usage(kind),
{
    match kind {
        ObjectKind::SymmetricKey => 60,
        ObjectKind::PrivateKey => 41,
        _ => 22,
    }
}

pub(crate) fn key_object_of(m: KeyMaterial) -> (r: Object)
    ensures
        r@ == key_object(m@),
{
    let kind = m.kind;
    let key_block = KeyBlock {
        key_format_type: kind.canonical_format(),
        key_material: m.bytes,
        cryptographic_algorithm: Some(m.algorithm),
        cryptographic_length: Some(m.length),
        key_wrapping_data: None,
    };
    match kind {
        ObjectKind::SymmetricKey => Object::SymmetricKey { key_block },
        ObjectKind::PrivateKey => Object::PrivateKey { key_block },
        _ => Object::PublicKey { key_block },
    }
}

/// Makes the object that holds an RSA private key in PKCS#1.
pub(crate) fn pkcs1_object_of(m: &KeyMaterial) -> (r: Result<Object, KmsError>)
    ensures
        match r {
            Ok(o) => pkcs1_object(m@) == Ok::<ObjectView, KmsError>(o@),
            Err(e) => pkcs1_object(m@) == Err::<ObjectView, KmsError>(e),
        },
{
    match encode(m, KeyFormatType::PKCS1) {
        Err(e) => Err(KmsError::from_codec(e)),
        Ok(bytes) => Ok(
            Object::PrivateKey {
                key_block: KeyBlock {
                    key_format_type: KeyFormatType::PKCS1,
                    key_material: bytes,
                    cryptographic_algorithm: Some(m.algorithm),
                    cryptographic_length: Some(m.length),
                    key_wrapping_data: None,
                },
            },
        ),
    }
}

/// The bytes of a stored plain key in the encoding of its kind.
pub(crate) fn key_bytes_of(o: &Object) -> (r: Option<Vec<u8>>)
    ensures
        match r {
            Some(bytes) => key_bytes(o@) == Some(bytes@),
            None => key_bytes(o@) is None,
        },
{
    match o {
        Object::PrivateKey { key_block } => {
            if key_block.key_format_type == KeyFormatType::PKCS1 {
                match decode(
                    key_block.key_material.as_slice(),
                    KeyFormatType::PKCS1,
                    key_block.cryptographic_algorithm,
                ) {
                    Ok(m) => Some(m.bytes),
                    Err(_) => None,
                }
            } else {
                Some(key_block.key_material.clone())
            }
        },
        _ => Some(o.bytes().clone()),
    }
}

/// Brings plain key bytes of a declared format into the form in which they
/// are held.
pub fn hold_plain(
    kind: ObjectKind,
    bytes: &[u8],
    format: KeyFormatType,
    algorithm: Option<CryptographicAlgorithm>,
    length: Option<usize>,
) -> (r: Result<Object, KmsError>)
    ensures
        match r {
            Ok(o) => held_plain(kind, bytes@, format, algorithm, length) == Ok::<
                ObjectView,
                KmsError,
            >(o@),
            Err(e) => held_plain(kind, bytes@, format, algorithm, length) == Err::<
                ObjectView,
                KmsError,
            >(e),
        },
{
    match decode(bytes, format, algorithm) {
        Err(e) => Err(KmsError::from_codec(e)),
        Ok(m) => {
            if m.kind != kind || kind == ObjectKind::Certificate {
                return Err(KmsError::InvalidParameter);
            }
            match length {
                Some(l) => {
                    if l != m.length {
                        return Err(KmsError::InvalidParameter);
                    }
                },
                None => {},
            }
            if kind == ObjectKind::PrivateKey && format == KeyFormatType::PKCS1 {
                return pkcs1_object_of(&m);
            }
            Ok(key_object_of(m))
        },
    }
}

/// Brings a supplied certificate into the form in which it is held.
pub fn hold_certificate(value: &[u8]) -> (r: Result<Object, KmsError>)
    ensures
        match r {
            Ok(o) => held_certificate(value@) == Ok::<ObjectView, KmsError>(o@),
            Err(e) => held_certificate(value@) == Err::<ObjectView, KmsError>(e),
        },
{
    let material = match decode(value, KeyFormatType::X509, None) {
        Ok(m) => m,
        Err(_) => {
            match decode(value, KeyFormatType::PEM, None) {
                Ok(m) => m,
                Err(e) => {
                    return Err(KmsError::from_codec(e));
                },
            }
        },
    };
    if material.kind != ObjectKind::Certificate {
        return Err(KmsError::InvalidParameter);
    }
    match parse_certificate(material.bytes.as_slice()) {
        Err(_) => Err(KmsError::MalformedInput),
        Ok(c) => Ok(
            Object::Certificate {
                certificate_value: material.bytes,
                subject: c.subject,
                issuer: c.issuer,
            },
        ),
    }
}

/// The public key that an object shows: a plain public key its bytes, a
/// plain private key the public half of what it holds in the encoding of
/// its kind, a certificate the key it certifies. A wrapped key and a symmetric key
/// show none.
pub open spec fn spki_of(o: ObjectView) -> Option<Seq<u8>> {
    match o {
        ObjectView::SymmetricKey { .. } => None,
        ObjectView::PublicKey { key_block } => if key_block.key_wrapping_data is None {
            Some(key_block.key_material)
        } else {
            None
        },
        ObjectView::PrivateKey { key_block } => if key_block.key_wrapping_data is None
            && key_bytes(o) is Some && crate::crypto::pkcs8_of(key_bytes(o)->0) == key_bytes(o) {
            crate::crypto::public_half(key_bytes(o)->0)
        } else {
            None
        },
        ObjectView::Certificate { certificate_value, .. } => match certificate_of(
            certificate_value,
        ) {
            Some((_, _, _, spki)) => Some(spki),
            None => None,
        },
    }
}

/// Two objects pair when they show the same public key, or one of them
/// shows none.
pub open spec fn pairs(a: ObjectView, b: ObjectView) -> bool {
    spki_of(a) is None || spki_of(b) is None || spki_of(a) == spki_of(b)
}

/// Whether a certificate names as its issuer the subject of another.
pub open spec fn issued_by(certificate: ObjectView, issuer: ObjectView) -> bool {
    match (certificate, issuer) {
        (
            ObjectView::Certificate { issuer: named, .. },
            ObjectView::Certificate { subject, .. },
        ) => named == subject,
        _ => false,
    }
}

/// The verdict on one link of a request: the object it names is not the
/// one being stored, the caller holds the `Link` right on it, it is of
/// the kind that the link is for, and it belongs to the object being
/// stored: the issuer's certificate by its subject, any other by the
/// public key that both show.
pub open spec fn link_verdict(
    records: Records,
    target: Option<Seq<char>>,
    wanted: ObjectKind,
    to_issuer: bool,
    object: ObjectView,
    caller: Seq<char>,
    own: Option<Seq<char>>,
) -> Result<(), KmsError> {
    match target {
        None => Ok(()),
        Some(t) => if own == Some(t) {
            Err(KmsError::InvalidParameter)
        } else {
            match gate(records, t, caller, Right::Link) {
                Err(e) => Err(KmsError::of_storage(e)),
                Ok(()) => if records[t].object.kind() != wanted {
                    Err(KmsError::InvalidParameter)
                } else if to_issuer && !issued_by(object, records[t].object) {
                    Err(KmsError::InvalidParameter)
                } else if !to_issuer && !pairs(object, records[t].object) {
                    Err(KmsError::InvalidParameter)
                } else {
                    Ok(())
                },
            }
        },
    }
}

/// The verdict on the links of a request: they are links that the kind of
/// object can carry, and each passes on its own; the first that does not
/// decides.
pub open spec fn links_verdict(
    records: Records,
    links: LinksView,
    object: ObjectView,
    caller: Seq<char>,
    own: Option<Seq<char>>,
) -> Result<(), KmsError> {
    let to_private = link_verdict(
        records,
        links.private_key_id,
        ObjectKind::PrivateKey,
        false,
        object,
        caller,
        own,
    );
    let to_public = link_verdict(
        records,
        links.public_key_id,
        ObjectKind::PublicKey,
        false,
        object,
        caller,
        own,
    );
    let to_certificate = link_verdict(
        records,
        links.certificate_id,
        ObjectKind::Certificate,
        false,
        object,
        caller,
        own,
    );
    if !links.fits(object.kind()) {
        Err(KmsError::InvalidParameter)
    } else if to_private is Err {
        to_private
    } else if to_public is Err {
        to_public
    } else if to_certificate is Err {
        to_certificate
    } else {
        link_verdict(
            records,
            links.issuer_certificate_id,
            ObjectKind::Certificate,
            true,
            object,
            caller,
            own,
        )
    }
}

/// What an import stores, or why it stores nothing: the object in the form
/// in which it is held, if its links pass and its identifier does not
/// collide.
pub open spec fn import_plan(
    records: Records,
    object: ObjectView,
    unwrap: bool,
    id: Option<Seq<char>>,
    replace_existing: bool,
    links: LinksView,
    caller: Seq<char>,
) -> Result<ObjectView, KmsError> {
    match held(records, object, unwrap, caller) {
        Err(e) => Err(e),
        Ok(stored) => match links_verdict(records, links, stored, caller, id) {
            Err(e) => Err(e),
            Ok(()) => match insert_verdict(records, id, replace_existing, caller) {
                Err(e) => Err(KmsError::of_storage(e)),
                Ok(()) => Ok(stored),
            },
        },
    }
}

impl ImportRequest {
    /// What the request stores, or why it stores nothing.
    pub open spec fn plan(self, records: Records, caller: Seq<char>) -> Result<ObjectView, KmsError> {
        import_plan(
            records,
            self.object@,
            self.unwrap,
            opt_string_view(self.id),
            self.replace_existing,
            self.links@,
            caller,
        )
    }
}

/// The links of an object after an object of a kind that links to it was
/// stored under `id`: they name it in the place for that kind.
pub open spec fn back_link(links: LinksView, kind: ObjectKind, id: Seq<char>) -> LinksView {
    match kind {
        ObjectKind::PrivateKey => LinksView { private_key_id: Some(id), ..links },
        ObjectKind::PublicKey => LinksView { public_key_id: Some(id), ..links },
        ObjectKind::Certificate => LinksView { certificate_id: Some(id), ..links },
        ObjectKind::SymmetricKey => links,
    }
}

/// The records after the object that a link names was linked back.
pub open spec fn linked_back(records: Records, target: Option<Seq<char>>, kind: ObjectKind, id: Seq<char>) -> Records {
    match target {
        None => records,
        Some(t) => with_attributes(
            records,
            t,
            AttributesView {
                links: back_link(records[t].attributes.links, kind, id),
                ..records[t].attributes
            },
        ),
    }
}

/// The records after every object that the links name, the issuer's
/// certificate aside, was linked back.
pub open spec fn all_linked(records: Records, links: LinksView, kind: ObjectKind, id: Seq<char>) -> Records {
    linked_back(
        linked_back(linked_back(records, links.private_key_id, kind, id), links.public_key_id, kind, id),
        links.certificate_id,
        kind,
        id,
    )
}

/// The record that an import stores.
pub open spec fn imported(
    id: Seq<char>,
    object: ObjectView,
    links: LinksView,
    tags: Set<Seq<char>>,
    caller: Seq<char>,
    now: u64,
) -> RecordView {
    RecordView::fresh(
        id,
        object,
        AttributesView::of(object, default_usage(object.kind()), links),
        tags,
        caller,
        now,
    )
}

/// The records after an import that went as planned.
pub open spec fn after_import(
    records: Records,
    id: Seq<char>,
    stored: ObjectView,
    links: LinksView,
    tags: Set<Seq<char>>,
    caller: Seq<char>,
    now: u64,
) -> Records {
    all_linked(
        records.insert(id, imported(id, stored, links, tags, caller, now)),
        links,
        stored.kind(),
        id,
    )
}

/// The public key that an object shows.
pub fn shown_key(o: &Object) -> (r: Option<Vec<u8>>)
    ensures
        match r {
            Some(spki) => spki_of(o@) == Some(spki@),
            None => spki_of(o@) is None,
        },
{
    match o {
        Object::SymmetricKey { .. } => None,
        Object::PublicKey { key_block } => {
            if key_block.key_wrapping_data.is_none() {
                Some(key_block.key_material.clone())
            } else {
                None
            }
        },
        Object::PrivateKey { key_block } => {
            if key_block.key_wrapping_data.is_some() {
                return None;
            }
            let held = match key_bytes_of(o) {
                Some(h) => h,
                None => {
                    return None;
                },
            };
            match crate::crypto::parse_private_key(held.as_slice()) {
                Ok(k) => {
                    if crate::bytes::eq_bytes(k.pkcs8.as_slice(), held.as_slice()) {
                        Some(k.spki)
                    } else {
                        None
                    }
                },
                Err(_) => None,
            }
        },
        Object::Certificate { certificate_value, .. } => {
            match parse_certificate(certificate_value.as_slice()) {
                Ok(c) => Some(c.spki),
                Err(_) => None,
            }
        },
    }
}

/// Whether two objects show the same public key, or one of them none.
pub fn do_pair(a: &Object, b: &Object) -> (r: bool)
    ensures
        r == pairs(a@, b@),
{
    match (shown_key(a), shown_key(b)) {
        (Some(x), Some(y)) => crate::bytes::eq_bytes(x.as_slice(), y.as_slice()),
        _ => true,
    }
}

/// Whether a certificate names as its issuer the subject of another.
pub fn is_issued_by(certificate: &Object, issuer: &Object) -> (r: bool)
    ensures
        r == issued_by(certificate@, issuer@),
{
    match (certificate, issuer) {
        (Object::Certificate { issuer: named, .. }, Object::Certificate { subject, .. }) => {
            crate::bytes::eq_bytes(named.as_slice(), subject.as_slice())
        },
        _ => false,
    }
}

fn id_is(own: &Option<String>, t: &String) -> (r: bool)
    ensures
        r == (opt_string_view(*own) == Some(t@)),
{
    match own {
        Some(o) => *o == *t,
        None => false,
    }
}

fn with_back_link(links: Links, kind: ObjectKind, id: &String) -> (r: Links)
    ensures
        r@ == back_link(links@, kind, id@),
{
    let mut links = links;
    match kind {
        ObjectKind::PrivateKey => {
            links.private_key_id = Some(id.clone());
        },
        ObjectKind::PublicKey => {
            links.public_key_id = Some(id.clone());
        },
        ObjectKind::Certificate => {
            links.certificate_id = Some(id.clone());
        },
        ObjectKind::SymmetricKey => {},
    }
    links
}

impl<S: ObjectStore> Engine<S> {
    /// Finds the key with which the caller unwraps what names `id` as its
    /// wrapping key.
    pub fn unwrapping_key(&self, id: &String, caller: &Identity) -> (r: Result<WrappingKey, KmsError>)
        requires
            self.well_formed(),
        ensures
            match r {
                Ok(k) => unwrapping_key(self.records(), id@, caller@) == Ok::<
                    WrappingKeyView,
                    KmsError,
                >(k@),
                Err(e) => unwrapping_key(self.records(), id@, caller@) == Err::<
                    WrappingKeyView,
                    KmsError,
                >(e) || (e == KmsError::StorageError && !self.store.reliable()),
            },
    {
        let (object, attributes) = match self.store.fetch(id, caller, Right::Decrypt) {
            Ok(found) => found,
            Err(e) => {
                return Err(KmsError::from_storage(e));
            },
        };
        match object.kind() {
            ObjectKind::PublicKey | ObjectKind::Certificate => {
                match &attributes.links.private_key_id {
                    None => Err(KmsError::WrongKey),
                    Some(key_id) => {
                        match self.store.fetch(key_id, caller, Right::Decrypt) {
                            Err(e) => Err(KmsError::from_storage(e)),
                            Ok((key, _)) => {
                                if key.kind() != ObjectKind::PrivateKey || key.is_wrapped() {
                                    return Err(KmsError::WrongKey);
                                }
                                match key_bytes_of(&key) {
                                    None => Err(KmsError::WrongKey),
                                    Some(material) => Ok(
                                        WrappingKey {
                                            id: id.clone(),
                                            kind: ObjectKind::PrivateKey,
                                            material,
                                        },
                                    ),
                                }
                            },
                        }
                    },
                }
            },
            kind => {
                if object.is_wrapped() {
                    return Err(KmsError::WrongKey);
                }
                match key_bytes_of(&object) {
                    None => Err(KmsError::WrongKey),
                    Some(material) => Ok(WrappingKey { id: id.clone(), kind, material }),
                }
            },
        }
    }

    /// Brings a supplied object into the form in which it is held.
    pub fn hold(&self, object: &Object, unwrap_first: bool, caller: &Identity) -> (r: Result<
        Object,
        KmsError,
    >)
        requires
            self.well_formed(),
        ensures
            match r {
                Ok(o) => held(self.records(), object@, unwrap_first, caller@) == Ok::<
                    ObjectView,
                    KmsError,
                >(o@),
                Err(e) => held(self.records(), object@, unwrap_first, caller@) == Err::<
                    ObjectView,
                    KmsError,
                >(e) || (e == KmsError::StorageError && !self.store.reliable()),
            },
    {
        let kind = object.kind();
        match object.key_block() {
            None => hold_certificate(object.bytes().as_slice()),
            Some(b) => {
                match &b.key_wrapping_data {
                    None => hold_plain(
                        kind,
                        b.key_material.as_slice(),
                        b.key_format_type,
                        b.cryptographic_algorithm,
                        b.cryptographic_length,
                    ),
                    Some(w) => {
                        if !unwrap_first {
                            if w.original_format != b.key_format_type {
                                Err(KmsError::InvalidParameter)
                            } else {
                                Ok(object.clone())
                            }
                        } else {
                            let key = match self.unwrapping_key(&w.wrapping_key_id, caller) {
                                Ok(k) => k,
                                Err(e) => {
                                    return Err(e);
                                },
                            };
                            let blob = WrappedBlob {
                                ciphertext: b.key_material.clone(),
                                wrapping: w.clone(),
                            };
                            match unwrap(&blob, &key) {
                                Err(e) => Err(KmsError::from_wrap(e)),
                                Ok(plain) => {
                                    let plain = crate::secret::Secret::new(plain);
                                    hold_plain(
                                        kind,
                                        plain.as_slice(),
                                        w.original_format,
                                        b.cryptographic_algorithm,
                                        b.cryptographic_length,
                                    )
                                },
                            }
                        }
                    },
                }
            },
        }
    }

    /// Checks one link of a request.
    fn check_link(
        &self,
        target: &Option<String>,
        wanted: ObjectKind,
        to_issuer: bool,
        object: &Object,
        caller: &Identity,
        own: &Option<String>,
    ) -> (r: Result<(), KmsError>)
        requires
            self.well_formed(),
        ensures
            or_failure(
                r,
                link_verdict(
                    self.records(),
                    opt_string_view(*target),
                    wanted,
                    to_issuer,
                    object@,
                    caller@,
                    opt_string_view(*own),
                ),
                self.store.reliable(),
            ),
    {
        match target {
            None => Ok(()),
            Some(t) => {
                if id_is(own, t) {
                    return Err(KmsError::InvalidParameter);
                }
                match self.store.fetch(t, caller, Right::Link) {
                    Err(e) => Err(KmsError::from_storage(e)),
                    Ok((linked, _)) => {
                        if linked.kind() != wanted {
                            Err(KmsError::InvalidParameter)
                        } else if to_issuer && !is_issued_by(object, &linked) {
                            Err(KmsError::InvalidParameter)
                        } else if !to_issuer && !do_pair(object, &linked) {
                            Err(KmsError::InvalidParameter)
                        } else {
                            Ok(())
                        }
                    },
                }
            },
        }
    }

    /// Checks the links of a request.
    fn check_links(&self, links: &Links, object: &Object, caller: &Identity, own: &Option<String>) -> (r:
        Result<(), KmsError>)
        requires
            self.well_formed(),
        ensures
            or_failure(
                r,
                links_verdict(self.records(), links@, object@, caller@, opt_string_view(*own)),
                self.store.reliable(),
            ),
    {
        if !links.fits(object.kind()) {
            return Err(KmsError::InvalidParameter);
        }
        match self.check_link(
            &links.private_key_id,
            ObjectKind::PrivateKey,
            false,
            object,
            caller,
            own,
        ) {
            Err(e) => {
                return Err(e);
            },
            Ok(()) => {},
        }
        match self.check_link(
            &links.public_key_id,
            ObjectKind::PublicKey,
            false,
            object,
            caller,
            own,
        ) {
            Err(e) => {
                return Err(e);
            },
            Ok(()) => {},
        }
        match self.check_link(
            &links.certificate_id,
            ObjectKind::Certificate,
            false,
            object,
            caller,
            own,
        ) {
            Err(e) => {
                return Err(e);
            },
            Ok(()) => {},
        }
        self.check_link(
            &links.issuer_certificate_id,
            ObjectKind::Certificate,
            true,
            object,
            caller,
            own,
        )
    }

    /// Links the object that a link names back to the object stored under
    /// `id`.
    fn link_back(&mut self, target: &Option<String>, kind: ObjectKind, id: &String, caller: &Identity) -> (r:
        Result<(), KmsError>)
        requires
            old(self).well_formed(),
            target is Some ==> gate(old(self).records(), target->0@, caller@, Right::Link) is Ok,
        ensures
            final(self).well_formed(),
            final(self).store.reliable() == old(self).store.reliable(),
            match r {
                Ok(()) => final(self).records() == linked_back(
                    old(self).records(),
                    opt_string_view(*target),
                    kind,
                    id@,
                ),
                Err(e) => final(self).records() == old(self).records() && e
                    == KmsError::StorageError && !old(self).store.reliable() && target is Some,
            },
    {
        match target {
            None => Ok(()),
            Some(t) => {
                let (_, attributes) = match self.store.fetch(t, caller, Right::Link) {
                    Ok(found) => found,
                    Err(_) => {
                        return Err(KmsError::StorageError);
                    },
                };
                let changed = Attributes {
                    object_type: attributes.object_type,
                    key_format_type: attributes.key_format_type,
                    cryptographic_algorithm: attributes.cryptographic_algorithm,
                    cryptographic_length: attributes.cryptographic_length,
                    cryptographic_usage_mask: attributes.cryptographic_usage_mask,
                    links: with_back_link(attributes.links, kind, id),
                };
                match self.store.update_attributes(t, changed, caller) {
                    Ok(()) => Ok(()),
                    Err(_) => Err(KmsError::StorageError),
                }
            },
        }
    }

    /// Imports an object: brings it into the form in which it is held,
    /// checks its links, stores it for the caller, and links the objects
    /// it names back to it.
    ///
    /// On success the records are those before with the new record put
    /// under its identifier (in place of what was there, where the request
    /// asked to replace it) and with the linked objects naming it. On any
    /// failure but a storage failure nothing changed and the error is the
    /// one of `import_plan`; among them `AlreadyExists` for an identifier
    /// that is taken and not to be replaced. A storage failure comes from
    /// an unreliable backend only, and can leave the object stored with
    /// some of its links not yet answered.
    pub fn import(&mut self, request: ImportRequest, caller: &Identity, now: u64) -> (r: Result<
        String,
        KmsError,
    >)
        requires
            old(self).well_formed(),
        ensures
            final(self).well_formed(),
            final(self).store.reliable() == old(self).store.reliable(),
            match r {
                Ok(id) => {
                    let plan = request.plan(old(self).records(), caller@);
                    &&& plan is Ok
                    &&& request.id is Some ==> id@ == request.id->0@
                    &&& request.id is None ==> !old(self).records().dom().contains(id@)
                    &&& final(self).records() == after_import(
                        old(self).records(),
                        id@,
                        plan->Ok_0,
                        request.links@,
                        tag_set(request.tags@),
                        caller@,
                        now,
                    )
                },
                Err(e) => if e == KmsError::StorageError {
                    !old(self).store.reliable() && (request.links@ == LinksView::none()
                        ==> final(self).records() == old(self).records())
                } else {
                    final(self).records() == old(self).records() && request.plan(
                        old(self).records(),
                        caller@,
                    ) == Err::<ObjectView, KmsError>(e)
                },
            },
    {
        let ghost before = self.records();
        let object = match self.hold(&request.object, request.unwrap, caller) {
            Ok(o) => o,
            Err(e) => {
                return Err(e);
            },
        };
        let kind = object.kind();
        match self.check_links(&request.links, &object, caller, &request.id) {
            Ok(()) => {},
            Err(e) => {
                return Err(e);
            },
        }
        let links = request.links.clone();
        let attributes = object.attributes(default_usage_of(kind), request.links);
        let ghost plan = object@;
        let id = match self.store.insert(
            request.id,
            object,
            attributes,
            request.tags,
            request.replace_existing,
            caller,
            now,
        ) {
            Ok(id) => id,
            Err(e) => {
                return Err(KmsError::from_storage(e));
            },
        };
        let ghost stored = self.records();
        proof {
            self.store.lemma_keyed();
            assert(stored == before.insert(
                id@,
                imported(id@, plan, request.links@, tag_set(request.tags@), caller@, now),
            ));
        }
        match self.link_back(&links.private_key_id, kind, &id, caller) {
            Ok(()) => {},
            Err(e) => {
                return Err(e);
            },
        }
        match self.link_back(&links.public_key_id, kind, &id, caller) {
            Ok(()) => {},
            Err(e) => {
                return Err(e);
            },
        }
        match self.link_back(&links.certificate_id, kind, &id, caller) {
            Ok(()) => {},
            Err(e) => {
                return Err(e);
            },
        }
        Ok(id)
    }
}

/// After an object was imported with a link to another, that other names
/// it in the place for its kind: a private key names the certificate that
/// was imported with a link to it, and so for the other kinds.
pub proof fn lemma_links_are_symmetric(
    records: Records,
    links: LinksView,
    kind: ObjectKind,
    id: Seq<char>,
    target: Seq<char>,
)
    requires
        kind != ObjectKind::SymmetricKey,
        links.private_key_id == Some(target) || links.public_key_id == Some(target)
            || links.certificate_id == Some(target),
    ensures
        all_linked(records, links, kind, id).dom().contains(target),
        back_link(all_linked(records, links, kind, id)[target].attributes.links, kind, id)
            == all_linked(records, links, kind, id)[target].attributes.links,
        kind == ObjectKind::Certificate ==> all_linked(
            records,
            links,
            kind,
            id,
        )[target].attributes.links.certificate_id == Some(id),
        kind == ObjectKind::PrivateKey ==> all_linked(
            records,
            links,
            kind,
            id,
        )[target].attributes.links.private_key_id == Some(id),
        kind == ObjectKind::PublicKey ==> all_linked(
            records,
            links,
            kind,
            id,
        )[target].attributes.links.public_key_id == Some(id),
{
}

/// Linking back changes the attributes of the linked objects alone: every
/// other record, the new one among them, is as it was stored.
pub proof fn lemma_links_touch_targets_only(
    records: Records,
    links: LinksView,
    kind: ObjectKind,
    id: Seq<char>,
    other: Seq<char>,
)
    requires
        links.private_key_id != Some(other),
        links.public_key_id != Some(other),
        links.certificate_id != Some(other),
    ensures
        all_linked(records, links, kind, id).dom().contains(other) == records.dom().contains(other),
        all_linked(records, links, kind, id)[other] == records[other],
{
}

/// An import under an identifier that is taken: without the request to
/// replace, it fails with `AlreadyExists`, if nothing else is wrong with
/// it; with the request, it is planned for a caller with the `Destroy`
/// right on what is there, and what is then stored under the identifier
/// is the new object; for any other caller it is refused as the
/// destruction would be.
pub proof fn lemma_id_collision(
    records: Records,
    object: ObjectView,
    unwrap: bool,
    id: Seq<char>,
    replace_existing: bool,
    links: LinksView,
    tags: Set<Seq<char>>,
    caller: Seq<char>,
    now: u64,
)
    requires
        records.dom().contains(id),
        held(records, object, unwrap, caller) is Ok,
        links_verdict(
            records,
            links,
            held(records, object, unwrap, caller)->Ok_0,
            caller,
            Some(id),
        ) is Ok,
    ensures
        !replace_existing ==> import_plan(
            records,
            object,
            unwrap,
            Some(id),
            replace_existing,
            links,
            caller,
        ) == Err::<ObjectView, KmsError>(KmsError::AlreadyExists),
        replace_existing && gate(records, id, caller, Right::Destroy) is Err ==> import_plan(
            records,
            object,
            unwrap,
            Some(id),
            replace_existing,
            links,
            caller,
        ) == Err::<ObjectView, KmsError>(
            KmsError::of_storage(gate(records, id, caller, Right::Destroy)->Err_0),
        ),
        replace_existing && gate(records, id, caller, Right::Destroy) is Ok ==> {
            let stored = held(records, object, unwrap, caller)->Ok_0;
            &&& import_plan(records, object, unwrap, Some(id), replace_existing, links, caller)
                == Ok::<ObjectView, KmsError>(stored)
            &&& after_import(records, id, stored, links, tags, caller, now)[id] == imported(
                id,
                stored,
                links,
                tags,
                caller,
                now,
            )
        },
{
    let stored = held(records, object, unwrap, caller)->Ok_0;
    if replace_existing {
        lemma_links_touch_targets_only(
            records.insert(id, imported(id, stored, links, tags, caller, now)),
            links,
            stored.kind(),
            id,
            id,
        );
    }
}

/// After a certificate was imported with a link to a private key, the
/// attributes of the key name the certificate; and so for every kind of
/// object and every link but the one to the issuer's certificate.
pub proof fn lemma_import_links_back(
    records: Records,
    id: Seq<char>,
    stored: ObjectView,
    links: LinksView,
    tags: Set<Seq<char>>,
    caller: Seq<char>,
    now: u64,
    target: Seq<char>,
)
    requires
        stored.kind() != ObjectKind::SymmetricKey,
        links.private_key_id == Some(target) || links.public_key_id == Some(target)
            || links.certificate_id == Some(target),
    ensures
        after_import(records, id, stored, links, tags, caller, now).dom().contains(target),
        stored.kind() == ObjectKind::Certificate ==> after_import(
            records,
            id,
            stored,
            links,
            tags,
            caller,
            now,
        )[target].attributes.links.certificate_id == Some(id),
        stored.kind() == ObjectKind::PrivateKey ==> after_import(
            records,
            id,
            stored,
            links,
            tags,
            caller,
            now,
        )[target].attributes.links.private_key_id == Some(id),
        stored.kind() == ObjectKind::PublicKey ==> after_import(
            records,
            id,
            stored,
            links,
            tags,
            caller,
            now,
        )[target].attributes.links.public_key_id == Some(id),
{
    lemma_links_are_symmetric(
        records.insert(id, imported(id, stored, links, tags, caller, now)),
        links,
        stored.kind(),
        id,
        target,
    );
}

/// The certificate of an archive as it is handed to the import.
pub open spec fn certificate_input(der: Seq<u8>) -> ObjectView {
    ObjectView::Certificate { certificate_value: der, subject: Seq::empty(), issuer: Seq::empty() }
}

/// The links of a certificate to its private key alone.
pub open spec fn links_to_key(key_id: Seq<char>) -> LinksView {
    LinksView { private_key_id: Some(key_id), ..LinksView::none() }
}

/// The key of an archive was stored under `key_id`, and the import of its
/// certificate, linked to that key, was then refused with `e`.
pub open spec fn certificate_refused(
    before: Records,
    after: Records,
    key_id: Seq<char>,
    id: Option<Seq<char>>,
    key: ObjectView,
    certificate: Seq<u8>,
    tags: Set<Seq<char>>,
    caller: Seq<char>,
    now: u64,
    e: KmsError,
) -> bool {
    &&& id is Some ==> key_id == id->0
    &&& id is None ==> !before.dom().contains(key_id)
    &&& after == after_import(before, key_id, key, LinksView::none(), tags, caller, now)
    &&& import_plan(
        after,
        certificate_input(certificate),
        false,
        None,
        false,
        links_to_key(key_id),
        caller,
    ) == Err::<ObjectView, KmsError>(e)
}

/// Whether `e` is a failure that the import of an archive answers with,
/// and `after` what it leaves: the codec's error where the archive does
/// not open, and nothing changed; the error of the key's plan, and
/// nothing changed; the error of the certificate's plan, and the key
/// stored; or a storage failure on a backend that is not reliable.
pub open spec fn archive_refused(
    before: Records,
    after: Records,
    reliable: bool,
    contents: Result<(KeyMaterialView, Option<Seq<u8>>, Seq<Seq<u8>>), crate::error::CodecError>,
    id: Option<Seq<char>>,
    replace_existing: bool,
    tags: Set<Seq<char>>,
    caller: Seq<char>,
    now: u64,
    e: KmsError,
) -> bool {
    match contents {
        Err(c) => e == KmsError::of_codec(c) && after == before,
        Ok((m, certificate, _)) => match archive_key(m) {
            Err(k) => e == k && after == before,
            Ok(key) => {
                let key_plan = import_plan(
                    before,
                    key,
                    false,
                    id,
                    replace_existing,
                    LinksView::none(),
                    caller,
                );
                ||| (e == KmsError::StorageError && !reliable)
                ||| (key_plan == Err::<ObjectView, KmsError>(e) && after == before)
                ||| (key_plan is Ok && certificate is Some && exists|key_id: Seq<char>| #[trigger]
                    certificate_refused(
                        before,
                        after,
                        key_id,
                        id,
                        key_plan->Ok_0,
                        certificate->0,
                        tags,
                        caller,
                        now,
                        e,
                    ))
            },
        },
    }
}

/// The identifiers under which the contents of a PKCS#12 archive were
/// stored.
pub struct Pkcs12Ids {
    pub private_key_id: String,
    /// The certificate of the key, where the archive held one.
    pub certificate_id: Option<String>,
    /// The certificates of the signers, as many as were stored.
    pub chain_ids: Vec<String>,
}

/// Makes the object in which the private key of an archive is held.
fn archive_key_of(m: KeyMaterial) -> (r: Result<Object, KmsError>)
    ensures
        match r {
            Ok(o) => archive_key(m@) == Ok::<ObjectView, KmsError>(o@),
            Err(e) => archive_key(m@) == Err::<ObjectView, KmsError>(e),
        },
{
    if m.algorithm == CryptographicAlgorithm::RSA {
        pkcs1_object_of(&m)
    } else {
        Ok(key_object_of(m))
    }
}

/// The object in which the key of an archive is held is held as it is:
/// an import stores it unchanged.
pub proof fn lemma_archive_key_is_held(m: KeyMaterialView, records: Records, caller: Seq<char>)
    requires
        m.canonical(),
        m.kind == ObjectKind::PrivateKey,
        archive_key(m) is Ok,
    ensures
        held(records, archive_key(m)->Ok_0, false, caller) == archive_key(m),
        m.algorithm == CryptographicAlgorithm::RSA ==> archive_key(m)->Ok_0.format()
            == KeyFormatType::PKCS1,
        m.algorithm != CryptographicAlgorithm::RSA ==> archive_key(m)->Ok_0.format()
            == KeyFormatType::PKCS8,
{
    if m.algorithm != CryptographicAlgorithm::RSA {
        crate::codec::lemma_canonical_round_trip(m);
    }
}

impl<S: ObjectStore> Engine<S> {
    /// Imports the certificate of an archive, linked to the key that was
    /// stored before it.
    fn import_certificate_of(
        &mut self,
        der: &Vec<u8>,
        key_id: &String,
        tags: &Vec<String>,
        caller: &Identity,
        now: u64,
    ) -> (r: Result<String, KmsError>)
        requires
            old(self).well_formed(),
        ensures
            final(self).well_formed(),
            final(self).store.reliable() == old(self).store.reliable(),
            ({
                let plan = import_plan(
                    old(self).records(),
                    certificate_input(der@),
                    false,
                    None,
                    false,
                    links_to_key(key_id@),
                    caller@,
                );
                match r {
                    Ok(c) => {
                        &&& plan is Ok
                        &&& !old(self).records().dom().contains(c@)
                        &&& final(self).records() == after_import(
                            old(self).records(),
                            c@,
                            plan->Ok_0,
                            links_to_key(key_id@),
                            tag_set(tags@),
                            caller@,
                            now,
                        )
                    },
                    Err(e) => if e == KmsError::StorageError {
                        !old(self).store.reliable()
                    } else {
                        final(self).records() == old(self).records() && plan == Err::<
                            ObjectView,
                            KmsError,
                        >(e)
                    },
                }
            }),
    {
        let mut links = Links::none();
        links.private_key_id = Some(key_id.clone());
        let request = ImportRequest {
            id: None,
            object: Object::Certificate {
                certificate_value: der.clone(),
                subject: Vec::new(),
                issuer: Vec::new(),
            },
            unwrap: false,
            replace_existing: false,
            tags: clone_tags(tags),
            links,
        };
        assert(request.links@ == links_to_key(key_id@));
        assert(request.object@ == certificate_input(der@));
        self.import(request, caller, now)
    }

    /// Imports what a PKCS#12 archive holds: the private key under the
    /// given identifier or a free one, its certificate linked to it, and
    /// the certificates of the signers; all with the given tags.
    ///
    /// On success the key is stored as the archive's key is held (an RSA
    /// key in PKCS#1), its certificate is stored where the archive held
    /// one, and the two name each other. A failure to open the archive is
    /// the codec's error and changes nothing; so does a refusal to import
    /// the key, whose error is the one of its plan. A refusal to import
    /// the certificate is the error of its plan and leaves the key stored.
    /// Any other failure is one of a backend that is not reliable.
    pub fn import_pkcs12(
        &mut self,
        id: Option<String>,
        archive: &[u8],
        passphrase: Option<&str>,
        replace_existing: bool,
        tags: &Vec<String>,
        caller: &Identity,
        now: u64,
    ) -> (r: Result<Pkcs12Ids, KmsError>)
        requires
            old(self).well_formed(),
        ensures
            final(self).well_formed(),
            final(self).store.reliable() == old(self).store.reliable(),
            match r {
                Ok(ids) => {
                    let contents = decoded_pkcs12(
                        archive@,
                        match passphrase {
                            Some(p) => p@,
                            None => Seq::empty(),
                        },
                    );
                    let key = final(self).records()[ids.private_key_id@];
                    &&& contents is Ok
                    &&& archive_key(contents->Ok_0.0) is Ok
                    &&& id is Some ==> ids.private_key_id@ == id->0@
                    &&& id is None ==> !old(self).records().dom().contains(ids.private_key_id@)
                    &&& final(self).records().dom().contains(ids.private_key_id@)
                    &&& key.object == archive_key(contents->Ok_0.0)->Ok_0
                    &&& contents->Ok_0.0.algorithm == CryptographicAlgorithm::RSA
                        ==> key.object.format() == KeyFormatType::PKCS1
                    &&& contents->Ok_0.0.algorithm != CryptographicAlgorithm::RSA
                        ==> key.object.format() == KeyFormatType::PKCS8
                    &&& key.access.owner == caller@
                    &&& key.tags == tag_set(tags@)
                    &&& (ids.certificate_id is Some) == (contents->Ok_0.1 is Some)
                    &&& ids.certificate_id is Some ==> {
                        let certificate = final(self).records()[ids.certificate_id->0@];
                        &&& final(self).records().dom().contains(ids.certificate_id->0@)
                        &&& ids.certificate_id->0@ != ids.private_key_id@
                        &&& Ok::<ObjectView, KmsError>(certificate.object) == held_certificate(
                            contents->Ok_0.1->0,
                        )
                        &&& certificate.attributes == AttributesView::of(
                            certificate.object,
                            default_usage(ObjectKind::Certificate),
                            links_to_key(ids.private_key_id@),
                        )
                        &&& key.attributes.links.certificate_id == Some(ids.certificate_id->0@)
                    }
                    &&& key.attributes == AttributesView::of(
                        key.object,
                        default_usage(ObjectKind::PrivateKey),
                        LinksView {
                            certificate_id: match ids.certificate_id {
                                Some(c) => Some(c@),
                                None => None,
                            },
                            ..LinksView::none()
                        },
                    )
                    &&& forall|k: int|
                        0 <= k < ids.chain_ids@.len() ==> final(self).records().dom().contains(
                            #[trigger] ids.chain_ids@[k]@,
                        ) && final(self).records()[ids.chain_ids@[k]@].object.kind()
                            == ObjectKind::Certificate
                },
                Err(e) => {
                    let contents = decoded_pkcs12(
                        archive@,
                        match passphrase {
                            Some(p) => p@,
                            None => Seq::empty(),
                        },
                    );
                    archive_refused(
                        old(self).records(),
                        final(self).records(),
                        old(self).store.reliable(),
                        contents,
                        opt_string_view(id),
                        replace_existing,
                        tag_set(tags@),
                        caller@,
                        now,
                        e,
                    )
                },
            },
    {
        let contents = match decode_pkcs12(archive, passphrase) {
            Ok(c) => c,
            Err(e) => {
                return Err(KmsError::from_codec(e));
            },
        };
        let ghost material = contents.private_key@;
        let ghost before = self.records();
        let ghost wanted = opt_string_view(id);
        let key_object = match archive_key_of(contents.private_key) {
            Ok(o) => o,
            Err(e) => {
                return Err(e);
            },
        };
        let ghost key_view = key_object@;
        proof {
            lemma_archive_key_is_held(material, before, caller@);
        }
        let key_request = ImportRequest {
            id,
            object: key_object,
            unwrap: false,
            replace_existing,
            tags: clone_tags(tags),
            links: Links::none(),
        };
        let private_key_id = match self.import(key_request, caller, now) {
            Ok(k) => k,
            Err(e) => {
                return Err(e);
            },
        };
        let certificate_id = match &contents.certificate {
            None => None,
            Some(der) => {
                match self.import_certificate_of(der, &private_key_id, tags, caller, now) {
                    Ok(c) => Some(c),
                    Err(e) => {
                        proof {
                            if e != KmsError::StorageError {
                                assert(certificate_refused(
                                    before,
                                    self.records(),
                                    private_key_id@,
                                    wanted,
                                    key_view,
                                    der@,
                                    tag_set(tags@),
                                    caller@,
                                    now,
                                    e,
                                ));
                            }
                        }
                        return Err(e);
                    },
                }
            },
        };
        let mut chain_ids: Vec<String> = Vec::new();
        let mut i: usize = 0;
        let ghost settled = self.records();
        while i < contents.chain.len()
            invariant
                i <= contents.chain.len(),
                self.well_formed(),
                self.store.reliable() == old(self).store.reliable(),
                self.records().dom().contains(private_key_id@),
                self.records()[private_key_id@] == settled[private_key_id@],
                certificate_id is Some ==> self.records().dom().contains(certificate_id->0@)
                    && self.records()[certificate_id->0@] == settled[certificate_id->0@],
                forall|k: int|
                    0 <= k < chain_ids@.len() ==> self.records().dom().contains(
                        #[trigger] chain_ids@[k]@,
                    ) && self.records()[chain_ids@[k]@].object.kind() == ObjectKind::Certificate,
            decreases contents.chain.len() - i,
        {
            let request = ImportRequest {
                id: None,
                object: Object::Certificate {
                    certificate_value: contents.chain[i].clone(),
                    subject: Vec::new(),
                    issuer: Vec::new(),
                },
                unwrap: false,
                replace_existing: false,
                tags: clone_tags(tags),
                links: Links::none(),
            };
            let ghost so_far = self.records();
            match self.import(request, caller, now) {
                Ok(c) => {
                    assert(self.records() == so_far.insert(c@, self.records()[c@]));
                    assert(self.records()[c@].object.kind() == ObjectKind::Certificate);
                    chain_ids.push(c);
                },
                Err(_) => {},
            }
            i += 1;
        }
        Ok(Pkcs12Ids { private_key_id, certificate_id, chain_ids })
    }
}

impl<S: ObjectStore> Engine<S> {
    /// Imports the object that an interchange document describes. A
    /// document that describes none is `MalformedInput` and changes
    /// nothing; any other is imported as the object it describes would
    /// be.
    pub fn import_interchange(
        &mut self,
        id: Option<String>,
        document: &[u8],
        unwrap_first: bool,
        replace_existing: bool,
        tags: Vec<String>,
        links: Links,
        caller: &Identity,
        now: u64,
    ) -> (r: Result<String, KmsError>)
        requires
            old(self).well_formed(),
        ensures
            final(self).well_formed(),
            final(self).store.reliable() == old(self).store.reliable(),
            match crate::interchange::read(document@) {
                None => r == Err::<String, KmsError>(KmsError::MalformedInput)
                    && final(self).records() == old(self).records(),
                Some(object) => {
                    let plan = import_plan(
                        old(self).records(),
                        object,
                        unwrap_first,
                        opt_string_view(id),
                        replace_existing,
                        links@,
                        caller@,
                    );
                    match r {
                        Ok(new_id) => {
                            &&& plan is Ok
                            &&& id is Some ==> new_id@ == id->0@
                            &&& id is None ==> !old(self).records().dom().contains(new_id@)
                            &&& final(self).records() == after_import(
                                old(self).records(),
                                new_id@,
                                plan->Ok_0,
                                links@,
                                tag_set(tags@),
                                caller@,
                                now,
                            )
                        },
                        Err(e) => if e == KmsError::StorageError {
                            !old(self).store.reliable()
                        } else {
                            final(self).records() == old(self).records() && plan == Err::<
                                ObjectView,
                                KmsError,
                            >(e)
                        },
                    }
                },
            },
    {
        match crate::interchange::from_interchange(document) {
            None => Err(KmsError::MalformedInput),
            Some(object) => {
                let request = ImportRequest {
                    id,
                    object,
                    unwrap: unwrap_first,
                    replace_existing,
                    tags,
                    links,
                };
                self.import(request, caller, now)
            },
        }
    }
}

/// What an import holds plain is in the encoding of its kind, or, for a
/// private key that came in PKCS#1, in PKCS#1: the format type of a
/// stored object that is not wrapped names the encoding its bytes are in,
/// and its attributes say what the object says.
pub proof fn lemma_held_is_well_encoded(
    records: Records,
    input: ObjectView,
    unwrap: bool,
    caller: Seq<char>,
    usage_mask: u32,
    links: LinksView,
)
    requires
        held(records, input, unwrap, caller) is Ok,
        !held(records, input, unwrap, caller)->Ok_0.is_wrapped(),
    ensures
        ({
            let stored = held(records, input, unwrap, caller)->Ok_0;
            &&& stored.format() == stored.kind().spec_canonical_format() || (stored.kind()
                == ObjectKind::PrivateKey && stored.format() == KeyFormatType::PKCS1)
            &&& (match input.key_block() {
                Some(b) => b.key_format_type != KeyFormatType::PKCS1 && (b.key_wrapping_data
                    is Some ==> b.key_wrapping_data->0.original_format != KeyFormatType::PKCS1),
                None => true,
            }) ==> stored.format() == stored.kind().spec_canonical_format()
            &&& !stored.ill_encoded()
            &&& AttributesView::of(stored, usage_mask, links).describes(stored)
        }),
{
    let stored = held(records, input, unwrap, caller)->Ok_0;
    match input.key_block() {
        None => {
            let m = decoded_certificate_input(input.bytes())->Ok_0;
            assert(m.canonical());
        },
        Some(b) => {
            match b.key_wrapping_data {
                None => {
                    let m = decoded(
                        b.key_material,
                        b.key_format_type,
                        b.cryptographic_algorithm,
                    )->Ok_0;
                    assert(m.canonical());
                    crate::codec::lemma_canonical_round_trip(m);
                },
                Some(w) => {
                    if unwrap {
                        let key = unwrapping_key(records, w.wrapping_key_id, caller)->Ok_0;
                        let plain = unwrapped(blob_of(b), key)->Ok_0;
                        let m = decoded(plain, w.original_format, b.cryptographic_algorithm)->Ok_0;
                        assert(m.canonical());
                        crate::codec::lemma_canonical_round_trip(m);
                    }
                },
            }
        },
    }
}

/// The first reason for which a request to create a key pair is refused:
/// the algorithm is not one of key pairs that the engine makes, or the
/// length is not one the algorithm admits.
pub open spec fn pair_defect(algorithm: CryptographicAlgorithm, length: usize) -> Option<KmsError> {
    if algorithm.spec_is_symmetric() || algorithm == CryptographicAlgorithm::MlKem {
        Some(KmsError::UnsupportedAlgorithm)
    } else if !algorithm.spec_admits_length(length as int) {
        Some(KmsError::InvalidParameter)
    } else {
        None
    }
}

/// The length that a key of a created pair is stored with: the one
/// requested, but for an X25519 key, whose size is 253 bits.
pub open spec fn stored_length(algorithm: CryptographicAlgorithm, length: usize) -> usize {
    if algorithm == CryptographicAlgorithm::X25519 {
        253
    } else {
        length
    }
}

/// Whether a stored object is a plain key of a kind, an algorithm and a
/// length.
pub open spec fn is_plain_key(
    o: ObjectView,
    kind: ObjectKind,
    algorithm: CryptographicAlgorithm,
    length: usize,
) -> bool {
    &&& o.kind() == kind
    &&& o.key_block() is Some
    &&& o.key_block()->0.key_format_type == kind.spec_canonical_format()
    &&& o.key_block()->0.cryptographic_algorithm == Some(algorithm)
    &&& o.key_block()->0.cryptographic_length == Some(length)
    &&& o.key_block()->0.key_wrapping_data is None
}

/// Whether two encodings fit together as the private and the public key
/// of a pair of an algorithm and a requested length: the first is a
/// private key that reads as itself, the second is its public half, and
/// reads as itself and as a public key of that algorithm and of the length
/// that keys of the pair are stored with.
pub open spec fn fits_pair(
    pkcs8: Seq<u8>,
    spki: Seq<u8>,
    algorithm: CryptographicAlgorithm,
    length: usize,
) -> bool {
    &&& crate::crypto::pkcs8_of(pkcs8) == Some(pkcs8)
    &&& crate::crypto::public_half(pkcs8) == Some(spki)
    &&& match crate::crypto::public_key_of(spki) {
        Some((read, family, bits)) => read == spki && crate::codec::family_algorithm(family)
            == Some(algorithm) && bits == stored_length(algorithm, length),
        None => false,
    }
}

/// Whether two encodings are the private and the public key of a pair of
/// an algorithm and a requested length: they fit together, and the
/// private key is sound.
pub open spec fn is_pair_of(
    pkcs8: Seq<u8>,
    spki: Seq<u8>,
    algorithm: CryptographicAlgorithm,
    length: usize,
) -> bool {
    crate::crypto::sound_key(pkcs8) && fits_pair(pkcs8, spki, algorithm, length)
}

/// Finds out whether two encodings fit together as the keys of a pair.
pub fn is_fitting_pair(
    pkcs8: &[u8],
    spki: &[u8],
    algorithm: CryptographicAlgorithm,
    length: usize,
) -> (r: bool)
    ensures
        r == fits_pair(pkcs8@, spki@, algorithm, length),
{
    let measured: usize = if algorithm == CryptographicAlgorithm::X25519 {
        253
    } else {
        length
    };
    match crate::crypto::parse_private_key(pkcs8) {
        Ok(read) => {
            if !crate::bytes::eq_bytes(read.pkcs8.as_slice(), pkcs8) || !crate::bytes::eq_bytes(
                read.spki.as_slice(),
                spki,
            ) {
                return false;
            }
        },
        Err(_) => {
            return false;
        },
    }
    match crate::crypto::parse_public_key(spki) {
        Ok(public) => {
            let fits = match crate::codec::algorithm_of(public.family) {
                Some(a) => a == algorithm,
                None => false,
            };
            fits && crate::bytes::eq_bytes(public.spki.as_slice(), spki) && public.bits as usize
                == measured
        },
        Err(_) => false,
    }
}

/// Makes a key pair for a request without a defect. A pair comes back
/// only where the cryptographic provider made one whose keys fit
/// together as a pair of the requested algorithm and length.
fn generate_pair(algorithm: CryptographicAlgorithm, length: usize) -> (r: Option<
    crate::crypto::ParsedPrivateKey,
>)
    requires
        pair_defect(algorithm, length) is None,
    ensures
        r is Some ==> is_pair_of(r->0.pkcs8@, r->0.spki@, algorithm, length),
{
    let generated = match algorithm {
        CryptographicAlgorithm::RSA => {
            let bits: u32 = if length == 2048 {
                2048
            } else if length == 3072 {
                3072
            } else {
                4096
            };
            crate::crypto::generate_rsa(bits)
        },
        CryptographicAlgorithm::EC => {
            let curve = if length == 192 {
                crate::crypto::Curve::P192
            } else if length == 224 {
                crate::crypto::Curve::P224
            } else if length == 256 {
                crate::crypto::Curve::P256
            } else if length == 384 {
                crate::crypto::Curve::P384
            } else {
                crate::crypto::Curve::P521
            };
            crate::crypto::generate_ec(curve)
        },
        CryptographicAlgorithm::Ed25519 => crate::crypto::generate_ed25519(),
        _ => crate::crypto::generate_x25519(),
    };
    match generated {
        Ok(pair) => {
            if is_fitting_pair(pair.pkcs8.as_slice(), pair.spki.as_slice(), algorithm, length) {
                Some(pair)
            } else {
                None
            }
        },
        Err(_) => None,
    }
}

/// The identifiers of the two keys of a pair.
pub struct KeyPairIds {
    pub private_key_id: String,
    pub public_key_id: String,
}

/// Whether the records are those before with the two keys of a pair
/// stored for the caller: each under an identifier that was free, plain,
/// well encoded and of the algorithm and the length that keys of the pair
/// are stored with, each naming the other, and nothing else changed.
pub open spec fn pair_stored(
    before: Records,
    after: Records,
    private_id: Seq<char>,
    public_id: Seq<char>,
    algorithm: CryptographicAlgorithm,
    length: usize,
    tags: Set<Seq<char>>,
    caller: Seq<char>,
) -> bool {
    let private = after[private_id];
    let public = after[public_id];
    &&& private_id != public_id
    &&& !before.dom().contains(private_id)
    &&& !before.dom().contains(public_id)
    &&& after.dom() == before.dom().insert(private_id).insert(public_id)
    &&& forall|other: Seq<char>| before.dom().contains(other) ==> after[other] == before[other]
    &&& is_plain_key(
        private.object,
        ObjectKind::PrivateKey,
        algorithm,
        stored_length(algorithm, length),
    )
    &&& is_plain_key(
        public.object,
        ObjectKind::PublicKey,
        algorithm,
        stored_length(algorithm, length),
    )
    &&& !private.object.ill_encoded()
    &&& !public.object.ill_encoded()
    &&& spki_of(private.object) == Some(public.object.bytes())
    &&& private.attributes.links.public_key_id == Some(public_id)
    &&& public.attributes.links.private_key_id == Some(private_id)
    &&& pairs(public.object, private.object)
    &&& private.access == AccessView::owned_by(caller)
    &&& public.access == AccessView::owned_by(caller)
    &&& private.tags == tags
    &&& public.tags == tags
}

impl<S: ObjectStore> Engine<S> {
    /// Stores the two keys of a pair for the caller, each under an
    /// identifier that was free and each naming the other.
    ///
    /// A request with a defect is refused with it, and keys that do not
    /// fit together as a pair of the algorithm and length with
    /// `Internal`; nothing changes then. Keys that fit are stored as they
    /// are: on a reliable backend this does not fail.
    pub fn store_pair(
        &mut self,
        private_key: Vec<u8>,
        public_key: Vec<u8>,
        algorithm: CryptographicAlgorithm,
        length: usize,
        tags: &Vec<String>,
        caller: &Identity,
        now: u64,
    ) -> (r: Result<KeyPairIds, KmsError>)
        requires
            old(self).well_formed(),
        ensures
            final(self).well_formed(),
            final(self).store.reliable() == old(self).store.reliable(),
            match r {
                Ok(ids) => {
                    &&& pair_defect(algorithm, length) is None
                    &&& fits_pair(private_key@, public_key@, algorithm, length)
                    &&& pair_stored(
                        old(self).records(),
                        final(self).records(),
                        ids.private_key_id@,
                        ids.public_key_id@,
                        algorithm,
                        length,
                        tag_set(tags@),
                        caller@,
                    )
                    &&& final(self).records()[ids.private_key_id@].object.bytes() == private_key@
                    &&& final(self).records()[ids.public_key_id@].object.bytes() == public_key@
                },
                Err(e) => {
                    &&& old(self).store.reliable() ==> final(self).records()
                        == old(self).records()
                    &&& match pair_defect(algorithm, length) {
                        Some(defect) => e == defect && final(self).records()
                            == old(self).records(),
                        None => if fits_pair(private_key@, public_key@, algorithm, length) {
                            e == KmsError::StorageError && !old(self).store.reliable()
                        } else {
                            e == KmsError::Internal && final(self).records()
                                == old(self).records()
                        },
                    }
                },
            },
    {
        if algorithm.is_symmetric() || algorithm == CryptographicAlgorithm::MlKem {
            return Err(KmsError::UnsupportedAlgorithm);
        }
        if !algorithm.admits_length(length) {
            return Err(KmsError::InvalidParameter);
        }
        if !is_fitting_pair(private_key.as_slice(), public_key.as_slice(), algorithm, length) {
            return Err(KmsError::Internal);
        }
        let ghost before = self.records();
        let ghost pkcs8 = private_key@;
        let ghost spki = public_key@;
        let measured: usize = if algorithm == CryptographicAlgorithm::X25519 {
            253
        } else {
            length
        };
        let private_request = ImportRequest {
            id: None,
            object: Object::PrivateKey {
                key_block: KeyBlock {
                    key_format_type: KeyFormatType::PKCS8,
                    key_material: private_key,
                    cryptographic_algorithm: Some(algorithm),
                    cryptographic_length: Some(measured),
                    key_wrapping_data: None,
                },
            },
            unwrap: false,
            replace_existing: false,
            tags: clone_tags(tags),
            links: Links::none(),
        };
        let ghost private_input = private_request.object@;
        proof {
            lemma_private_of_pair_is_planned(before, pkcs8, spki, algorithm, length, caller@);
        }
        let private_key_id = match self.import(private_request, caller, now) {
            Ok(id) => id,
            Err(e) => {
                return Err(e);
            },
        };
        let ghost with_private = self.records();
        proof {
            lemma_held_is_well_encoded(
                before,
                private_input,
                false,
                caller@,
                default_usage(ObjectKind::PrivateKey),
                LinksView::none(),
            );
        }
        let mut links = Links::none();
        links.private_key_id = Some(private_key_id.clone());
        let public_request = ImportRequest {
            id: None,
            object: Object::PublicKey {
                key_block: KeyBlock {
                    key_format_type: KeyFormatType::SPKI,
                    key_material: public_key,
                    cryptographic_algorithm: Some(algorithm),
                    cryptographic_length: Some(measured),
                    key_wrapping_data: None,
                },
            },
            unwrap: false,
            replace_existing: false,
            tags: clone_tags(tags),
            links,
        };
        let ghost public_input = public_request.object@;
        let ghost public_links = public_request.links@;
        proof {
            assert(public_links == links_to_key(private_key_id@));
            lemma_public_of_pair_is_planned(
                before,
                with_private,
                private_key_id@,
                pkcs8,
                spki,
                algorithm,
                length,
                tag_set(tags@),
                caller@,
                now,
            );
        }
        match self.import(public_request, caller, now) {
            Ok(public_key_id) => {
                proof {
                    lemma_held_is_well_encoded(
                        with_private,
                        public_input,
                        false,
                        caller@,
                        default_usage(ObjectKind::PublicKey),
                        public_links,
                    );
                    assert(final(self).records().dom() =~= before.dom().insert(
                        private_key_id@,
                    ).insert(public_key_id@));
                }
                Ok(KeyPairIds { private_key_id, public_key_id })
            },
            Err(e) => {
                let ghost after_failure = self.records();
                let undone = self.store.destroy(&private_key_id, caller);
                proof {
                    if old(self).store.reliable() {
                        assert(after_failure == with_private);
                        assert(with_private.dom().contains(private_key_id@));
                        assert(with_private[private_key_id@].access.owner == caller@);
                        assert(undone is Ok);
                        assert(self.records() =~= before);
                    }
                }
                Err(e)
            },
        }
    }

    /// Creates a key pair of the requested algorithm and length, and
    /// stores its two keys for the caller, each under an identifier that
    /// was free and each naming the other.
    ///
    /// On success the two records are the only change. On failure of a
    /// reliable backend nothing changed: the error is the request's
    /// defect, or `Internal` where the cryptographic provider made no key
    /// of the requested algorithm and length.
    pub fn create_key_pair(
        &mut self,
        algorithm: CryptographicAlgorithm,
        length: usize,
        tags: &Vec<String>,
        caller: &Identity,
        now: u64,
    ) -> (r: Result<KeyPairIds, KmsError>)
        requires
            old(self).well_formed(),
        ensures
            final(self).well_formed(),
            final(self).store.reliable() == old(self).store.reliable(),
            match r {
                Ok(ids) => {
                    &&& pair_defect(algorithm, length) is None
                    &&& pair_stored(
                        old(self).records(),
                        final(self).records(),
                        ids.private_key_id@,
                        ids.public_key_id@,
                        algorithm,
                        length,
                        tag_set(tags@),
                        caller@,
                    )
                    &&& crate::crypto::sound_key(
                        final(self).records()[ids.private_key_id@].object.bytes(),
                    )
                },
                Err(e) => {
                    &&& pair_defect(algorithm, length) is Some ==> Some(e) == pair_defect(
                        algorithm,
                        length,
                    ) && final(self).records() == old(self).records()
                    &&& pair_defect(algorithm, length) is None ==> (e == KmsError::Internal
                        && final(self).records() == old(self).records()) || (e
                        == KmsError::StorageError && !old(self).store.reliable())
                    &&& old(self).store.reliable() ==> final(self).records()
                        == old(self).records()
                },
            },
    {
        if algorithm.is_symmetric() || algorithm == CryptographicAlgorithm::MlKem {
            return Err(KmsError::UnsupportedAlgorithm);
        }
        if !algorithm.admits_length(length) {
            return Err(KmsError::InvalidParameter);
        }
        match generate_pair(algorithm, length) {
            Some(pair) => self.store_pair(pair.pkcs8, pair.spki, algorithm, length, tags, caller, now),
            None => Err(KmsError::Internal),
        }
    }
}

/// The private key of a pair whose keys fit together is planned to be
/// stored as it is, under an identifier that the store gives.
pub proof fn lemma_private_of_pair_is_planned(
    records: Records,
    pkcs8: Seq<u8>,
    spki: Seq<u8>,
    algorithm: CryptographicAlgorithm,
    length: usize,
    caller: Seq<char>,
)
    requires
        pair_defect(algorithm, length) is None,
        fits_pair(pkcs8, spki, algorithm, length),
    ensures
        import_plan(
            records,
            pair_private(pkcs8, algorithm, length),
            false,
            None,
            false,
            LinksView::none(),
            caller,
        ) == Ok::<ObjectView, KmsError>(pair_private(pkcs8, algorithm, length)),
{
}

/// The public key of a pair whose keys fit together is planned to be
/// stored as it is, linked to the private key that was stored before it.
pub proof fn lemma_public_of_pair_is_planned(
    before: Records,
    records: Records,
    private_id: Seq<char>,
    pkcs8: Seq<u8>,
    spki: Seq<u8>,
    algorithm: CryptographicAlgorithm,
    length: usize,
    tags: Set<Seq<char>>,
    caller: Seq<char>,
    now: u64,
)
    requires
        pair_defect(algorithm, length) is None,
        fits_pair(pkcs8, spki, algorithm, length),
        records == after_import(
            before,
            private_id,
            pair_private(pkcs8, algorithm, length),
            LinksView::none(),
            tags,
            caller,
            now,
        ),
    ensures
        import_plan(
            records,
            pair_public(spki, algorithm, length),
            false,
            None,
            false,
            links_to_key(private_id),
            caller,
        ) == Ok::<ObjectView, KmsError>(pair_public(spki, algorithm, length)),
{
}

/// The private key of a pair as it is handed to the import, and stored.
pub open spec fn pair_private(pkcs8: Seq<u8>, algorithm: CryptographicAlgorithm, length: usize) -> ObjectView {
    ObjectView::PrivateKey {
        key_block: KeyBlockView {
            key_format_type: KeyFormatType::PKCS8,
            key_material: pkcs8,
            cryptographic_algorithm: Some(algorithm),
            cryptographic_length: Some(stored_length(algorithm, length)),
            key_wrapping_data: None,
        },
    }
}

/// The public key of a pair as it is handed to the import, and stored.
pub open spec fn pair_public(spki: Seq<u8>, algorithm: CryptographicAlgorithm, length: usize) -> ObjectView {
    ObjectView::PublicKey {
        key_block: KeyBlockView {
            key_format_type: KeyFormatType::SPKI,
            key_material: spki,
            cryptographic_algorithm: Some(algorithm),
            cryptographic_length: Some(stored_length(algorithm, length)),
            key_wrapping_data: None,
        },
    }
}

} // verus!
