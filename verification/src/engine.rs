//! The operation engine: each operation is authorized, then carried out on
//! the stored records, with the codec and the wrapping engine where it
//! needs them.

use vstd::prelude::*;
use crate::access::{
    Identity,
    Right,
};
use crate::error::{
    KmsError,
    StorageError,
};
use crate::object::{
    Attributes,
    AttributesView,
    CryptographicAlgorithm,
    KeyBlock,
    KeyBlockView,
    KeyFormatType,
    Links,
    LinksView,
    Object,
    ObjectKind,
    ObjectView,
};
use crate::storage::{
    AttributeFilter,
    ObjectStore,
    RecordView,
    Records,
    gate,
    owner_verdict,
    tag_set,
    with_access,
    with_attributes,
    with_revocation,
    with_tags,
};

verus! {

/// The engine over a storage backend.
pub struct Engine<S: ObjectStore> {
    pub store: S,
}

/// What an operation may leave behind, in the engine's own errors: on
/// success the verdict was in favour and the change is made; on failure
/// the records are as they were, and the error is the verdict's, or a
/// storage failure on a backend that is not reliable.
pub open spec fn effect<T>(
    verdict: Result<(), StorageError>,
    reliable: bool,
    before: Records,
    after: Records,
    changed: Records,
    result: Result<T, KmsError>,
) -> bool {
    match result {
        Ok(_) => verdict is Ok && after == changed,
        Err(e) => after == before && match verdict {
            Err(refusal) => e == KmsError::of_storage(refusal) || (e == KmsError::StorageError
                && !reliable),
            Ok(()) => e == KmsError::StorageError && !reliable,
        },
    }
}

/// Who may read an object with its material: a requester with the `Get`
/// right; for a private key that is not wrapped, one with the `Export`
/// right as well.
pub open spec fn read_verdict(records: Records, id: Seq<char>, requester: Seq<char>) -> Result<
    (),
    StorageError,
> {
    match gate(records, id, requester, Right::Get) {
        Err(e) => Err(e),
        Ok(()) => if records[id].object.kind() == ObjectKind::PrivateKey
            && !records[id].object.is_wrapped() {
            gate(records, id, requester, Right::Export)
        } else {
            Ok(())
        },
    }
}

/// Who may export an object: for a secret key, symmetric or private, a
/// requester with the `Export` right; for a public key or a certificate,
/// one with the `Get` right.
pub open spec fn export_verdict(records: Records, id: Seq<char>, requester: Seq<char>) -> Result<
    (),
    StorageError,
> {
    match gate(records, id, requester, Right::Get) {
        Err(e) => Err(e),
        Ok(()) => if records[id].object.kind() == ObjectKind::PrivateKey
            || records[id].object.kind() == ObjectKind::SymmetricKey {
            gate(records, id, requester, Right::Export)
        } else {
            Ok(())
        },
    }
}

impl<S: ObjectStore> Engine<S> {
    pub open spec fn records(&self) -> Records {
        self.store.records()
    }

    pub open spec fn well_formed(&self) -> bool {
        self.store.well_formed()
    }

    /// An engine over a backend.
    pub fn new(store: S) -> (r: Engine<S>)
        requires
            store.well_formed(),
        ensures
            r.well_formed(),
            r.store == store,
    {
        Engine { store }
    }

    /// The object with its attributes.
    pub fn get(&self, id: &String, caller: &Identity) -> (r: Result<(Object, Attributes), KmsError>)
        requires
            self.well_formed(),
        ensures
            effect(
                read_verdict(self.records(), id@, caller@),
                self.store.reliable(),
                self.records(),
                self.records(),
                self.records(),
                r,
            ),
            r is Ok ==> r->Ok_0.0@ == self.records()[id@].object && r->Ok_0.1@
                == self.records()[id@].attributes,
    {
        match self.store.get(id, caller) {
            Err(e) => Err(KmsError::from_storage(e)),
            Ok((object, attributes)) => {
                if object.kind() == ObjectKind::PrivateKey && !object.is_wrapped() {
                    match self.store.permitted(id, caller, Right::Export) {
                        Err(e) => Err(KmsError::from_storage(e)),
                        Ok(()) => Ok((object, attributes)),
                    }
                } else {
                    Ok((object, attributes))
                }
            },
        }
    }

    /// The attributes of an object, for a requester with the `Get` right.
    pub fn get_attributes(&self, id: &String, caller: &Identity) -> (r: Result<Attributes, KmsError>)
        requires
            self.well_formed(),
        ensures
            effect(
                gate(self.records(), id@, caller@, Right::Get),
                self.store.reliable(),
                self.records(),
                self.records(),
                self.records(),
                r,
            ),
            r is Ok ==> r->Ok_0@ == self.records()[id@].attributes,
    {
        match self.store.get(id, caller) {
            Err(e) => Err(KmsError::from_storage(e)),
            Ok((_, attributes)) => Ok(attributes),
        }
    }

    /// The tags of an object, for a requester with the `Get` right.
    pub fn get_tags(&self, id: &String, caller: &Identity) -> (r: Result<Vec<String>, KmsError>)
        requires
            self.well_formed(),
        ensures
            effect(
                gate(self.records(), id@, caller@, Right::Get),
                self.store.reliable(),
                self.records(),
                self.records(),
                self.records(),
                r,
            ),
            r is Ok ==> crate::storage::tag_set(r->Ok_0@) == self.records()[id@].tags,
    {
        match self.store.tags(id, caller) {
            Err(e) => Err(KmsError::from_storage(e)),
            Ok(tags) => Ok(tags),
        }
    }

    /// The identifiers of the objects that carry every given tag and pass
    /// the filter, among those the caller may get; each once.
    pub fn locate(&self, tags: &Vec<String>, filter: &AttributeFilter, caller: &Identity) -> (r:
        Result<Vec<String>, KmsError>)
        requires
            self.well_formed(),
        ensures
            r is Err ==> r->Err_0 == KmsError::StorageError && !self.store.reliable(),
            r is Ok ==> {
                &&& forall|i: int, j: int|
                    0 <= i < j < r->Ok_0@.len() ==> r->Ok_0@[i]@ != r->Ok_0@[j]@
                &&& forall|id: Seq<char>|
                    tag_set(r->Ok_0@).contains(id) <==> self.records().dom().contains(id)
                        && self.records()[id].found_by(tag_set(tags@), *filter, caller@)
            },
    {
        match self.store.locate(tags, filter, caller) {
            Ok(ids) => Ok(ids),
            Err(e) => Err(KmsError::from_storage(e)),
        }
    }

    /// Adds tags to an object, for a caller with the `Link` right on it.
    pub fn add_tags(&mut self, id: &String, tags: Vec<String>, caller: &Identity) -> (r: Result<
        (),
        KmsError,
    >)
        requires
            old(self).well_formed(),
        ensures
            final(self).well_formed(),
            final(self).store.reliable() == old(self).store.reliable(),
            effect(
                gate(old(self).records(), id@, caller@, Right::Link),
                old(self).store.reliable(),
                old(self).records(),
                final(self).records(),
                with_tags(old(self).records(), id@, tag_set(tags@)),
                r,
            ),
    {
        match self.store.add_tags(id, tags, caller) {
            Ok(()) => Ok(()),
            Err(e) => Err(KmsError::from_storage(e)),
        }
    }

    /// Revokes an object: it stays stored, and answers no request but its
    /// destruction.
    pub fn revoke(&mut self, id: &String, caller: &Identity, now: u64) -> (r: Result<(), KmsError>)
        requires
            old(self).well_formed(),
        ensures
            final(self).well_formed(),
            final(self).store.reliable() == old(self).store.reliable(),
            effect(
                if old(self).records().dom().contains(id@) && old(self).records()[id@].revoked
                    is Some {
                    Err(StorageError::NotFound)
                } else {
                    gate(old(self).records(), id@, caller@, Right::Destroy)
                },
                old(self).store.reliable(),
                old(self).records(),
                final(self).records(),
                with_revocation(old(self).records(), id@, now),
                r,
            ),
    {
        match self.store.revoke(id, caller, now) {
            Ok(()) => Ok(()),
            Err(e) => Err(KmsError::from_storage(e)),
        }
    }

    /// Gives a right on an object to another identity; the owner's to do.
    pub fn grant_access(&mut self, id: &String, caller: &Identity, grantee: &String, right: Right) -> (r:
        Result<(), KmsError>)
        requires
            old(self).well_formed(),
        ensures
            final(self).well_formed(),
            final(self).store.reliable() == old(self).store.reliable(),
            effect(
                owner_verdict(old(self).records(), id@, caller@),
                old(self).store.reliable(),
                old(self).records(),
                final(self).records(),
                with_access(
                    old(self).records(),
                    id@,
                    old(self).records()[id@].access.with_grant(grantee@, right),
                ),
                r,
            ),
    {
        match self.store.grant(id, caller, grantee, right) {
            Ok(()) => Ok(()),
            Err(e) => Err(KmsError::from_storage(e)),
        }
    }

    /// Takes a right on an object back from an identity; the owner's to
    /// do.
    pub fn revoke_access(&mut self, id: &String, caller: &Identity, grantee: &String, right: Right) -> (r:
        Result<(), KmsError>)
        requires
            old(self).well_formed(),
        ensures
            final(self).well_formed(),
            final(self).store.reliable() == old(self).store.reliable(),
            effect(
                owner_verdict(old(self).records(), id@, caller@),
                old(self).store.reliable(),
                old(self).records(),
                final(self).records(),
                with_access(
                    old(self).records(),
                    id@,
                    old(self).records()[id@].access.without_grant(grantee@, right),
                ),
                r,
            ),
    {
        match self.store.withdraw(id, caller, grantee, right) {
            Ok(()) => Ok(()),
            Err(e) => Err(KmsError::from_storage(e)),
        }
    }
}

/// The usage mask of a key made for encryption, decryption, wrapping and
/// unwrapping.
pub const SYMMETRIC_USAGE: u32 = 60;

/// The first reason for which a request to create a key is refused: the
/// algorithm is not one of symmetric keys, the length is not one the
/// algorithm admits, or the bytes supplied are not of that length.
pub open spec fn create_defect(
    algorithm: CryptographicAlgorithm,
    length: usize,
    key_bytes: Option<Seq<u8>>,
) -> Option<KmsError> {
    if !algorithm.spec_is_symmetric() {
        Some(KmsError::UnsupportedAlgorithm)
    } else if !algorithm.spec_admits_length(length as int) {
        Some(KmsError::InvalidParameter)
    } else if key_bytes is Some && key_bytes->0.len() * 8 != length {
        Some(KmsError::InvalidParameter)
    } else {
        None
    }
}

/// A symmetric key as it is held.
pub open spec fn symmetric_key(
    algorithm: CryptographicAlgorithm,
    length: usize,
    material: Seq<u8>,
) -> ObjectView {
    ObjectView::SymmetricKey {
        key_block: KeyBlockView {
            key_format_type: KeyFormatType::Raw,
            key_material: material,
            cryptographic_algorithm: Some(algorithm),
            cryptographic_length: Some(length),
            key_wrapping_data: None,
        },
    }
}

impl<S: ObjectStore> Engine<S> {
    /// Creates a symmetric key of the requested algorithm and length, from
    /// the bytes supplied or, without any, from fresh random ones, and
    /// stores it for the caller under an identifier that was free.
    ///
    /// On success the new record is the only change; the key it holds is
    /// consistent, of the requested algorithm and length, and made of the
    /// supplied bytes where there were any. On failure nothing changed:
    /// the error is the request's defect, or `Internal` where no random
    /// bytes could be had, or a storage failure.
    pub fn create(
        &mut self,
        algorithm: CryptographicAlgorithm,
        length: usize,
        key_bytes: Option<Vec<u8>>,
        tags: Vec<String>,
        caller: &Identity,
        now: u64,
    ) -> (r: Result<String, KmsError>)
        requires
            old(self).well_formed(),
        ensures
            final(self).well_formed(),
            final(self).store.reliable() == old(self).store.reliable(),
            match r {
                Ok(id) => {
                    let made = final(self).records()[id@].object;
                    &&& create_defect(
                        algorithm,
                        length,
                        match key_bytes {
                            Some(b) => Some(b@),
                            None => None,
                        },
                    ) is None
                    &&& !old(self).records().dom().contains(id@)
                    &&& made == symmetric_key(algorithm, length, made.bytes())
                    &&& made.bytes().len() * 8 == length
                    &&& key_bytes is Some ==> made.bytes() == key_bytes->0@
                    &&& made.defect(AttributesView::of(made, SYMMETRIC_USAGE, LinksView::none()))
                        is None
                    &&& final(self).records() == old(self).records().insert(
                        id@,
                        RecordView::fresh(
                            id@,
                            made,
                            AttributesView::of(made, SYMMETRIC_USAGE, LinksView::none()),
                            tag_set(tags@),
                            caller@,
                            now,
                        ),
                    )
                },
                Err(e) => {
                    let defect = create_defect(
                        algorithm,
                        length,
                        match key_bytes {
                            Some(b) => Some(b@),
                            None => None,
                        },
                    );
                    &&& final(self).records() == old(self).records()
                    &&& defect is Some ==> defect == Some(e)
                    &&& defect is None ==> (e == KmsError::Internal && key_bytes is None) || (e
                        == KmsError::StorageError && !old(self).store.reliable())
                },
            },
    {
        if !algorithm.is_symmetric() {
            return Err(KmsError::UnsupportedAlgorithm);
        }
        if !algorithm.admits_length(length) {
            return Err(KmsError::InvalidParameter);
        }
        let material = match key_bytes {
            Some(bytes) => {
                if bytes.len() > 64 || bytes.len() * 8 != length {
                    return Err(KmsError::InvalidParameter);
                }
                bytes
            },
            None => {
                match crate::crypto::random_bytes(length / 8) {
                    Ok(bytes) => bytes,
                    Err(_) => {
                        return Err(KmsError::Internal);
                    },
                }
            },
        };
        let object = Object::SymmetricKey {
            key_block: KeyBlock {
                key_format_type: KeyFormatType::Raw,
                key_material: material,
                cryptographic_algorithm: Some(algorithm),
                cryptographic_length: Some(length),
                key_wrapping_data: None,
            },
        };
        let attributes = object.attributes(SYMMETRIC_USAGE, Links::none());
        let ghost made = object@;
        assert(made == symmetric_key(algorithm, length, made.bytes()));
        match self.store.insert(None, object, attributes, tags, false, caller, now) {
            Ok(id) => Ok(id),
            Err(e) => Err(KmsError::StorageError),
        }
    }
}

/// The links of an object after the object stored under `id`, of a kind,
/// was destroyed: they no longer name it in the place for that kind.
pub open spec fn unlinked(links: LinksView, kind: ObjectKind, id: Seq<char>) -> LinksView {
    match kind {
        ObjectKind::PrivateKey => if links.private_key_id == Some(id) {
            LinksView { private_key_id: None, ..links }
        } else {
            links
        },
        ObjectKind::PublicKey => if links.public_key_id == Some(id) {
            LinksView { public_key_id: None, ..links }
        } else {
            links
        },
        ObjectKind::Certificate => if links.certificate_id == Some(id) {
            LinksView { certificate_id: None, ..links }
        } else {
            links
        },
        ObjectKind::SymmetricKey => links,
    }
}

/// The records after the back-link of one linked object was cleared, where
/// the caller holds the `Link` right on that object; else as they were.
pub open spec fn cleaned(
    records: Records,
    target: Option<Seq<char>>,
    kind: ObjectKind,
    id: Seq<char>,
    caller: Seq<char>,
) -> Records {
    match target {
        None => records,
        Some(t) => if gate(records, t, caller, Right::Link) is Ok {
            with_attributes(
                records,
                t,
                AttributesView {
                    links: unlinked(records[t].attributes.links, kind, id),
                    ..records[t].attributes
                },
            )
        } else {
            records
        },
    }
}

/// The records after an object was destroyed and the back-links of the
/// objects it linked to were cleared.
pub open spec fn destroyed(records: Records, id: Seq<char>, caller: Seq<char>) -> Records {
    let kind = records[id].object.kind();
    let links = records[id].attributes.links;
    cleaned(
        cleaned(
            cleaned(records.remove(id), links.private_key_id, kind, id, caller),
            links.public_key_id,
            kind,
            id,
            caller,
        ),
        links.certificate_id,
        kind,
        id,
        caller,
    )
}

fn names(link: &Option<String>, id: &String) -> (r: bool)
    ensures
        r == (crate::object::opt_string_view(*link) == Some(id@)),
{
    match link {
        Some(l) => *l == *id,
        None => false,
    }
}

fn without_link(links: Links, kind: ObjectKind, id: &String) -> (r: Links)
    ensures
        r@ == unlinked(links@, kind, id@),
{
    let mut links = links;
    match kind {
        ObjectKind::PrivateKey => {
            if names(&links.private_key_id, id) {
                links.private_key_id = None;
            }
        },
        ObjectKind::PublicKey => {
            if names(&links.public_key_id, id) {
                links.public_key_id = None;
            }
        },
        ObjectKind::Certificate => {
            if names(&links.certificate_id, id) {
                links.certificate_id = None;
            }
        },
        ObjectKind::SymmetricKey => {},
    }
    links
}

impl<S: ObjectStore> Engine<S> {
    /// Clears the back-link of one object that a destroyed object linked
    /// to, if the caller may and the backend does. Whether it was done is
    /// the answer.
    fn clean(&mut self, target: &Option<String>, kind: ObjectKind, id: &String, caller: &Identity) -> (r:
        bool)
        requires
            old(self).well_formed(),
        ensures
            final(self).well_formed(),
            final(self).store.reliable() == old(self).store.reliable(),
            r ==> final(self).records() == cleaned(
                old(self).records(),
                crate::object::opt_string_view(*target),
                kind,
                id@,
                caller@,
            ),
            !r ==> final(self).records() == old(self).records() && !old(self).store.reliable(),
            final(self).records().dom() == old(self).records().dom(),
            forall|other: Seq<char>|
                crate::object::opt_string_view(*target) != Some(other)
                    ==> final(self).records()[other] == old(self).records()[other],
    {
        match target {
            None => true,
            Some(t) => {
                let (_, attributes) = match self.store.fetch(t, caller, Right::Link) {
                    Ok(found) => found,
                    Err(e) => {
                        return e != StorageError::Backend;
                    },
                };
                let changed = Attributes {
                    object_type: attributes.object_type,
                    key_format_type: attributes.key_format_type,
                    cryptographic_algorithm: attributes.cryptographic_algorithm,
                    cryptographic_length: attributes.cryptographic_length,
                    cryptographic_usage_mask: attributes.cryptographic_usage_mask,
                    links: without_link(attributes.links, kind, id),
                };
                let ghost before = self.records();
                match self.store.update_attributes(t, changed, caller) {
                    Ok(()) => {
                        assert(self.records().dom() =~= before.dom());
                        true
                    },
                    Err(_) => false,
                }
            },
        }
    }

    /// Destroys an object for good, for a caller with the `Destroy` right
    /// on it. The objects it linked to no longer name it afterwards, as
    /// far as the caller holds the `Link` right on them; a back-link that
    /// stays never keeps the object from being destroyed. The answer says
    /// how many back-links the backend failed to clear.
    pub fn destroy(&mut self, id: &String, caller: &Identity) -> (r: Result<usize, KmsError>)
        requires
            old(self).well_formed(),
        ensures
            final(self).well_formed(),
            final(self).store.reliable() == old(self).store.reliable(),
            match r {
                Ok(left) => {
                    let links = old(self).records()[id@].attributes.links;
                    &&& gate(old(self).records(), id@, caller@, Right::Destroy) is Ok
                    &&& final(self).records().dom() == old(self).records().dom().remove(id@)
                    &&& forall|other: Seq<char>|
                        other != id@ && links.private_key_id != Some(other) && links.public_key_id
                            != Some(other) && links.certificate_id != Some(other)
                            ==> final(self).records()[other] == old(self).records()[other]
                    &&& left == 0 ==> final(self).records() == destroyed(
                        old(self).records(),
                        id@,
                        caller@,
                    )
                    &&& left > 0 ==> !old(self).store.reliable() && left <= 3
                },
                Err(e) => {
                    &&& final(self).records() == old(self).records()
                    &&& match gate(old(self).records(), id@, caller@, Right::Destroy) {
                        Err(refusal) => e == KmsError::of_storage(refusal) || (e
                            == KmsError::StorageError && !old(self).store.reliable()),
                        Ok(()) => e == KmsError::StorageError && !old(self).store.reliable(),
                    }
                },
            },
    {
        let (object, attributes) = match self.store.fetch(id, caller, Right::Destroy) {
            Ok(found) => found,
            Err(e) => {
                return Err(KmsError::from_storage(e));
            },
        };
        match self.store.destroy(id, caller) {
            Ok(()) => {},
            Err(e) => {
                return Err(KmsError::from_storage(e));
            },
        }
        let kind = object.kind();
        let mut left: usize = 0;
        if !self.clean(&attributes.links.private_key_id, kind, id, caller) {
            left = left + 1;
        }
        if !self.clean(&attributes.links.public_key_id, kind, id, caller) {
            left = left + 1;
        }
        if !self.clean(&attributes.links.certificate_id, kind, id, caller) {
            left = left + 1;
        }
        Ok(left)
    }
}

/// A caller that holds the `Get` right alone on a private key that is not
/// revoked is refused its export as unauthorized.
pub proof fn lemma_get_right_does_not_export(records: Records, id: Seq<char>, caller: Seq<char>)
    requires
        records.dom().contains(id),
        records[id].revoked is None,
        records[id].object.kind() == ObjectKind::PrivateKey,
        caller != records[id].access.owner,
        records[id].access.granted(caller, Right::Get),
        !records[id].access.granted(caller, Right::Export),
    ensures
        export_verdict(records, id, caller) == Err::<(), StorageError>(StorageError::Unauthorized),
{
    assert(records[id].access.knows(caller));
}

/// The owner of an object that is not revoked is refused no right on it,
/// and neither its reading nor its export.
pub proof fn lemma_owner_may_do_anything(records: Records, id: Seq<char>, right: Right)
    requires
        records.dom().contains(id),
        records[id].revoked is None,
    ensures
        gate(records, id, records[id].access.owner, right) is Ok,
        read_verdict(records, id, records[id].access.owner) is Ok,
        export_verdict(records, id, records[id].access.owner) is Ok,
        owner_verdict(records, id, records[id].access.owner) is Ok,
{
}

} // verus!
