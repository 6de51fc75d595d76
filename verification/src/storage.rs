//! The storage abstraction: what every backend keeps of an object, the call
//! surface that the engine sees, and what each call does to the stored
//! records.

use vstd::prelude::*;
use crate::access::{AccessList, AccessView, Identity, Right, decision};
use crate::error::StorageError;
use crate::object::{
    Attributes,
    AttributesView,
    CryptographicAlgorithm,
    KeyFormatType,
    Object,
    ObjectKind,
    ObjectView,
};

verus! {

/// The set of the strings in a list.
pub open spec fn tag_set(tags: Seq<String>) -> Set<Seq<char>> {
    Set::new(|t: Seq<char>| exists|i: int| 0 <= i < tags.len() && #[trigger] tags[i]@ == t)
}

/// What is persisted for one object.
pub struct Record {
    pub id: String,
    pub object: Object,
    pub attributes: Attributes,
    pub tags: Vec<String>,
    pub access: AccessList,
    /// When the object was stored.
    pub created: u64,
    /// When it was revoked, if it was.
    pub revoked: Option<u64>,
}

pub struct RecordView {
    pub id: Seq<char>,
    pub object: ObjectView,
    pub attributes: AttributesView,
    pub tags: Set<Seq<char>>,
    pub access: AccessView,
    pub created: u64,
    pub revoked: Option<u64>,
}

impl View for Record {
    type V = RecordView;

    open spec fn view(&self) -> RecordView {
        RecordView {
            id: self.id@,
            object: self.object@,
            attributes: self.attributes@,
            tags: tag_set(self.tags@),
            access: self.access@,
            created: self.created,
            revoked: self.revoked,
        }
    }
}

/// The stored records, each under its identifier.
pub type Records = Map<Seq<char>, RecordView>;

/// Equality and range conditions on the attributes of an object.
#[derive(Clone, Copy)]
pub struct AttributeFilter {
    pub object_type: Option<ObjectKind>,
    pub key_format_type: Option<KeyFormatType>,
    pub cryptographic_algorithm: Option<CryptographicAlgorithm>,
    /// The least length in bits.
    pub min_length: Option<usize>,
    /// The greatest length in bits.
    pub max_length: Option<usize>,
}

impl AttributeFilter {
    /// Whether the attributes meet every condition that is set. A condition
    /// on the algorithm or the length is not met by attributes without one.
    pub open spec fn spec_matches(self, a: AttributesView) -> bool {
        &&& self.object_type is Some ==> a.object_type == self.object_type->0
        &&& self.key_format_type is Some ==> a.key_format_type == self.key_format_type->0
        &&& self.cryptographic_algorithm is Some ==> a.cryptographic_algorithm
            == self.cryptographic_algorithm
        &&& self.min_length is Some ==> a.cryptographic_length is Some
            && a.cryptographic_length->0 >= self.min_length->0
        &&& self.max_length is Some ==> a.cryptographic_length is Some
            && a.cryptographic_length->0 <= self.max_length->0
    }

    /// The filter that every object passes.
    pub fn any() -> (r: AttributeFilter)
        ensures
            forall|a: AttributesView| r.spec_matches(a),
            r.object_type is None,
            r.key_format_type is None,
            r.cryptographic_algorithm is None,
            r.min_length is None,
            r.max_length is None,
    {
        AttributeFilter {
            object_type: None,
            key_format_type: None,
            cryptographic_algorithm: None,
            min_length: None,
            max_length: None,
        }
    }

    pub fn matches(&self, a: &Attributes) -> (r: bool)
        ensures
            r == self.spec_matches(a@),
    {
        match self.object_type {
            Some(k) => {
                if a.object_type != k {
                    return false;
                }
            },
            None => {},
        }
        match self.key_format_type {
            Some(f) => {
                if a.key_format_type != f {
                    return false;
                }
            },
            None => {},
        }
        match self.cryptographic_algorithm {
            Some(wanted) => {
                match a.cryptographic_algorithm {
                    Some(have) => {
                        if have != wanted {
                            return false;
                        }
                    },
                    None => {
                        return false;
                    },
                }
            },
            None => {},
        }
        match self.min_length {
            Some(min) => {
                match a.cryptographic_length {
                    Some(l) => {
                        if l < min {
                            return false;
                        }
                    },
                    None => {
                        return false;
                    },
                }
            },
            None => {},
        }
        match self.max_length {
            Some(max) => {
                match a.cryptographic_length {
                    Some(l) => {
                        if l > max {
                            return false;
                        }
                    },
                    None => {
                        return false;
                    },
                }
            },
            None => {},
        }
        true
    }
}

impl RecordView {
    /// The record of an object that was just stored.
    pub open spec fn fresh(
        id: Seq<char>,
        object: ObjectView,
        attributes: AttributesView,
        tags: Set<Seq<char>>,
        owner: Seq<char>,
        now: u64,
    ) -> RecordView {
        RecordView {
            id,
            object,
            attributes,
            tags,
            access: AccessView::owned_by(owner),
            created: now,
            revoked: None,
        }
    }

    /// Whether a search by these tags and this filter, made by the
    /// requester, finds the record: it is not revoked, the requester may get
    /// it, it carries every wanted tag and its attributes pass the filter.
    pub open spec fn found_by(
        self,
        wanted: Set<Seq<char>>,
        filter: AttributeFilter,
        requester: Seq<char>,
    ) -> bool {
        &&& self.revoked is None
        &&& self.access.permits(requester, Right::Get)
        &&& wanted.subset_of(self.tags)
        &&& filter.spec_matches(self.attributes)
    }
}

/// The answer to a request for a right on a stored object. A revoked object is
/// as good as absent, except to its destruction.
pub open spec fn gate(records: Records, id: Seq<char>, requester: Seq<char>, right: Right) -> Result<
    (),
    StorageError,
> {
    decision(
        if records.dom().contains(id) && (records[id].revoked is None || right == Right::Destroy) {
            Some(records[id].access)
        } else {
            None
        },
        requester,
        right,
    )
}

/// An insertion collides when it names an identifier that is taken and does
/// not ask to replace what is there.
pub open spec fn collides(records: Records, id: Option<Seq<char>>, replace_existing: bool) -> bool {
    id is Some && records.dom().contains(id->0) && !replace_existing
}

/// What a call that changes the records may leave behind: where the
/// authorization (or the collision rule) refuses, that error and the records as they
/// were; where it does not, either the result with the change made, or the
/// backend's own failure and the records as they were.
pub open spec fn outcome<T>(
    verdict: Result<(), StorageError>,
    before: Records,
    after: Records,
    changed: Records,
    result: Result<T, StorageError>,
) -> bool {
    match verdict {
        Err(e) => result == Err::<T, StorageError>(e) && after == before,
        Ok(()) => match result {
            Ok(_) => after == changed,
            Err(e) => e == StorageError::Backend && after == before,
        },
    }
}

/// The verdict on an insertion by a requester: a collision is refused
/// with `AlreadyExists`; to replace what is there, the requester needs
/// the `Destroy` right on it.
pub open spec fn insert_verdict(
    records: Records,
    id: Option<Seq<char>>,
    replace_existing: bool,
    requester: Seq<char>,
) -> Result<(), StorageError> {
    if collides(records, id, replace_existing) {
        Err(StorageError::AlreadyExists)
    } else if id is Some && records.dom().contains(id->0) {
        gate(records, id->0, requester, Right::Destroy)
    } else {
        Ok(())
    }
}

pub open spec fn opt_id_view(id: Option<String>) -> Option<Seq<char>> {
    match id {
        Some(s) => Some(s@),
        None => None,
    }
}

/// The records after the attributes of one were replaced.
pub open spec fn with_attributes(records: Records, id: Seq<char>, attributes: AttributesView) -> Records {
    records.insert(id, RecordView { attributes, ..records[id] })
}

/// The records after tags were added to one.
pub open spec fn with_tags(records: Records, id: Seq<char>, tags: Set<Seq<char>>) -> Records {
    records.insert(id, RecordView { tags: records[id].tags.union(tags), ..records[id] })
}

/// The records after one was revoked.
pub open spec fn with_revocation(records: Records, id: Seq<char>, now: u64) -> Records {
    records.insert(id, RecordView { revoked: Some(now), ..records[id] })
}

/// The records after the object of one was replaced.
pub open spec fn with_object(records: Records, id: Seq<char>, object: ObjectView) -> Records {
    records.insert(id, RecordView { object, ..records[id] })
}

/// The records after the access list of one was replaced.
pub open spec fn with_access(records: Records, id: Seq<char>, access: AccessView) -> Records {
    records.insert(id, RecordView { access, ..records[id] })
}

/// The call surface of a storage backend. `records` is what the backend
/// holds, as a map from identifiers; every call says what it does to that
/// map. A backend may fail on its own (`StorageError::Backend`) only where
/// the call would else have succeeded, and then changes nothing.
pub trait ObjectStore: Sized {
    spec fn records(&self) -> Records;

    /// What the backend needs to hold of itself between calls.
    spec fn well_formed(&self) -> bool;

    /// Whether the backend never fails on its own. No call changes it.
    spec fn reliable(&self) -> bool;

    /// Every stored record lies under its own identifier.
    proof fn lemma_keyed(&self)
        requires
            self.well_formed(),
        ensures
            forall|id: Seq<char>| #[trigger]
                self.records().dom().contains(id) ==> self.records()[id].id == id,
    ;

    /// Stores an object for `owner`, under `id` or, without one, under an
    /// identifier that was free. A taken identifier is refused with
    /// `AlreadyExists` unless `replace_existing` is set; what was there is
    /// then replaced whole, for an owner with the `Destroy` right on it.
    fn insert(
        &mut self,
        id: Option<String>,
        object: Object,
        attributes: Attributes,
        tags: Vec<String>,
        replace_existing: bool,
        owner: &Identity,
        now: u64,
    ) -> (r: Result<String, StorageError>)
        requires
            old(self).well_formed(),
        ensures
            final(self).well_formed(),
            final(self).reliable() == old(self).reliable(),
            old(self).reliable() ==> !(r is Err && r->Err_0 == StorageError::Backend),
            r is Ok ==> {
                &&& id is Some ==> r->Ok_0@ == id->0@
                &&& id is None ==> !old(self).records().dom().contains(r->Ok_0@)
            },
            outcome(
                insert_verdict(
                    old(self).records(),
                    opt_id_view(id),
                    replace_existing,
                    owner@,
                ),
                old(self).records(),
                final(self).records(),
                if r is Ok {
                    old(self).records().insert(
                        r->Ok_0@,
                        RecordView::fresh(
                            r->Ok_0@,
                            object@,
                            attributes@,
                            tag_set(tags@),
                            owner@,
                            now,
                        ),
                    )
                } else {
                    old(self).records()
                },
                r,
            ),
    ;

    /// The object and its attributes, for a requester with the `Get` right.
    fn get(&self, id: &String, requester: &Identity) -> (r: Result<(Object, Attributes), StorageError>)
        requires
            self.well_formed(),
        ensures
            self.reliable() ==> !(r is Err && r->Err_0 == StorageError::Backend),
            outcome(gate(self.records(), id@, requester@, Right::Get), self.records(), self.records(), self.records(), r),
            r is Ok ==> r->Ok_0.0@ == self.records()[id@].object && r->Ok_0.1@
                == self.records()[id@].attributes,
    ;

    /// The tags of an object, for a requester with the `Get` right.
    fn tags(&self, id: &String, requester: &Identity) -> (r: Result<Vec<String>, StorageError>)
        requires
            self.well_formed(),
        ensures
            self.reliable() ==> !(r is Err && r->Err_0 == StorageError::Backend),
            outcome(gate(self.records(), id@, requester@, Right::Get), self.records(), self.records(), self.records(), r),
            r is Ok ==> tag_set(r->Ok_0@) == self.records()[id@].tags,
    ;

    /// The object and its attributes, for a requester with the given
    /// right: what an operation under that right works on.
    fn fetch(&self, id: &String, requester: &Identity, right: Right) -> (r: Result<
        (Object, Attributes),
        StorageError,
    >)
        requires
            self.well_formed(),
        ensures
            self.reliable() ==> !(r is Err && r->Err_0 == StorageError::Backend),
            outcome(gate(self.records(), id@, requester@, right), self.records(), self.records(), self.records(), r),
            r is Ok ==> r->Ok_0.0@ == self.records()[id@].object && r->Ok_0.1@
                == self.records()[id@].attributes,
    ;

    /// Whether the requester may use the right on the object.
    fn permitted(&self, id: &String, requester: &Identity, right: Right) -> (r: Result<
        (),
        StorageError,
    >)
        requires
            self.well_formed(),
        ensures
            self.reliable() ==> r != Err::<(), StorageError>(StorageError::Backend),
            outcome(gate(self.records(), id@, requester@, right), self.records(), self.records(), self.records(), r),
    ;

    /// The identifiers of the objects that the search finds, each once.
    fn locate(&self, tags: &Vec<String>, filter: &AttributeFilter, requester: &Identity) -> (r: Result<
        Vec<String>,
        StorageError,
    >)
        requires
            self.well_formed(),
        ensures
            r is Err ==> r->Err_0 == StorageError::Backend && !self.reliable(),
            r is Ok ==> {
                &&& forall|i: int, j: int|
                    0 <= i < j < r->Ok_0@.len() ==> r->Ok_0@[i]@ != r->Ok_0@[j]@
                &&& forall|id: Seq<char>|
                    tag_set(r->Ok_0@).contains(id) <==> self.records().dom().contains(id)
                        && self.records()[id].found_by(tag_set(tags@), *filter, requester@)
            },
    ;

    /// Replaces the attributes of an object, for a requester with the
    /// `Link` right.
    fn update_attributes(&mut self, id: &String, attributes: Attributes, requester: &Identity) -> (r:
        Result<(), StorageError>)
        requires
            old(self).well_formed(),
        ensures
            final(self).well_formed(),
            final(self).reliable() == old(self).reliable(),
            old(self).reliable() ==> !(r is Err && r->Err_0 == StorageError::Backend),
            outcome(
                gate(old(self).records(), id@, requester@, Right::Link),
                old(self).records(),
                final(self).records(),
                with_attributes(old(self).records(), id@, attributes@),
                r,
            ),
    ;

    /// Replaces the object of a record, for a requester with the `Export`
    /// right: whoever may take the material out may put it back in
    /// another form.
    fn update_object(&mut self, id: &String, object: Object, requester: &Identity) -> (r: Result<
        (),
        StorageError,
    >)
        requires
            old(self).well_formed(),
        ensures
            final(self).well_formed(),
            final(self).reliable() == old(self).reliable(),
            old(self).reliable() ==> !(r is Err && r->Err_0 == StorageError::Backend),
            outcome(
                gate(old(self).records(), id@, requester@, Right::Export),
                old(self).records(),
                final(self).records(),
                with_object(old(self).records(), id@, object@),
                r,
            ),
    ;

    /// Adds tags to an object, for a requester with the `Link` right.
    fn add_tags(&mut self, id: &String, tags: Vec<String>, requester: &Identity) -> (r: Result<
        (),
        StorageError,
    >)
        requires
            old(self).well_formed(),
        ensures
            final(self).well_formed(),
            final(self).reliable() == old(self).reliable(),
            old(self).reliable() ==> !(r is Err && r->Err_0 == StorageError::Backend),
            outcome(
                gate(old(self).records(), id@, requester@, Right::Link),
                old(self).records(),
                final(self).records(),
                with_tags(old(self).records(), id@, tag_set(tags@)),
                r,
            ),
    ;

    /// Marks an object as revoked, for a requester with the `Destroy`
    /// right on an object that is not revoked yet. The record stays.
    fn revoke(&mut self, id: &String, requester: &Identity, now: u64) -> (r: Result<(), StorageError>)
        requires
            old(self).well_formed(),
        ensures
            final(self).well_formed(),
            final(self).reliable() == old(self).reliable(),
            old(self).reliable() ==> !(r is Err && r->Err_0 == StorageError::Backend),
            outcome(
                if old(self).records().dom().contains(id@) && old(self).records()[id@].revoked
                    is Some {
                    Err(StorageError::NotFound)
                } else {
                    gate(old(self).records(), id@, requester@, Right::Destroy)
                },
                old(self).records(),
                final(self).records(),
                with_revocation(old(self).records(), id@, now),
                r,
            ),
    ;

    /// Removes an object for good, for a requester with the `Destroy`
    /// right.
    fn destroy(&mut self, id: &String, requester: &Identity) -> (r: Result<(), StorageError>)
        requires
            old(self).well_formed(),
        ensures
            final(self).well_formed(),
            final(self).reliable() == old(self).reliable(),
            old(self).reliable() ==> !(r is Err && r->Err_0 == StorageError::Backend),
            outcome(
                gate(old(self).records(), id@, requester@, Right::Destroy),
                old(self).records(),
                final(self).records(),
                old(self).records().remove(id@),
                r,
            ),
    ;

    /// Gives a right on an object to another identity. Only the owner
    /// gives rights.
    fn grant(&mut self, id: &String, requester: &Identity, grantee: &String, right: Right) -> (r:
        Result<(), StorageError>)
        requires
            old(self).well_formed(),
        ensures
            final(self).well_formed(),
            final(self).reliable() == old(self).reliable(),
            old(self).reliable() ==> !(r is Err && r->Err_0 == StorageError::Backend),
            outcome(
                owner_verdict(old(self).records(), id@, requester@),
                old(self).records(),
                final(self).records(),
                with_access(
                    old(self).records(),
                    id@,
                    old(self).records()[id@].access.with_grant(grantee@, right),
                ),
                r,
            ),
    ;

    /// Takes a right on an object back from an identity. Only the owner
    /// takes rights back.
    fn withdraw(&mut self, id: &String, requester: &Identity, grantee: &String, right: Right) -> (r:
        Result<(), StorageError>)
        requires
            old(self).well_formed(),
        ensures
            final(self).well_formed(),
            final(self).reliable() == old(self).reliable(),
            old(self).reliable() ==> !(r is Err && r->Err_0 == StorageError::Backend),
            outcome(
                owner_verdict(old(self).records(), id@, requester@),
                old(self).records(),
                final(self).records(),
                with_access(
                    old(self).records(),
                    id@,
                    old(self).records()[id@].access.without_grant(grantee@, right),
                ),
                r,
            ),
    ;
}

/// The verdict on a request that only the owner may make: a requester with
/// some right on the object is told that it lacks this one; any other
/// learns no more than of an absent object.
pub open spec fn owner_verdict(records: Records, id: Seq<char>, requester: Seq<char>) -> Result<
    (),
    StorageError,
> {
    if !records.dom().contains(id) || records[id].revoked is Some {
        Err(StorageError::NotFound)
    } else if records[id].access.owner == requester {
        Ok(())
    } else if records[id].access.knows(requester) {
        Err(StorageError::Unauthorized)
    } else {
        Err(StorageError::NotFound)
    }
}

/// A copy of a list of tags.
pub fn clone_tags(tags: &Vec<String>) -> (r: Vec<String>)
    ensures
        r@.len() == tags@.len(),
        forall|i: int| 0 <= i < tags@.len() ==> r@[i]@ == tags@[i]@,
        tag_set(r@) == tag_set(tags@),
{
    let mut out: Vec<String> = Vec::new();
    let mut i: usize = 0;
    while i < tags.len()
        invariant
            i <= tags.len(),
            out@.len() == i,
            forall|j: int| 0 <= j < i ==> out@[j]@ == tags@[j]@,
        decreases tags.len() - i,
    {
        out.push(tags[i].clone());
        i += 1;
    }
    assert(tag_set(out@) =~= tag_set(tags@)) by {
        assert forall|t: Seq<char>| tag_set(out@).contains(t) <==> tag_set(tags@).contains(t) by {
            if tag_set(out@).contains(t) {
                let k = choose|k: int| 0 <= k < out@.len() && #[trigger] out@[k]@ == t;
                assert(tags@[k]@ == t);
            }
            if tag_set(tags@).contains(t) {
                let k = choose|k: int| 0 <= k < tags@.len() && #[trigger] tags@[k]@ == t;
                assert(out@[k]@ == t);
            }
        }
    }
    out
}

} // verus!
