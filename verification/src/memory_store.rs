//! A storage backend that keeps its records in memory.

use vstd::prelude::*;
use crate::access::{
    AccessList,
    Identity,
    Right,
    authorize,
};
use crate::decimal::{
    digits,
    to_decimal,
};
use crate::error::StorageError;
use crate::object::{
    Attributes,
    Object,
};
use crate::storage::{
    AttributeFilter,
    ObjectStore,
    Record,
    RecordView,
    Records,
    gate,
    owner_verdict,
    tag_set,
};

verus! {

/// Whether some entry lies under the identifier.
pub open spec fn holds(entries: Seq<Record>, id: Seq<char>) -> bool {
    exists|i: int| 0 <= i < entries.len() && #[trigger] entries[i].id@ == id
}

/// The place of the entry under the identifier.
pub open spec fn index_of(entries: Seq<Record>, id: Seq<char>) -> int {
    choose|i: int| 0 <= i < entries.len() && #[trigger] entries[i].id@ == id
}

/// No two entries lie under one identifier.
pub open spec fn distinct(entries: Seq<Record>) -> bool {
    forall|i: int, j: int|
        0 <= i < entries.len() && 0 <= j < entries.len() && i != j ==> #[trigger] entries[i].id@
            != #[trigger] entries[j].id@
}

/// The entries as a map from identifiers.
pub open spec fn as_map(entries: Seq<Record>) -> Records {
    Map::new(|id: Seq<char>| holds(entries, id), |id: Seq<char>| entries[index_of(entries, id)]@)
}

/// The first number from `from` on whose numeral names no record, if there
/// is one below the greatest number.
pub open spec fn free_from(records: Records, from: nat) -> Option<nat>
    decreases u64::MAX - from,
{
    if from >= u64::MAX {
        None
    } else if !records.dom().contains(digits(from)) {
        Some(from)
    } else {
        free_from(records, from + 1)
    }
}

proof fn lemma_index(entries: Seq<Record>, i: int)
    requires
        distinct(entries),
        0 <= i < entries.len(),
    ensures
        holds(entries, entries[i].id@),
        index_of(entries, entries[i].id@) == i,
{
}

proof fn lemma_push(entries: Seq<Record>, r: Record)
    requires
        distinct(entries),
        !holds(entries, r.id@),
    ensures
        distinct(entries.push(r)),
        as_map(entries.push(r)) == as_map(entries).insert(r.id@, r@),
{
    let after = entries.push(r);
    assert forall|i: int, j: int| 0 <= i < after.len() && 0 <= j < after.len() && i != j implies
        #[trigger] after[i].id@ != #[trigger] after[j].id@ by {
        if i < entries.len() && j < entries.len() {
            assert(entries[i].id@ != entries[j].id@);
        } else if i < entries.len() {
            assert(entries[i].id@ != r.id@);
        } else {
            assert(entries[j].id@ != r.id@);
        }
    }
    assert forall|id: Seq<char>| holds(after, id) <==> (id == r.id@ || holds(entries, id)) by {
        if holds(after, id) {
            let i = index_of(after, id);
            if i < entries.len() {
                assert(entries[i].id@ == id);
            }
        }
        if holds(entries, id) {
            let i = index_of(entries, id);
            assert(after[i].id@ == id);
        }
        if id == r.id@ {
            assert(after[entries.len() as int].id@ == id);
        }
    }
    assert forall|id: Seq<char>| holds(after, id) implies #[trigger] as_map(after)[id] == as_map(
        entries,
    ).insert(r.id@, r@)[id] by {
        if id == r.id@ {
            lemma_index(after, entries.len() as int);
        } else {
            let i = index_of(entries, id);
            assert(after[i].id@ == id);
            lemma_index(after, i);
        }
    }
    assert(as_map(after) =~= as_map(entries).insert(r.id@, r@));
}

proof fn lemma_update(entries: Seq<Record>, k: int, r: Record)
    requires
        distinct(entries),
        0 <= k < entries.len(),
        r.id@ == entries[k].id@,
    ensures
        distinct(entries.update(k, r)),
        as_map(entries.update(k, r)) == as_map(entries).insert(r.id@, r@),
{
    let after = entries.update(k, r);
    assert forall|i: int, j: int| 0 <= i < after.len() && 0 <= j < after.len() && i != j implies
        #[trigger] after[i].id@ != #[trigger] after[j].id@ by {
        assert(entries[i].id@ != entries[j].id@);
    }
    assert forall|id: Seq<char>| holds(after, id) <==> holds(entries, id) by {
        if holds(after, id) {
            let i = index_of(after, id);
            assert(entries[i].id@ == id);
        }
        if holds(entries, id) {
            let i = index_of(entries, id);
            assert(after[i].id@ == id);
        }
    }
    assert(holds(entries, r.id@));
    assert forall|id: Seq<char>| holds(after, id) implies #[trigger] as_map(after)[id] == as_map(
        entries,
    ).insert(r.id@, r@)[id] by {
        let i = index_of(entries, id);
        assert(after[i].id@ == id);
        lemma_index(after, i);
        lemma_index(entries, i);
    }
    assert(as_map(after) =~= as_map(entries).insert(r.id@, r@));
}

proof fn lemma_remove(entries: Seq<Record>, k: int)
    requires
        distinct(entries),
        0 <= k < entries.len(),
    ensures
        distinct(entries.remove(k)),
        as_map(entries.remove(k)) == as_map(entries).remove(entries[k].id@),
{
    let after = entries.remove(k);
    let gone = entries[k].id@;
    assert forall|i: int| 0 <= i < after.len() implies #[trigger] after[i] == entries[if i < k {
        i
    } else {
        i + 1
    }] by {}
    assert forall|i: int, j: int| 0 <= i < after.len() && 0 <= j < after.len() && i != j implies
        #[trigger] after[i].id@ != #[trigger] after[j].id@ by {
        let a = if i < k {
            i
        } else {
            i + 1
        };
        let b = if j < k {
            j
        } else {
            j + 1
        };
        assert(entries[a].id@ != entries[b].id@);
    }
    assert forall|id: Seq<char>| holds(after, id) <==> (holds(entries, id) && id != gone) by {
        if holds(after, id) {
            let i = index_of(after, id);
            let a = if i < k {
                i
            } else {
                i + 1
            };
            assert(entries[a].id@ == id);
            assert(entries[a].id@ != entries[k].id@);
        }
        if holds(entries, id) && id != gone {
            let a = index_of(entries, id);
            let i = if a < k {
                a
            } else {
                a - 1
            };
            assert(after[i].id@ == id);
        }
    }
    assert forall|id: Seq<char>| holds(after, id) implies #[trigger] as_map(after)[id] == as_map(
        entries,
    ).remove(gone)[id] by {
        let a = index_of(entries, id);
        let i = if a < k {
            a
        } else {
            a - 1
        };
        assert(after[i].id@ == id);
        lemma_index(after, i);
        lemma_index(entries, a);
    }
    assert(as_map(after) =~= as_map(entries).remove(gone));
}

/// Records kept in a list, no two under one identifier.
pub struct MemoryStore {
    entries: Vec<Record>,
    /// The number from which the next free identifier is looked for.
    next: u64,
}

impl MemoryStore {
    /// The identifier that the next object without one of its own gets:
    /// the numeral of the first free number, or, were the numbers used
    /// up, a string longer than every identifier in use.
    pub closed spec fn next_identifier(&self) -> Seq<char> {
        match free_from(as_map(self.entries@), self.next as nat) {
            Some(n) => digits(n),
            None => joined(self.entries@).push('0'),
        }
    }

    /// An empty store.
    pub fn new() -> (r: MemoryStore)
        ensures
            r.well_formed(),
            r.records() == Map::<Seq<char>, RecordView>::empty(),
            r.next_identifier() == digits(0),
    {
        let r = MemoryStore { entries: Vec::new(), next: 0 };
        assert(as_map(r.entries@) =~= Map::<Seq<char>, RecordView>::empty());
        r
    }

    /// The number of records held.
    pub fn len(&self) -> (r: usize)
        requires
            self.well_formed(),
        ensures
            r == self.records().dom().len(),
            self.records().dom().finite(),
    {
        proof {
            lemma_size(self.entries@);
        }
        self.entries.len()
    }

    fn position(&self, id: &String) -> (r: Option<usize>)
        requires
            distinct(self.entries@),
        ensures
            match r {
                Some(i) => i < self.entries.len() && self.entries[i as int].id@ == id@ && index_of(
                    self.entries@,
                    id@,
                ) == i && holds(self.entries@, id@),
                None => !holds(self.entries@, id@),
            },
    {
        let mut i: usize = 0;
        while i < self.entries.len()
            invariant
                i <= self.entries.len(),
                distinct(self.entries@),
                forall|j: int| 0 <= j < i ==> self.entries[j].id@ != id@,
            decreases self.entries.len() - i,
        {
            if self.entries[i].id == *id {
                proof {
                    lemma_index(self.entries@, i as int);
                }
                return Some(i);
            }
            i += 1;
        }
        None
    }

    /// The place of the record on which the requester may use the
    /// right on.
    fn pass(&self, id: &String, requester: &Identity, right: Right) -> (r: Result<
        usize,
        StorageError,
    >)
        requires
            self.well_formed(),
        ensures
            match r {
                Ok(i) => gate(self.records(), id@, requester@, right) is Ok && i < self.entries.len()
                    && self.entries[i as int].id@ == id@ && self.records()[id@]
                    == self.entries[i as int]@ && self.records().dom().contains(id@),
                Err(e) => gate(self.records(), id@, requester@, right) == Err::<(), StorageError>(e),
            },
    {
        match self.position(id) {
            Some(i) => {
                let rec = &self.entries[i];
                let live = rec.revoked.is_none() || right == Right::Destroy;
                let verdict = if live {
                    authorize(Some(&rec.access), requester, right)
                } else {
                    authorize(None, requester, right)
                };
                match verdict {
                    Ok(()) => Ok(i),
                    Err(e) => Err(e),
                }
            },
            None => {
                match authorize(None, requester, right) {
                    Ok(()) => Err(StorageError::NotFound),
                    Err(e) => Err(e),
                }
            },
        }
    }

    /// The place of the record of which the requester is the owner.
    fn pass_owner(&self, id: &String, requester: &Identity) -> (r: Result<usize, StorageError>)
        requires
            self.well_formed(),
        ensures
            match r {
                Ok(i) => owner_verdict(self.records(), id@, requester@) is Ok && i
                    < self.entries.len() && self.entries[i as int].id@ == id@ && self.records()[id@]
                    == self.entries[i as int]@,
                Err(e) => owner_verdict(self.records(), id@, requester@) == Err::<(), StorageError>(
                    e,
                ),
            },
    {
        match self.position(id) {
            Some(i) => {
                let rec = &self.entries[i];
                if rec.revoked.is_some() {
                    Err(StorageError::NotFound)
                } else if rec.access.owner == *requester.name() {
                    Ok(i)
                } else if rec.access.knows(requester.name()) {
                    Err(StorageError::Unauthorized)
                } else {
                    Err(StorageError::NotFound)
                }
            },
            None => Err(StorageError::NotFound),
        }
    }

    /// A free identifier.
    fn assign(&mut self) -> (r: String)
        requires
            old(self).well_formed(),
        ensures
            final(self).well_formed(),
            final(self).entries == old(self).entries,
            r@ == old(self).next_identifier(),
            !holds(old(self).entries@, r@),
    {
        let ghost records = as_map(self.entries@);
        let ghost start = self.next;
        while self.next < u64::MAX
            invariant
                self.entries == old(self).entries,
                distinct(self.entries@),
                records == as_map(self.entries@),
                start == old(self).next,
                free_from(records, start as nat) == free_from(records, self.next as nat),
            decreases u64::MAX - self.next,
        {
            let candidate = to_decimal(self.next);
            assert(records.dom().contains(candidate@) == holds(self.entries@, candidate@));
            match self.position(&candidate) {
                None => {
                    assert(free_from(records, self.next as nat) == Some(self.next as nat));
                    self.next = self.next + 1;
                    return candidate;
                },
                Some(_) => {
                    assert(free_from(records, self.next as nat) == free_from(
                        records,
                        self.next as nat + 1,
                    ));
                    self.next = self.next + 1;
                },
            }
        }
        let mut longer = String::new();
        let mut i: usize = 0;
        assert(self.entries@.take(0) =~= Seq::<Record>::empty());
        while i < self.entries.len()
            invariant
                i <= self.entries.len(),
                longer@ == joined(self.entries@.take(i as int)),
            decreases self.entries.len() - i,
        {
            longer.append(self.entries[i].id.as_str());
            assert(self.entries@.take(i as int + 1).drop_last() =~= self.entries@.take(i as int));
            i += 1;
        }
        assert(self.entries@.take(i as int) =~= self.entries@);
        longer.append("0");
        proof {
            reveal_strlit("0");
            assert(longer@ =~= joined(self.entries@).push('0'));
            assert forall|j: int| 0 <= j < self.entries@.len() implies self.entries@[j].id@
                != longer@ by {
                lemma_joined_covers(self.entries@, j);
            }
        }
        longer
    }
}

/// The identifiers of the entries, one after the other.
pub open spec fn joined(entries: Seq<Record>) -> Seq<char>
    decreases entries.len(),
{
    if entries.len() == 0 {
        Seq::empty()
    } else {
        joined(entries.drop_last()) + entries.last().id@
    }
}

/// No identifier is longer than all of them joined.
proof fn lemma_joined_covers(entries: Seq<Record>, j: int)
    requires
        0 <= j < entries.len(),
    ensures
        entries[j].id@.len() <= joined(entries).len(),
    decreases entries.len(),
{
    if j < entries.len() - 1 {
        lemma_joined_covers(entries.drop_last(), j);
    }
}

/// A list without repeated identifiers has as many records as its map.
proof fn lemma_size(entries: Seq<Record>)
    requires
        distinct(entries),
    ensures
        as_map(entries).dom().finite(),
        as_map(entries).dom().len() == entries.len(),
    decreases entries.len(),
{
    if entries.len() == 0 {
        assert(as_map(entries).dom() =~= Set::<Seq<char>>::empty());
    } else {
        let rest = entries.drop_last();
        let last = entries.last();
        assert forall|i: int, j: int| 0 <= i < rest.len() && 0 <= j < rest.len() && i != j implies
            #[trigger] rest[i].id@ != #[trigger] rest[j].id@ by {
            assert(entries[i].id@ != entries[j].id@);
        }
        assert(!holds(rest, last.id@)) by {
            if holds(rest, last.id@) {
                let i = index_of(rest, last.id@);
                assert(entries[i].id@ == entries[entries.len() - 1].id@);
            }
        }
        lemma_size(rest);
        lemma_push(rest, last);
        assert(rest.push(last) =~= entries);
        assert(as_map(entries).dom() =~= as_map(rest).dom().insert(last.id@));
    }
}

/// Whether the list holds the string.
pub fn has_tag(tags: &Vec<String>, tag: &String) -> (r: bool)
    ensures
        r == tag_set(tags@).contains(tag@),
{
    let mut i: usize = 0;
    while i < tags.len()
        invariant
            i <= tags.len(),
            forall|j: int| 0 <= j < i ==> tags[j]@ != tag@,
        decreases tags.len() - i,
    {
        if tags[i] == *tag {
            return true;
        }
        i += 1;
    }
    false
}

/// Whether every string of `wanted` is among `tags`.
pub fn has_all_tags(tags: &Vec<String>, wanted: &Vec<String>) -> (r: bool)
    ensures
        r == tag_set(wanted@).subset_of(tag_set(tags@)),
{
    let mut i: usize = 0;
    while i < wanted.len()
        invariant
            i <= wanted.len(),
            forall|j: int| 0 <= j < i ==> tag_set(tags@).contains(#[trigger] wanted[j]@),
        decreases wanted.len() - i,
    {
        if !has_tag(tags, &wanted[i]) {
            assert(tag_set(wanted@).contains(wanted[i as int]@));
            return false;
        }
        i += 1;
    }
    true
}

impl ObjectStore for MemoryStore {
    closed spec fn records(&self) -> Records {
        as_map(self.entries@)
    }

    closed spec fn well_formed(&self) -> bool {
        distinct(self.entries@)
    }

    /// Memory does not fail.
    open spec fn reliable(&self) -> bool {
        true
    }

    proof fn lemma_keyed(&self) {
        assert forall|id: Seq<char>| #[trigger]
            self.records().dom().contains(id) implies self.records()[id].id == id by {
            let i = index_of(self.entries@, id);
            assert(self.entries@[i].id@ == id);
        }
    }

    fn insert(
        &mut self,
        id: Option<String>,
        object: Object,
        attributes: Attributes,
        tags: Vec<String>,
        replace_existing: bool,
        owner: &Identity,
        now: u64,
    ) -> (r: Result<String, StorageError>)
        ensures
            id is None ==> r is Ok && r->Ok_0@ == old(self).next_identifier(),
    {
        let ghost before = self.entries@;
        match id {
            Some(id) => {
                match self.position(&id) {
                    Some(i) => {
                        if !replace_existing {
                            return Err(StorageError::AlreadyExists);
                        }
                        match self.pass(&id, owner, Right::Destroy) {
                            Ok(_) => {},
                            Err(e) => {
                                return Err(e);
                            },
                        }
                        let rec = Record {
                            id: id.clone(),
                            object,
                            attributes,
                            tags,
                            access: AccessList::new(owner.name().clone()),
                            created: now,
                            revoked: None,
                        };
                        proof {
                            lemma_update(before, i as int, rec);
                        }
                        self.entries[i] = rec;
                        assert(self.entries@ == before.update(i as int, rec));
                        Ok(id)
                    },
                    None => {
                        let rec = Record {
                            id: id.clone(),
                            object,
                            attributes,
                            tags,
                            access: AccessList::new(owner.name().clone()),
                            created: now,
                            revoked: None,
                        };
                        proof {
                            lemma_push(before, rec);
                        }
                        self.entries.push(rec);
                        Ok(id)
                    },
                }
            },
            None => {
                let new_id = self.assign();
                let rec = Record {
                    id: new_id.clone(),
                    object,
                    attributes,
                    tags,
                    access: AccessList::new(owner.name().clone()),
                    created: now,
                    revoked: None,
                };
                proof {
                    lemma_push(before, rec);
                }
                self.entries.push(rec);
                Ok(new_id)
            },
        }
    }

    fn get(&self, id: &String, requester: &Identity) -> (r: Result<(Object, Attributes), StorageError>)
        ensures
            r is Ok <==> gate(self.records(), id@, requester@, Right::Get) is Ok,
    {
        match self.pass(id, requester, Right::Get) {
            Ok(i) => {
                let rec = &self.entries[i];
                Ok((rec.object.clone(), rec.attributes.clone()))
            },
            Err(e) => Err(e),
        }
    }

    fn tags(&self, id: &String, requester: &Identity) -> (r: Result<Vec<String>, StorageError>)
        ensures
            r is Ok <==> gate(self.records(), id@, requester@, Right::Get) is Ok,
    {
        match self.pass(id, requester, Right::Get) {
            Ok(i) => {
                let rec = &self.entries[i];
                Ok(crate::storage::clone_tags(&rec.tags))
            },
            Err(e) => Err(e),
        }
    }

    fn fetch(&self, id: &String, requester: &Identity, right: Right) -> (r: Result<
        (Object, Attributes),
        StorageError,
    >)
        ensures
            r is Ok <==> gate(self.records(), id@, requester@, right) is Ok,
    {
        match self.pass(id, requester, right) {
            Ok(i) => {
                let rec = &self.entries[i];
                Ok((rec.object.clone(), rec.attributes.clone()))
            },
            Err(e) => Err(e),
        }
    }

    fn permitted(&self, id: &String, requester: &Identity, right: Right) -> (r: Result<
        (),
        StorageError,
    >)
        ensures
            r == gate(self.records(), id@, requester@, right),
    {
        match self.pass(id, requester, right) {
            Ok(_) => Ok(()),
            Err(e) => Err(e),
        }
    }

    fn locate(&self, tags: &Vec<String>, filter: &AttributeFilter, requester: &Identity) -> (r: Result<
        Vec<String>,
        StorageError,
    >)
    {
        let mut found: Vec<String> = Vec::new();
        let ghost mut source: Seq<int> = Seq::empty();
        let mut i: usize = 0;
        while i < self.entries.len()
            invariant
                i <= self.entries.len(),
                distinct(self.entries@),
                source.len() == found.len(),
                forall|k: int|
                    0 <= k < source.len() ==> 0 <= #[trigger] source[k] < i && found[k]@
                        == self.entries[source[k]].id@ && self.entries[source[k]]@.found_by(
                        tag_set(tags@),
                        *filter,
                        requester@,
                    ),
                forall|k: int, l: int| 0 <= k < l < source.len() ==> source[k] < source[l],
                forall|j: int|
                    0 <= j < i && (#[trigger] self.entries[j])@.found_by(
                        tag_set(tags@),
                        *filter,
                        requester@,
                    ) ==> tag_set(found@).contains(self.entries[j].id@),
            decreases self.entries.len() - i,
        {
            let rec = &self.entries[i];
            if rec.revoked.is_none() && rec.access.permits(requester.name(), Right::Get)
                && has_all_tags(&rec.tags, tags) && filter.matches(&rec.attributes) {
                let ghost before = found@;
                found.push(rec.id.clone());
                proof {
                    source = source.push(i as int);
                    assert forall|j: int|
                        0 <= j < i + 1 && (#[trigger] self.entries[j])@.found_by(
                            tag_set(tags@),
                            *filter,
                            requester@,
                        ) implies tag_set(found@).contains(self.entries[j].id@) by {
                        if j < i {
                            assert(tag_set(before).contains(self.entries[j].id@));
                            let k = choose|k: int|
                                0 <= k < before.len() && #[trigger] before[k]@
                                    == self.entries[j].id@;
                            assert(found@[k]@ == self.entries[j].id@);
                        } else {
                            assert(found@[before.len() as int]@ == self.entries[j].id@);
                        }
                    }
                }
            }
            i += 1;
        }
        proof {
            assert forall|k: int, l: int| 0 <= k < l < found@.len() implies found@[k]@
                != found@[l]@ by {
                assert(source[k] < source[l]);
            }
            assert forall|id: Seq<char>|
                tag_set(found@).contains(id) <==> self.records().dom().contains(id)
                    && self.records()[id].found_by(tag_set(tags@), *filter, requester@) by {
                if tag_set(found@).contains(id) {
                    let k = choose|k: int| 0 <= k < found@.len() && #[trigger] found@[k]@ == id;
                    lemma_index(self.entries@, source[k]);
                }
                if self.records().dom().contains(id) && self.records()[id].found_by(
                    tag_set(tags@),
                    *filter,
                    requester@,
                ) {
                    let j = index_of(self.entries@, id);
                    assert(self.entries[j]@.found_by(tag_set(tags@), *filter, requester@));
                }
            }
        }
        Ok(found)
    }

    fn update_attributes(&mut self, id: &String, attributes: Attributes, requester: &Identity) -> (r:
        Result<(), StorageError>)
        ensures
            r is Ok <==> gate(old(self).records(), id@, requester@, Right::Link) is Ok,
    {
        match self.pass(id, requester, Right::Link) {
            Ok(i) => {
                let ghost before = self.entries@;
                let mut rec = self.entries.remove(i);
                rec.attributes = attributes;
                proof {
                    lemma_update(before, i as int, rec);
                }
                self.entries.insert(i, rec);
                assert(self.entries@ =~= before.update(i as int, rec));
                Ok(())
            },
            Err(e) => Err(e),
        }
    }

    fn update_object(&mut self, id: &String, object: Object, requester: &Identity) -> (r: Result<
        (),
        StorageError,
    >)
        ensures
            r is Ok <==> gate(old(self).records(), id@, requester@, Right::Export) is Ok,
    {
        match self.pass(id, requester, Right::Export) {
            Ok(i) => {
                let ghost before = self.entries@;
                let mut rec = self.entries.remove(i);
                rec.object = object;
                proof {
                    lemma_update(before, i as int, rec);
                }
                self.entries.insert(i, rec);
                assert(self.entries@ =~= before.update(i as int, rec));
                Ok(())
            },
            Err(e) => Err(e),
        }
    }

    fn add_tags(&mut self, id: &String, tags: Vec<String>, requester: &Identity) -> (r: Result<
        (),
        StorageError,
    >)
        ensures
            r is Ok <==> gate(old(self).records(), id@, requester@, Right::Link) is Ok,
    {
        match self.pass(id, requester, Right::Link) {
            Ok(i) => {
                let ghost before = self.entries@;
                let mut rec = self.entries.remove(i);
                let ghost had = rec.tags@;
                let mut extra = tags;
                let ghost added = extra@;
                rec.tags.append(&mut extra);
                proof {
                    assert(tag_set(rec.tags@) =~= tag_set(had).union(tag_set(added))) by {
                        assert forall|t: Seq<char>|
                            tag_set(rec.tags@).contains(t) <==> tag_set(had).contains(t) || tag_set(
                                added,
                            ).contains(t) by {
                            if tag_set(rec.tags@).contains(t) {
                                let k = choose|k: int|
                                    0 <= k < rec.tags@.len() && #[trigger] rec.tags@[k]@ == t;
                                if k < had.len() {
                                    assert(had[k]@ == t);
                                } else {
                                    assert(added[k - had.len()]@ == t);
                                }
                            }
                            if tag_set(had).contains(t) {
                                let k = choose|k: int| 0 <= k < had.len() && #[trigger] had[k]@ == t;
                                assert(rec.tags@[k]@ == t);
                            }
                            if tag_set(added).contains(t) {
                                let k = choose|k: int|
                                    0 <= k < added.len() && #[trigger] added[k]@ == t;
                                assert(rec.tags@[had.len() + k]@ == t);
                            }
                        }
                    }
                    lemma_update(before, i as int, rec);
                }
                self.entries.insert(i, rec);
                assert(self.entries@ =~= before.update(i as int, rec));
                Ok(())
            },
            Err(e) => Err(e),
        }
    }

    fn revoke(&mut self, id: &String, requester: &Identity, now: u64) -> (r: Result<(), StorageError>)
    {
        match self.position(id) {
            Some(i) => {
                if self.entries[i].revoked.is_some() {
                    return Err(StorageError::NotFound);
                }
            },
            None => {},
        }
        match self.pass(id, requester, Right::Destroy) {
            Ok(i) => {
                let ghost before = self.entries@;
                let mut rec = self.entries.remove(i);
                rec.revoked = Some(now);
                proof {
                    lemma_update(before, i as int, rec);
                }
                self.entries.insert(i, rec);
                assert(self.entries@ =~= before.update(i as int, rec));
                Ok(())
            },
            Err(e) => Err(e),
        }
    }

    fn destroy(&mut self, id: &String, requester: &Identity) -> (r: Result<(), StorageError>)
        ensures
            r == gate(old(self).records(), id@, requester@, Right::Destroy),
    {
        match self.pass(id, requester, Right::Destroy) {
            Ok(i) => {
                proof {
                    lemma_remove(self.entries@, i as int);
                }
                self.entries.remove(i);
                Ok(())
            },
            Err(e) => Err(e),
        }
    }

    fn grant(&mut self, id: &String, requester: &Identity, grantee: &String, right: Right) -> (r:
        Result<(), StorageError>)
        ensures
            r == owner_verdict(old(self).records(), id@, requester@),
    {
        match self.pass_owner(id, requester) {
            Ok(i) => {
                let ghost before = self.entries@;
                let mut rec = self.entries.remove(i);
                rec.access.grant(grantee, right);
                proof {
                    lemma_update(before, i as int, rec);
                }
                self.entries.insert(i, rec);
                assert(self.entries@ =~= before.update(i as int, rec));
                Ok(())
            },
            Err(e) => Err(e),
        }
    }

    fn withdraw(&mut self, id: &String, requester: &Identity, grantee: &String, right: Right) -> (r:
        Result<(), StorageError>)
        ensures
            r == owner_verdict(old(self).records(), id@, requester@),
    {
        match self.pass_owner(id, requester) {
            Ok(i) => {
                let ghost before = self.entries@;
                let mut rec = self.entries.remove(i);
                rec.access.revoke(grantee, right);
                proof {
                    lemma_update(before, i as int, rec);
                }
                self.entries.insert(i, rec);
                assert(self.entries@ =~= before.update(i as int, rec));
                Ok(())
            },
            Err(e) => Err(e),
        }
    }
}

} // verus!
