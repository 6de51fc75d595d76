//! Authorization: who the caller is, and what the caller may do
//! with an object.

use vstd::prelude::*;
use crate::error::StorageError;
use crate::seq_util::lemma_filter_push;

verus! {

/// What a caller can be allowed to do with an object.
#[derive(Clone, Copy, Debug, PartialEq, Eq, Structural)]
pub enum Right {
    Get,
    Encrypt,
    Decrypt,
    Export,
    Destroy,
    Link,
}

/// A right given to an identity other than the owner.
pub struct Grant {
    pub identity: String,
    pub right: Right,
}

impl View for Grant {
    type V = (Seq<char>, Right);

    open spec fn view(&self) -> (Seq<char>, Right) {
        (self.identity@, self.right)
    }
}

/// The owner of an object and the rights given to others.
pub struct AccessList {
    pub owner: String,
    pub grants: Vec<Grant>,
}

pub struct AccessView {
    pub owner: Seq<char>,
    pub grants: Seq<(Seq<char>, Right)>,
}

impl View for AccessList {
    type V = AccessView;

    open spec fn view(&self) -> AccessView {
        AccessView { owner: self.owner@, grants: self.grants@.map_values(|g: Grant| g@) }
    }
}

impl AccessView {
    /// The access list of an object that was just created.
    pub open spec fn owned_by(owner: Seq<char>) -> AccessView {
        AccessView { owner, grants: Seq::empty() }
    }

    /// Whether the right was given to the identity by a grant.
    pub open spec fn granted(self, identity: Seq<char>, right: Right) -> bool {
        self.grants.contains((identity, right))
    }

    /// The owner has every right; another identity has those granted to it.
    pub open spec fn permits(self, identity: Seq<char>, right: Right) -> bool {
        identity == self.owner || self.granted(identity, right)
    }

    /// Whether the identity has any right at all on the object.
    pub open spec fn knows(self, identity: Seq<char>) -> bool {
        identity == self.owner || exists|right: Right| self.granted(identity, right)
    }

    /// The list after the right was given: unchanged where the identity had
    /// it, else longer by that grant.
    pub open spec fn with_grant(self, identity: Seq<char>, right: Right) -> AccessView {
        if self.granted(identity, right) {
            self
        } else {
            AccessView { owner: self.owner, grants: self.grants.push((identity, right)) }
        }
    }

    /// The list after the right was taken back.
    pub open spec fn without_grant(self, identity: Seq<char>, right: Right) -> AccessView {
        AccessView {
            owner: self.owner,
            grants: self.grants.filter(|g: (Seq<char>, Right)| g != (identity, right)),
        }
    }
}

/// The answer to a request for a right on an object that may be absent:
/// absence first; then the right; a caller without any right on the object
/// learns no more than of an absent one.
pub open spec fn decision(access: Option<AccessView>, identity: Seq<char>, right: Right) -> Result<
    (),
    StorageError,
> {
    match access {
        None => Err(StorageError::NotFound),
        Some(a) => if a.permits(identity, right) {
            Ok(())
        } else if a.knows(identity) {
            Err(StorageError::Unauthorized)
        } else {
            Err(StorageError::NotFound)
        },
    }
}

/// How the server names a caller.
pub struct IdentityPolicy {
    /// The identity of a caller that the transport did not name.
    pub default_username: String,
    /// Whether every caller is taken for the default identity.
    pub force_default_username: bool,
}

/// The identity under which a request is authorized. It is made by
/// [`IdentityPolicy::resolve`] alone, so no permission is checked for an
/// identity that the policy has not seen.
pub struct Identity {
    name: String,
}

impl View for Identity {
    type V = Seq<char>;

    closed spec fn view(&self) -> Seq<char> {
        self.name@
    }
}

impl IdentityPolicy {
    /// The identity that a request runs under: the default one where the
    /// policy forces it or the transport asserted none, else the asserted
    /// one.
    pub open spec fn resolved(self, asserted: Option<Seq<char>>) -> Seq<char> {
        if self.force_default_username || asserted is None {
            self.default_username@
        } else {
            asserted->0
        }
    }

    pub fn resolve(&self, asserted: Option<&str>) -> (r: Identity)
        ensures
            r@ == self.resolved(
                match asserted {
                    Some(a) => Some(a@),
                    None => None,
                },
            ),
    {
        match asserted {
            Some(a) => {
                if self.force_default_username {
                    Identity { name: self.default_username.clone() }
                } else {
                    Identity { name: String::from_str(a) }
                }
            },
            None => Identity { name: self.default_username.clone() },
        }
    }
}

impl Identity {
    pub fn name(&self) -> (r: &String)
        ensures
            r@ == self@,
    {
        &self.name
    }
}

impl Clone for Identity {
    fn clone(&self) -> (r: Self)
        ensures
            r@ == self@,
    {
        Identity { name: self.name.clone() }
    }
}

impl Grant {
    pub fn clone(&self) -> (r: Self)
        ensures
            r@ == self@,
    {
        Grant { identity: self.identity.clone(), right: self.right }
    }
}

impl AccessList {
    pub fn new(owner: String) -> (r: AccessList)
        ensures
            r@ == AccessView::owned_by(owner@),
    {
        let r = AccessList { owner, grants: Vec::new() };
        assert(r@.grants =~= Seq::empty());
        r
    }

    pub fn granted(&self, identity: &String, right: Right) -> (r: bool)
        ensures
            r == self@.granted(identity@, right),
    {
        let ghost grants = self@.grants;
        let mut i: usize = 0;
        while i < self.grants.len()
            invariant
                i <= self.grants.len(),
                grants == self@.grants,
                grants.len() == self.grants.len(),
                forall|j: int| 0 <= j < i ==> grants[j] != (identity@, right),
            decreases self.grants.len() - i,
        {
            let g = &self.grants[i];
            assert(grants[i as int] == g@);
            if g.right == right && g.identity == *identity {
                return true;
            }
            i += 1;
        }
        false
    }

    pub fn permits(&self, identity: &String, right: Right) -> (r: bool)
        ensures
            r == self@.permits(identity@, right),
    {
        self.owner == *identity || self.granted(identity, right)
    }

    /// Whether the identity has any right at all on the object.
    pub fn knows(&self, identity: &String) -> (r: bool)
        ensures
            r == self@.knows(identity@),
    {
        if self.owner == *identity {
            return true;
        }
        let ghost grants = self@.grants;
        let mut i: usize = 0;
        while i < self.grants.len()
            invariant
                i <= self.grants.len(),
                grants == self@.grants,
                grants.len() == self.grants.len(),
                forall|j: int| 0 <= j < i ==> grants[j].0 != identity@,
            decreases self.grants.len() - i,
        {
            let g = &self.grants[i];
            assert(grants[i as int] == g@);
            if g.identity == *identity {
                assert(self@.granted(identity@, g.right));
                return true;
            }
            i += 1;
        }
        false
    }

    /// Gives the right to the identity, unless it has it by a grant.
    pub fn grant(&mut self, identity: &String, right: Right)
        ensures
            final(self)@ == old(self)@.with_grant(identity@, right),
    {
        if !self.granted(identity, right) {
            let ghost before = self@.grants;
            self.grants.push(Grant { identity: identity.clone(), right });
            assert(self@.grants =~= before.push((identity@, right)));
        }
    }

    /// Takes the right back from the identity.
    pub fn revoke(&mut self, identity: &String, right: Right)
        ensures
            final(self)@ == old(self)@.without_grant(identity@, right),
    {
        let ghost before = self@.grants;
        let ghost keep = |g: (Seq<char>, Right)| g != (identity@, right);
        let mut kept: Vec<Grant> = Vec::new();
        let mut i: usize = 0;
        while i < self.grants.len()
            invariant
                i <= self.grants.len(),
                before == self@.grants,
                before.len() == self.grants.len(),
                keep == |g: (Seq<char>, Right)| g != (identity@, right),
                kept@.map_values(|g: Grant| g@) == before.take(i as int).filter(keep),
            decreases self.grants.len() - i,
        {
            let g = &self.grants[i];
            assert(before[i as int] == g@);
            let ghost shown = kept@.map_values(|g: Grant| g@);
            proof {
                assert(before.take(i as int + 1) =~= before.take(i as int).push(before[i as int]));
                lemma_filter_push(before.take(i as int), before[i as int], keep);
            }
            if !(g.right == right && g.identity == *identity) {
                kept.push(g.clone());
                assert(kept@.map_values(|g: Grant| g@) =~= shown.push(before[i as int]));
            }
            i += 1;
        }
        assert(before.take(i as int) =~= before);
        self.grants = kept;
    }

    pub fn clone(&self) -> (r: Self)
        ensures
            r@ == self@,
    {
        let mut grants: Vec<Grant> = Vec::new();
        let mut i: usize = 0;
        while i < self.grants.len()
            invariant
                i <= self.grants.len(),
                grants.len() == i,
                forall|j: int| 0 <= j < i ==> grants[j]@ == self.grants[j]@,
            decreases self.grants.len() - i,
        {
            grants.push(self.grants[i].clone());
            i += 1;
        }
        let r = AccessList { owner: self.owner.clone(), grants };
        assert(r@.grants =~= self@.grants);
        r
    }
}

/// Answers a request for a right on an object that may be absent.
pub fn authorize(access: Option<&AccessList>, identity: &Identity, right: Right) -> (r: Result<
    (),
    StorageError,
>)
    ensures
        r == decision(
            match access {
                Some(a) => Some(a@),
                None => None,
            },
            identity@,
            right,
        ),
{
    match access {
        None => Err(StorageError::NotFound),
        Some(a) => {
            if a.permits(identity.name(), right) {
                Ok(())
            } else if a.knows(identity.name()) {
                Err(StorageError::Unauthorized)
            } else {
                Err(StorageError::NotFound)
            }
        },
    }
}

} // verus!
