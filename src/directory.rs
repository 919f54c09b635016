//! Identity and enterprise records: the repository that authentication and
//! binding work against.  Wallet addresses are its natural keys.
use vstd::prelude::*;
use crate::session::Role;

verus! {

/// An identity record, keyed by its normalised wallet address.
pub struct Identity {
    pub id: String,
    pub wallet_address: String,
    pub role: Role,
    /// The enterprise this identity is bound to, if any.
    pub enterprise_id: Option<String>,
}

/// An enterprise record, keyed both by its id and by its wallet address.
pub struct Enterprise {
    pub id: String,
    pub name: String,
    pub wallet_address: String,
}

/// The text inside an optional string.
pub open spec fn opt_view(o: Option<String>) -> Option<Seq<char>> {
    match o {
        Some(s) => Some(s@),
        None => None,
    }
}

/// Identity and enterprise records.
pub struct Directory {
    users: Vec<Identity>,
    enterprises: Vec<Enterprise>,
}

impl Directory {
    /// The identity records, in insertion order.
    pub closed spec fn users(self) -> Seq<Identity> {
        self.users@
    }

    /// The enterprise records.
    pub closed spec fn enterprises(self) -> Seq<Enterprise> {
        self.enterprises@
    }

    pub open spec fn user_at(self, i: int, a: Seq<char>) -> bool {
        0 <= i < self.users().len() && self.users()[i].wallet_address@ == a
    }

    pub open spec fn has_user(self, a: Seq<char>) -> bool {
        exists|i: int| self.user_at(i, a)
    }

    /// The identity whose address is `a` (meaningful when `has_user(a)`).
    pub open spec fn user(self, a: Seq<char>) -> Identity {
        self.users()[choose|i: int| self.user_at(i, a)]
    }

    /// The enterprise id that the identity `a` is bound to.
    pub open spec fn binding(self, a: Seq<char>) -> Option<Seq<char>> {
        opt_view(self.user(a).enterprise_id)
    }

    pub open spec fn enterprise_id_at(self, i: int, id: Seq<char>) -> bool {
        0 <= i < self.enterprises().len() && self.enterprises()[i].id@ == id
    }

    pub open spec fn has_enterprise_id(self, id: Seq<char>) -> bool {
        exists|i: int| self.enterprise_id_at(i, id)
    }

    /// The enterprise whose id is `id` (meaningful when `has_enterprise_id(id)`).
    pub open spec fn enterprise_by_id(self, id: Seq<char>) -> Enterprise {
        self.enterprises()[choose|i: int| self.enterprise_id_at(i, id)]
    }

    pub open spec fn enterprise_address_at(self, i: int, a: Seq<char>) -> bool {
        0 <= i < self.enterprises().len() && self.enterprises()[i].wallet_address@ == a
    }

    pub open spec fn has_enterprise_address(self, a: Seq<char>) -> bool {
        exists|i: int| self.enterprise_address_at(i, a)
    }

    /// The enterprise whose address is `a` (meaningful when `has_enterprise_address(a)`).
    pub open spec fn enterprise_by_address(self, a: Seq<char>) -> Enterprise {
        self.enterprises()[choose|i: int| self.enterprise_address_at(i, a)]
    }

    /// Keys are unique: one identity per address, one enterprise per id and
    /// per address.
    pub open spec fn wf(self) -> bool {
        &&& forall|i: int, j: int|
            0 <= i < self.users().len() && 0 <= j < self.users().len()
                && #[trigger] self.users()[i].wallet_address@ == #[trigger] self.users()[j].wallet_address@
                ==> i == j
        &&& forall|i: int, j: int|
            0 <= i < self.enterprises().len() && 0 <= j < self.enterprises().len()
                && #[trigger] self.enterprises()[i].id@ == #[trigger] self.enterprises()[j].id@
                ==> i == j
        &&& forall|i: int, j: int|
            0 <= i < self.enterprises().len() && 0 <= j < self.enterprises().len()
                && #[trigger] self.enterprises()[i].wallet_address@
                == #[trigger] self.enterprises()[j].wallet_address@
                ==> i == j
    }

    /// An empty directory.
    pub fn new() -> (r: Directory)
        ensures
            r.wf(),
            r.users().len() == 0,
            r.enterprises().len() == 0,
    {
        Directory { users: Vec::new(), enterprises: Vec::new() }
    }

    /// The index of the identity with address `a`.
    pub fn find_user(&self, a: &String) -> (r: Option<usize>)
        ensures
            match r {
                Some(i) => self.user_at(i as int, a@),
                None => !self.has_user(a@),
            },
    {
        let mut i: usize = 0;
        while i < self.users.len()
            invariant
                0 <= i <= self.users@.len(),
                forall|k: int| 0 <= k < i ==> !#[trigger] self.user_at(k, a@),
            decreases self.users@.len() - i,
        {
            if self.users[i].wallet_address == *a {
                return Some(i);
            }
            i = i + 1;
        }
        None
    }

    /// The index of the enterprise with id `id`.
    pub fn find_enterprise_by_id(&self, id: &String) -> (r: Option<usize>)
        ensures
            match r {
                Some(i) => self.enterprise_id_at(i as int, id@),
                None => !self.has_enterprise_id(id@),
            },
    {
        let mut i: usize = 0;
        while i < self.enterprises.len()
            invariant
                0 <= i <= self.enterprises@.len(),
                forall|k: int| 0 <= k < i ==> !#[trigger] self.enterprise_id_at(k, id@),
            decreases self.enterprises@.len() - i,
        {
            if self.enterprises[i].id == *id {
                return Some(i);
            }
            i = i + 1;
        }
        None
    }

    /// The index of the enterprise with address `a`.
    pub fn find_enterprise_by_address(&self, a: &String) -> (r: Option<usize>)
        ensures
            match r {
                Some(i) => self.enterprise_address_at(i as int, a@),
                None => !self.has_enterprise_address(a@),
            },
    {
        let mut i: usize = 0;
        while i < self.enterprises.len()
            invariant
                0 <= i <= self.enterprises@.len(),
                forall|k: int| 0 <= k < i ==> !#[trigger] self.enterprise_address_at(k, a@),
            decreases self.enterprises@.len() - i,
        {
            if self.enterprises[i].wallet_address == *a {
                return Some(i);
            }
            i = i + 1;
        }
        None
    }

    /// The identity with address `a`, created with the default role and no
    /// binding when there is none yet.  Returns its index.
    pub fn resolve_or_create(&mut self, a: &String) -> (r: usize)
        requires
            old(self).wf(),
        ensures
            final(self).wf(),
            final(self).user_at(r as int, a@),
            final(self).enterprises() == old(self).enterprises(),
            old(self).has_user(a@) ==> final(self).users() == old(self).users(),
            !old(self).has_user(a@) ==> {
                &&& r == old(self).users().len()
                &&& final(self).users().drop_last() == old(self).users()
                &&& final(self).users().last().role == Role::Investor
                &&& final(self).users().last().enterprise_id is None
            },
    {
        match self.find_user(a) {
            Some(i) => i,
            None => {
                let user = Identity {
                    id: crate::nonce::fresh_id(),
                    wallet_address: a.clone(),
                    role: Role::Investor,
                    enterprise_id: None,
                };
                self.users.push(user);
                proof {
                    assert(self.users@.drop_last() =~= old(self).users@);
                    assert(self.enterprises() == old(self).enterprises());
                    assert(self.users()[old(self).users().len() as int].wallet_address@ == a@);
                    assert forall|i: int, j: int|
                        0 <= i < self.users().len() && 0 <= j < self.users().len()
                            && #[trigger] self.users()[i].wallet_address@ == #[trigger] self.users()[j].wallet_address@
                            implies i == j by {
                        let n = old(self).users().len() as int;
                        if i < n && j == n {
                            assert(old(self).user_at(i, a@));
                        } else if j < n && i == n {
                            assert(old(self).user_at(j, a@));
                        }
                    }
                }
                self.users.len() - 1
            },
        }
    }

    /// Sets the enterprise of the identity with address `a`.  Returns whether
    /// such an identity exists; nothing else changes.
    pub fn set_enterprise(&mut self, a: &String, enterprise_id: &String) -> (r: bool)
        requires
            old(self).wf(),
        ensures
            final(self).wf(),
            r == old(self).has_user(a@),
            !r ==> *final(self) == *old(self),
            final(self).enterprises() == old(self).enterprises(),
            final(self).users().len() == old(self).users().len(),
            forall|i: int| 0 <= i < old(self).users().len() ==> {
                let u0 = #[trigger] old(self).users()[i];
                let u1 = final(self).users()[i];
                &&& u1.id == u0.id
                &&& u1.wallet_address == u0.wallet_address
                &&& u1.role == u0.role
                &&& u0.wallet_address@ != a@ ==> u1 == u0
                &&& u0.wallet_address@ == a@ ==> opt_view(u1.enterprise_id) == Some(enterprise_id@)
            },
    {
        match self.find_user(a) {
            Some(i) => {
                let user = Identity {
                    id: self.users[i].id.clone(),
                    wallet_address: self.users[i].wallet_address.clone(),
                    role: self.users[i].role,
                    enterprise_id: Some(enterprise_id.clone()),
                };
                self.users.set(i, user);
                proof {
                    assert(self.enterprises() == old(self).enterprises());
                    assert forall|k: int| 0 <= k < self.users().len() implies
                        #[trigger] self.users()[k].wallet_address@ == old(self).users()[k].wallet_address@ by {
                    }
                    assert forall|k: int| 0 <= k < old(self).users().len() && k != i implies
                        #[trigger] old(self).users()[k].wallet_address@ != a@ by {
                        if old(self).users()[k].wallet_address@ == a@ {
                            assert(old(self).users()[i as int].wallet_address@ == old(self).users()[k].wallet_address@);
                        }
                    }
                    assert(self.users()[i as int].id == old(self).users()[i as int].id);
                    assert(self.users()[i as int].wallet_address == old(self).users()[i as int].wallet_address);
                    assert(opt_view(self.users()[i as int].enterprise_id) == Some(enterprise_id@));
                }
                true
            },
            None => {
                proof {
                    assert forall|k: int| 0 <= k < self.users().len() implies
                        #[trigger] self.users()[k].wallet_address@ != a@ by {
                        assert(!self.user_at(k, a@));
                    }
                }
                false
            },
        }
    }

    /// Adds an enterprise under a fresh id.  Returns the id, or `None` when
    /// the address is already registered or the fresh id is already taken.
    pub fn register_enterprise(&mut self, name: String, wallet_address: String) -> (r: Option<String>)
        requires
            old(self).wf(),
        ensures
            final(self).wf(),
            final(self).users() == old(self).users(),
            old(self).has_enterprise_address(wallet_address@) ==> r is None,
            r is None ==> final(self).enterprises() == old(self).enterprises(),
            r is Some ==> {
                &&& !old(self).has_enterprise_address(wallet_address@)
                &&& !old(self).has_enterprise_id(r->Some_0@)
                &&& final(self).enterprises().drop_last() == old(self).enterprises()
                &&& final(self).enterprises().last().id@ == r->Some_0@
                &&& final(self).enterprises().last().name@ == name@
                &&& final(self).enterprises().last().wallet_address@ == wallet_address@
            },
    {
        if self.find_enterprise_by_address(&wallet_address).is_some() {
            return None;
        }
        let id = crate::nonce::fresh_id();
        if self.find_enterprise_by_id(&id).is_some() {
            return None;
        }
        let e = Enterprise { id: id.clone(), name, wallet_address };
        self.enterprises.push(e);
        proof {
            assert(self.enterprises@.drop_last() =~= old(self).enterprises@);
            let n = old(self).enterprises().len() as int;
            assert forall|i: int, j: int|
                0 <= i < self.enterprises().len() && 0 <= j < self.enterprises().len()
                    && #[trigger] self.enterprises()[i].id@ == #[trigger] self.enterprises()[j].id@
                    implies i == j by {
                if i < n && j == n {
                    assert(old(self).enterprise_id_at(i, id@));
                } else if j < n && i == n {
                    assert(old(self).enterprise_id_at(j, id@));
                }
            }
            assert forall|i: int, j: int|
                0 <= i < self.enterprises().len() && 0 <= j < self.enterprises().len()
                    && #[trigger] self.enterprises()[i].wallet_address@
                    == #[trigger] self.enterprises()[j].wallet_address@
                    implies i == j by {
                if i < n && j == n {
                    assert(old(self).enterprise_address_at(i, self.enterprises()[n].wallet_address@));
                } else if j < n && i == n {
                    assert(old(self).enterprise_address_at(j, self.enterprises()[n].wallet_address@));
                }
            }
        }
        Some(id)
    }

    /// Deletes the enterprise with id `id`; bindings that point to it are
    /// left as they are.  Returns whether it existed.
    pub fn remove_enterprise(&mut self, id: &String) -> (r: bool)
        requires
            old(self).wf(),
        ensures
            final(self).wf(),
            r == old(self).has_enterprise_id(id@),
            final(self).users() == old(self).users(),
            !final(self).has_enterprise_id(id@),
            forall|x: Seq<char>| x != id@ ==> (#[trigger] final(self).has_enterprise_id(x) == old(self).has_enterprise_id(x)),
    {
        match self.find_enterprise_by_id(id) {
            Some(i) => {
                let _gone = self.enterprises.remove(i);
                proof {
                    let o = old(self).enterprises();
                    let f = self.enterprises();
                    assert forall|k: int| 0 <= k < f.len() implies
                        #[trigger] f[k] == o[if k < i { k } else { k + 1 }] by {
                    }
                    assert forall|x: Seq<char>| x != id@ implies
                        (#[trigger] self.has_enterprise_id(x) == old(self).has_enterprise_id(x)) by {
                        if old(self).has_enterprise_id(x) {
                            let k = choose|k: int| old(self).enterprise_id_at(k, x);
                            assert(k != i);
                            if k < i {
                                assert(self.enterprise_id_at(k, x));
                            } else {
                                assert(self.enterprise_id_at(k - 1, x));
                            }
                        }
                        if self.has_enterprise_id(x) {
                            let k = choose|k: int| self.enterprise_id_at(k, x);
                            if k < i {
                                assert(old(self).enterprise_id_at(k, x));
                            } else {
                                assert(old(self).enterprise_id_at(k + 1, x));
                            }
                        }
                    }
                    if self.has_enterprise_id(id@) {
                        let k = choose|k: int| self.enterprise_id_at(k, id@);
                        if k < i {
                            assert(o[k].id@ == o[i as int].id@);
                        } else {
                            assert(o[k + 1].id@ == o[i as int].id@);
                        }
                    }
                    assert forall|a: int, b: int|
                        0 <= a < f.len() && 0 <= b < f.len()
                            && #[trigger] f[a].id@ == #[trigger] f[b].id@
                            implies a == b by {
                        let a1 = if a < i { a } else { a + 1 };
                        let b1 = if b < i { b } else { b + 1 };
                        assert(o[a1].id@ == o[b1].id@);
                    }
                    assert forall|a: int, b: int|
                        0 <= a < f.len() && 0 <= b < f.len()
                            && #[trigger] f[a].wallet_address@ == #[trigger] f[b].wallet_address@
                            implies a == b by {
                        let a1 = if a < i { a } else { a + 1 };
                        let b1 = if b < i { b } else { b + 1 };
                        assert(o[a1].wallet_address@ == o[b1].wallet_address@);
                    }
                }
                true
            },
            None => false,
        }
    }

    /// The identity record at index `i`.
    pub fn user_record(&self, i: usize) -> (r: &Identity)
        requires
            i < self.users().len(),
        ensures
            *r == self.users()[i as int],
    {
        &self.users[i]
    }

    /// The enterprise record at index `i`.
    pub fn enterprise_record(&self, i: usize) -> (r: &Enterprise)
        requires
            i < self.enterprises().len(),
        ensures
            *r == self.enterprises()[i as int],
    {
        &self.enterprises[i]
    }

    /// Under unique keys, the identity found at an index is the one `user` names.
    pub proof fn lemma_user_unique(self, i: int, a: Seq<char>)
        requires
            self.wf(),
            self.user_at(i, a),
        ensures
            self.has_user(a),
            self.user(a) == self.users()[i],
    {
        let j = choose|j: int| self.user_at(j, a);
        assert(self.users()[i].wallet_address@ == self.users()[j].wallet_address@);
    }

    /// Under unique keys, the enterprise found at an index is the one
    /// `enterprise_by_id` names.
    pub proof fn lemma_enterprise_id_unique(self, i: int, id: Seq<char>)
        requires
            self.wf(),
            self.enterprise_id_at(i, id),
        ensures
            self.has_enterprise_id(id),
            self.enterprise_by_id(id) == self.enterprises()[i],
    {
        let j = choose|j: int| self.enterprise_id_at(j, id);
        assert(self.enterprises()[i].id@ == self.enterprises()[j].id@);
    }

    /// Under unique keys, the enterprise found at an index is the one
    /// `enterprise_by_address` names.
    pub proof fn lemma_enterprise_address_unique(self, i: int, a: Seq<char>)
        requires
            self.wf(),
            self.enterprise_address_at(i, a),
        ensures
            self.has_enterprise_address(a),
            self.enterprise_by_address(a) == self.enterprises()[i],
    {
        let j = choose|j: int| self.enterprise_address_at(j, a);
        assert(self.enterprises()[i].wallet_address@ == self.enterprises()[j].wallet_address@);
    }
}

} // verus!
