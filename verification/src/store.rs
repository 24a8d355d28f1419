//! In-memory mapping of account name to shared secret.
//!
//! The store keeps its entries in a sequence with pairwise-distinct
//! names, so the listing order is stable for a whole session; its
//! abstract value is the map from names to secrets.  The store itself
//! performs no I/O: a caller loads it from persisted state and writes it
//! back after a mutation.

use vstd::prelude::*;

verus! {

/// One stored account: a unique name and its Base32 secret text.
pub struct Account {
    pub name: String,
    pub secret: String,
}

/// The mapping of account names to secrets.
pub struct AccountStore {
    pub accounts: Vec<Account>,
}

impl AccountStore {
    pub open spec fn len_spec(self) -> int {
        self.accounts@.len() as int
    }

    pub open spec fn name_at(self, i: int) -> Seq<char> {
        self.accounts@[i].name@
    }

    pub open spec fn secret_at(self, i: int) -> Seq<char> {
        self.accounts@[i].secret@
    }

    /// The listing order: account names, first added first.
    pub open spec fn names(self) -> Seq<Seq<char>> {
        Seq::new(self.accounts@.len(), |i: int| self.name_at(i))
    }

    /// Well-formed: no name occurs twice.
    pub open spec fn wf(self) -> bool {
        forall|i: int, j: int|
            0 <= i < j < self.len_spec() ==> self.name_at(i) != self.name_at(j)
    }

    pub open spec fn contains_name(self, name: Seq<char>) -> bool {
        exists|i: int| 0 <= i < self.len_spec() && self.name_at(i) == name
    }

    pub open spec fn index_of(self, name: Seq<char>) -> int {
        choose|i: int| 0 <= i < self.len_spec() && self.name_at(i) == name
    }

    /// The abstract value of the store: a map from names to secrets.
    pub open spec fn as_map(self) -> Map<Seq<char>, Seq<char>> {
        Map::new(
            |n: Seq<char>| self.contains_name(n),
            |n: Seq<char>| self.secret_at(self.index_of(n)),
        )
    }

    /// In a well-formed store the entry at a known position is the one
    /// the map associates with its name.
    pub proof fn lemma_map_at(self, i: int)
        requires
            self.wf(),
            0 <= i < self.len_spec(),
        ensures
            self.contains_name(self.name_at(i)),
            self.as_map()[self.name_at(i)] == self.secret_at(i),
    {
        let n = self.name_at(i);
        assert(self.contains_name(n));
        let j = self.index_of(n);
        assert(0 <= j < self.len_spec() && self.name_at(j) == n);
        if i != j {
            if i < j {
                assert(self.name_at(i) != self.name_at(j));
            } else {
                assert(self.name_at(j) != self.name_at(i));
            }
        }
    }

    /// An empty store.
    pub fn new() -> (r: AccountStore)
        ensures
            r.wf(),
            r.len_spec() == 0,
            r.as_map() == Map::<Seq<char>, Seq<char>>::empty(),
    {
        let r = AccountStore { accounts: Vec::new() };
        proof {
            assert(r.as_map() =~= Map::<Seq<char>, Seq<char>>::empty());
        }
        r
    }

    pub fn len(&self) -> (r: usize)
        ensures
            r == self.len_spec(),
    {
        self.accounts.len()
    }

    pub fn is_empty(&self) -> (r: bool)
        ensures
            r <==> self.len_spec() == 0,
    {
        self.accounts.is_empty()
    }

    /// Position of the account called `name`, if one exists.
    fn position_of(&self, name: &String) -> (r: Option<usize>)
        ensures
            match r {
                Some(i) => 0 <= i < self.len_spec() && self.name_at(i as int) == name@,
                None => !self.contains_name(name@),
            },
    {
        let n = self.accounts.len();
        let mut i: usize = 0;
        while i < n
            invariant
                i <= n,
                n == self.len_spec(),
                forall|t: int| 0 <= t < i ==> self.name_at(t) != name@,
            decreases n - i,
        {
            let a = &self.accounts[i];
            if a.name == *name {
                return Some(i);
            }
            i += 1;
        }
        None
    }

    /// Insert-or-replace: the new secret is bound to `name`, whatever
    /// was there before.  A replaced account keeps its position in the
    /// listing order; a new one goes to the end.
    pub fn add(&mut self, name: String, secret: String)
        requires
            old(self).wf(),
        ensures
            final(self).wf(),
            final(self).as_map() == old(self).as_map().insert(name@, secret@),
            final(self).contains_name(name@),
            old(self).contains_name(name@) ==> final(self).names() == old(self).names(),
            !old(self).contains_name(name@) ==> final(self).names() == old(self).names().push(
                name@,
            ),
    {
        let ghost pre = *self;
        let ghost gname = name@;
        let ghost gsecret = secret@;
        match self.position_of(&name) {
            Some(i) => {
                self.accounts[i] = Account { name, secret };
                proof {
                    assert forall|t: int|
                        0 <= t < self.len_spec() implies #[trigger] self.name_at(t)
                        == pre.name_at(t) by {
                        if t == i {
                            assert(pre.name_at(t) == gname);
                        }
                    }
                    assert(self.names() =~= pre.names());
                    assert(self.wf());
                    assert(self.name_at(i as int) == gname);
                    assert(self.contains_name(gname));
                    self.lemma_insert_map(pre, i as int, gname, gsecret);
                }
            },
            None => {
                self.accounts.push(Account { name, secret });
                proof {
                    assert(self.names() =~= pre.names().push(gname));
                    assert(self.name_at(self.len_spec() - 1) == gname);
                    assert(self.contains_name(gname));
                    assert forall|a: int, b: int|
                        0 <= a < b < self.len_spec() implies self.name_at(a) != self.name_at(
                        b,
                    ) by {
                        assert(self.name_at(a) == pre.name_at(a));
                        if b == self.len_spec() - 1 {
                            assert(self.name_at(b) == gname);
                            if pre.name_at(a) == gname {
                                assert(pre.contains_name(gname));
                                assert(false);
                            }
                        } else {
                            assert(self.name_at(b) == pre.name_at(b));
                        }
                    }
                    self.lemma_insert_map(pre, pre.len_spec(), gname, gsecret);
                }
            },
        }
    }

    /// After binding `gname` to `gsecret` at position `i` (every other
    /// entry unchanged), the abstract map is the old one with that key
    /// inserted.
    proof fn lemma_insert_map(self, pre: AccountStore, i: int, gname: Seq<char>, gsecret: Seq<char>)
        requires
            self.wf(),
            pre.wf(),
            0 <= i < self.len_spec(),
            pre.len_spec() <= self.len_spec() <= pre.len_spec() + 1,
            self.name_at(i) == gname,
            self.secret_at(i) == gsecret,
            i < pre.len_spec() ==> pre.name_at(i) == gname,
            forall|t: int|
                0 <= t < self.len_spec() && t != i ==> t < pre.len_spec()
                    && self.name_at(t) == pre.name_at(t) && self.secret_at(t) == pre.secret_at(t),
        ensures
            self.as_map() == pre.as_map().insert(gname, gsecret),
    {
        let m1 = self.as_map();
        let m2 = pre.as_map().insert(gname, gsecret);
        assert forall|n: Seq<char>| m1.dom().contains(n) implies m2.dom().contains(n) by {
            let w = choose|t: int| 0 <= t < self.len_spec() && self.name_at(t) == n;
            if w != i {
                assert(pre.name_at(w) == n);
            }
        }
        assert forall|n: Seq<char>| m2.dom().contains(n) implies m1.dom().contains(n) by {
            if n == gname {
                assert(self.name_at(i) == n);
                assert(self.contains_name(n));
            } else {
                let w = choose|t: int| 0 <= t < pre.len_spec() && pre.name_at(t) == n;
                assert(w != i);
                assert(self.name_at(w) == n);
                assert(self.contains_name(n));
            }
        }
        assert forall|n: Seq<char>| m1.dom().contains(n) implies m1[n] == m2[n] by {
            let w = choose|t: int| 0 <= t < self.len_spec() && self.name_at(t) == n;
            self.lemma_map_at(w);
            if n == gname {
                if w != i {
                    assert(self.name_at(i) != self.name_at(w) || i == w);
                    assert(false);
                }
                assert(m1[n] == gsecret);
            } else {
                assert(w != i);
                assert(pre.name_at(w) == n);
                pre.lemma_map_at(w);
                assert(m1[n] == self.secret_at(w));
                assert(self.secret_at(w) == pre.secret_at(w));
                assert(pre.secret_at(w) == pre.as_map()[n]);
            }
        }
        assert(m1 =~= m2);
    }

    /// Remove the account called `name`.  Returns whether one existed;
    /// when none does the store is left exactly as it was.
    pub fn remove(&mut self, name: &String) -> (r: bool)
        requires
            old(self).wf(),
        ensures
            final(self).wf(),
            r == old(self).contains_name(name@),
            final(self).as_map() == old(self).as_map().remove(name@),
            !r ==> *final(self) == *old(self),
            final(self).len_spec() == old(self).len_spec() - (if r { 1int } else { 0 }),
    {
        let ghost pre = *self;
        match self.position_of(name) {
            Some(i) => {
                self.accounts.remove(i);
                proof {
                    assert forall|a: int, b: int|
                        0 <= a < b < self.len_spec() implies self.name_at(a) != self.name_at(
                        b,
                    ) by {
                        let pa: int = if a < i { a } else { a + 1 };
                        let pb: int = if b < i { b } else { b + 1 };
                        assert(self.name_at(a) == pre.name_at(pa));
                        assert(self.name_at(b) == pre.name_at(pb));
                    }
                    let m1 = self.as_map();
                    let m2 = pre.as_map().remove(name@);
                    assert forall|n: Seq<char>| m1.dom().contains(n) implies m2.dom().contains(
                        n,
                    ) by {
                        let w = choose|t: int| 0 <= t < self.len_spec() && self.name_at(t) == n;
                        let pw: int = if w < i { w } else { w + 1 };
                        assert(pre.name_at(pw) == n);
                        if n == name@ {
                            assert(pre.name_at(i as int) == n && pre.name_at(pw) == n && pw != i);
                            assert(false);
                        }
                    }
                    assert forall|n: Seq<char>| m2.dom().contains(n) implies m1.dom().contains(
                        n,
                    ) by {
                        let w = choose|t: int| 0 <= t < pre.len_spec() && pre.name_at(t) == n;
                        assert(w != i);
                        let sw: int = if w < i { w } else { w - 1 };
                        assert(self.name_at(sw) == pre.name_at(w));
                    }
                    assert forall|n: Seq<char>| m1.dom().contains(n) implies m1[n] == m2[n] by {
                        let w = choose|t: int| 0 <= t < self.len_spec() && self.name_at(t) == n;
                        self.lemma_map_at(w);
                        let pw: int = if w < i { w } else { w + 1 };
                        assert(pre.name_at(pw) == n);
                        pre.lemma_map_at(pw);
                        assert(m1[n] == self.secret_at(w));
                        assert(self.secret_at(w) == pre.secret_at(pw));
                        assert(pre.secret_at(pw) == pre.as_map()[n]);
                    }
                    assert(m1 =~= m2);
                }
                true
            },
            None => {
                proof {
                    assert(self.as_map() =~= pre.as_map().remove(name@));
                }
                false
            },
        }
    }

    /// The secret of the account called `name`, if one exists.
    pub fn get<'a>(&'a self, name: &String) -> (r: Option<&'a String>)
        requires
            self.wf(),
        ensures
            match r {
                Some(s) => self.contains_name(name@) && s@ == self.as_map()[name@],
                None => !self.contains_name(name@),
            },
    {
        match self.position_of(name) {
            Some(i) => {
                proof {
                    self.lemma_map_at(i as int);
                }
                Some(&self.accounts[i].secret)
            },
            None => None,
        }
    }

    /// Adding a binding and then looking the same name up yields the
    /// secret just added, whatever binding the name had before: `add`
    /// leaves the store's map at `old.insert(name, secret)`, and that
    /// map sends `name` to `secret`.
    pub proof fn lemma_add_then_get(
        pre: AccountStore,
        post: AccountStore,
        name: Seq<char>,
        secret: Seq<char>,
    )
        requires
            post.as_map() == pre.as_map().insert(name, secret),
        ensures
            post.as_map().dom().contains(name),
            post.as_map()[name] == secret,
            post.contains_name(name),
    {
        assert(post.as_map().dom() =~= Set::new(|n: Seq<char>| post.contains_name(n)));
    }

    /// The account names, in listing order.
    pub fn list(&self) -> (r: Vec<String>)
        ensures
            r@.len() == self.len_spec(),
            forall|i: int| 0 <= i < r@.len() ==> #[trigger] r@[i]@ == self.name_at(i),
    {
        let n = self.accounts.len();
        let mut out: Vec<String> = Vec::new();
        let mut i: usize = 0;
        while i < n
            invariant
                i <= n,
                n == self.len_spec(),
                out@.len() == i,
                forall|t: int| 0 <= t < i ==> #[trigger] out@[t]@ == self.name_at(t),
            decreases n - i,
        {
            let a = &self.accounts[i];
            out.push(a.name.clone());
            i += 1;
        }
        out
    }
}

} // verus!
