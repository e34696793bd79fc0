//! The session registry: the one mapping from connection identity to active
//! session, mutated only by the hub.

use vstd::prelude::*;
use crate::player::{Player, PlayerV};

verus! {

/// A display name is in use by some active session.
pub open spec fn map_has_name(m: Map<u128, PlayerV>, name: Seq<char>) -> bool {
    exists|k: u128| #[trigger] m.contains_key(k) && m[k].name == name
}

/// The index in the old entries that position `x` held after index `i`
/// was removed.
pub open spec fn shifted(x: int, i: int) -> int {
    if x < i {
        x
    } else {
        x + 1
    }
}

/// Connection identity to session, backed by a vector of distinct keys.
pub struct Registry {
    entries: Vec<(u128, Player)>,
    model: Ghost<Map<u128, PlayerV>>,
}

impl View for Registry {
    type V = Map<u128, PlayerV>;

    closed spec fn view(&self) -> Map<u128, PlayerV> {
        self.model@
    }
}

impl Registry {
    /// The entries hold distinct keys and agree with the model map.
    pub closed spec fn inv(&self) -> bool {
        &&& forall|i: int, j: int|
            0 <= i < j < self.entries@.len() ==> (#[trigger] self.entries@[i].0) != (
            #[trigger] self.entries@[j].0)
        &&& forall|i: int|
            0 <= i < self.entries@.len() ==> self.model@.contains_key(
                #[trigger] self.entries@[i].0,
            ) && self.model@[self.entries@[i].0] == self.entries@[i].1@
        &&& forall|k: u128|
            #[trigger] self.model@.contains_key(k) ==> exists|i: int|
                0 <= i < self.entries@.len() && (#[trigger] self.entries@[i].0) == k
    }

    /// An empty registry.
    pub fn new() -> (r: Self)
        ensures
            r.inv(),
            r@ == Map::<u128, PlayerV>::empty(),
    {
        Registry { entries: Vec::new(), model: Ghost(Map::empty()) }
    }

    /// The index holding a connection's entry, if there is one.
    fn find(&self, k: u128) -> (r: Option<usize>)
        requires
            self.inv(),
        ensures
            match r {
                Some(i) => i < self.entries@.len() && self.entries@[i as int].0 == k
                    && self@.contains_key(k),
                None => !self@.contains_key(k),
            },
    {
        let n = self.entries.len();
        let mut i: usize = 0;
        while i < n
            invariant
                self.inv(),
                0 <= i <= n,
                n == self.entries@.len(),
                forall|j: int| 0 <= j < i ==> (#[trigger] self.entries@[j].0) != k,
            decreases n - i,
        {
            if self.entries[i].0 == k {
                return Some(i);
            }
            i = i + 1;
        }
        None
    }

    /// Whether a connection has a bound session.
    pub fn contains_client(&self, k: u128) -> (b: bool)
        requires
            self.inv(),
        ensures
            b == self@.contains_key(k),
    {
        self.find(k).is_some()
    }

    /// Whether some active session uses this display name.
    pub fn has_name(&self, name: &str) -> (b: bool)
        requires
            self.inv(),
        ensures
            b == map_has_name(self@, name@),
    {
        let n = self.entries.len();
        let mut i: usize = 0;
        while i < n
            invariant
                self.inv(),
                0 <= i <= n,
                n == self.entries@.len(),
                forall|j: int| 0 <= j < i ==> (#[trigger] self.entries@[j].1@.name) != name@,
            decreases n - i,
        {
            if str_eq(self.entries[i].1.name.as_str(), name) {
                proof {
                    let k = self.entries@[i as int].0;
                    assert(self@.contains_key(k) && self@[k].name == name@);
                }
                return true;
            }
            i = i + 1;
        }
        proof {
            if map_has_name(self@, name@) {
                let k = choose|k: u128| #[trigger] self@.contains_key(k) && self@[k].name == name@;
                let j = choose|j: int|
                    0 <= j < self.entries@.len() && (#[trigger] self.entries@[j].0) == k;
                assert(self.entries@[j].1@.name == name@);
            }
        }
        false
    }

    /// Bind a session to a connection, replacing any session already bound
    /// to it.
    pub fn insert(&mut self, k: u128, p: Player)
        requires
            old(self).inv(),
        ensures
            final(self).inv(),
            final(self)@ == old(self)@.insert(k, p@),
    {
        let found = self.find(k);
        let ghost pre = self.entries@;
        match found {
            Some(i) => {
                let _replaced = self.entries.remove(i);
                self.entries.push((k, p));
                proof {
                    self.model@ = self.model@.insert(k, p@);
                    let post = self.entries@;
                    assert(post.len() == pre.len());
                    assert forall|x: int| 0 <= x < post.len() - 1 implies post[x] == pre[shifted(x, i as int)] by {}
                    assert(post[post.len() - 1] == (k, p));
                    self.prove_inv_after_shift(pre, i as int, k, p);
                }
            },
            None => {
                self.entries.push((k, p));
                proof {
                    self.model@ = self.model@.insert(k, p@);
                    let post = self.entries@;
                    assert forall|x: int, y: int| 0 <= x < y < post.len() implies (
                    #[trigger] post[x].0) != (#[trigger] post[y].0) by {
                        if y < post.len() - 1 {
                            assert(pre[x].0 != pre[y].0);
                        } else {
                            // the new key was absent, so no earlier entry holds it
                            assert(post[x] == pre[x]);
                        }
                    }
                    assert forall|x: int| 0 <= x < post.len() implies self.model@.contains_key(
                        #[trigger] post[x].0,
                    ) && self.model@[post[x].0] == post[x].1@ by {
                        if x < post.len() - 1 {
                            assert(post[x] == pre[x]);
                        }
                    }
                    assert forall|k2: u128| #[trigger]
                        self.model@.contains_key(k2) implies exists|i2: int|
                        0 <= i2 < post.len() && (#[trigger] post[i2].0) == k2 by {
                        if k2 == k {
                            assert(post[post.len() - 1].0 == k2);
                        } else {
                            let i2 = choose|i2: int|
                                0 <= i2 < pre.len() && (#[trigger] pre[i2].0) == k2;
                            assert(post[i2].0 == k2);
                        }
                    }
                }
            },
        }
    }

    /// Re-establish the invariant after removing index `i` (which held key
    /// `k`) and pushing a fresh entry `(k, p)` at the back.
    proof fn prove_inv_after_shift(&self, pre: Seq<(u128, Player)>, i: int, k: u128, p: Player)
        requires
            0 <= i < pre.len(),
            pre[i].0 == k,
            self.entries@.len() == pre.len(),
            forall|x: int|
                0 <= x < pre.len() - 1 ==> #[trigger] self.entries@[x] == pre[shifted(x, i)],
            self.entries@[pre.len() - 1] == (k, p),
            forall|x: int, y: int|
                0 <= x < y < pre.len() ==> (#[trigger] pre[x].0) != (#[trigger] pre[y].0),
            forall|x: int|
                0 <= x < pre.len() ==> self.model@.contains_key(#[trigger] pre[x].0) || pre[x].0
                    == k,
            forall|x: int|
                0 <= x < pre.len() && pre[x].0 != k ==> self.model@.contains_key(
                    #[trigger] pre[x].0,
                ) && self.model@[pre[x].0] == pre[x].1@,
            self.model@.contains_key(k) && self.model@[k] == p@,
            forall|k2: u128|
                #[trigger] self.model@.contains_key(k2) ==> k2 == k || exists|x: int|
                    0 <= x < pre.len() && (#[trigger] pre[x].0) == k2,
        ensures
            self.inv(),
    {
        let post = self.entries@;
        let n = pre.len();
        assert forall|x: int, y: int| 0 <= x < y < n implies (#[trigger] post[x].0) != (
        #[trigger] post[y].0) by {
            if y < n - 1 {
            } else {
                // the last entry holds k, which index i alone held before
                let xo = if x < i {
                    x
                } else {
                    x + 1
                };
                assert(post[x] == pre[xo]);
                if xo != i {
                    assert(pre[xo].0 != pre[i].0);
                }
            }
        }
        assert forall|x: int| 0 <= x < n implies self.model@.contains_key(#[trigger] post[x].0)
            && self.model@[post[x].0] == post[x].1@ by {
            if x < n - 1 {
                let xo = if x < i {
                    x
                } else {
                    x + 1
                };
                assert(post[x] == pre[xo]);
                assert(pre[xo].0 != pre[i].0);
            }
        }
        assert forall|k2: u128| #[trigger] self.model@.contains_key(k2) implies exists|x: int|
            0 <= x < n && (#[trigger] post[x].0) == k2 by {
            if k2 == k {
                assert(post[n - 1].0 == k2);
            } else {
                let xo = choose|xo: int| 0 <= xo < n && (#[trigger] pre[xo].0) == k2;
                let x = if xo < i {
                    xo
                } else {
                    xo - 1
                };
                assert(xo != i);
                assert(post[x] == pre[xo]);
            }
        }
    }

    /// Remove the session bound to a connection, if any; answers whether
    /// one was bound.
    pub fn remove(&mut self, k: u128) -> (b: bool)
        requires
            old(self).inv(),
        ensures
            final(self).inv(),
            final(self)@ == old(self)@.remove(k),
            b == old(self)@.contains_key(k),
    {
        let found = self.find(k);
        let ghost pre = self.entries@;
        match found {
            Some(i) => {
                let _removed = self.entries.remove(i);
                proof {
                    self.model@ = self.model@.remove(k);
                    let post = self.entries@;
                    assert forall|x: int| 0 <= x < post.len() implies #[trigger] post[x] == pre[shifted(x, i as int)] by {}
                    assert forall|x: int, y: int| 0 <= x < y < post.len() implies (
                    #[trigger] post[x].0) != (#[trigger] post[y].0) by {
                        let xo = if x < i as int {
                            x
                        } else {
                            x + 1
                        };
                        let yo = if y < i as int {
                            y
                        } else {
                            y + 1
                        };
                        assert(pre[xo].0 != pre[yo].0);
                    }
                    assert forall|x: int| 0 <= x < post.len() implies self.model@.contains_key(
                        #[trigger] post[x].0,
                    ) && self.model@[post[x].0] == post[x].1@ by {
                        let xo = if x < i as int {
                            x
                        } else {
                            x + 1
                        };
                        assert(post[x] == pre[xo]);
                        assert(pre[xo].0 != pre[i as int].0);
                    }
                    assert forall|k2: u128| #[trigger]
                        self.model@.contains_key(k2) implies exists|x: int|
                        0 <= x < post.len() && (#[trigger] post[x].0) == k2 by {
                        let xo = choose|xo: int| 0 <= xo < pre.len() && (#[trigger] pre[xo].0)
                            == k2;
                        assert(xo != i as int);
                        let x = if xo < i as int {
                            xo
                        } else {
                            xo - 1
                        };
                        assert(post[x] == pre[xo]);
                    }
                }
                true
            },
            None => {
                proof {
                    assert(self.model@ =~= self.model@.remove(k));
                }
                false
            },
        }
    }

    /// The connection identities of all active sessions, in registry order.
    pub fn client_ids(&self) -> (r: Vec<u128>)
        requires
            self.inv(),
        ensures
            forall|k: u128| r@.contains(k) <==> self@.contains_key(k),
            r@.no_duplicates(),
    {
        let n = self.entries.len();
        let mut r: Vec<u128> = Vec::new();
        let mut i: usize = 0;
        while i < n
            invariant
                self.inv(),
                0 <= i <= n,
                n == self.entries@.len(),
                r@.len() == i,
                forall|j: int| 0 <= j < i ==> (#[trigger] r@[j]) == self.entries@[j].0,
            decreases n - i,
        {
            r.push(self.entries[i].0);
            i = i + 1;
        }
        proof {
            assert forall|k: u128| r@.contains(k) <==> self@.contains_key(k) by {
                if r@.contains(k) {
                    let j = choose|j: int| 0 <= j < r@.len() && r@[j] == k;
                    assert(self.entries@[j].0 == k);
                }
                if self@.contains_key(k) {
                    let j = choose|j: int|
                        0 <= j < self.entries@.len() && (#[trigger] self.entries@[j].0) == k;
                    assert(r@[j] == k);
                    assert(r@.contains(k));
                }
            }
            assert forall|x: int, y: int| 0 <= x < y < r@.len() implies r@[x] != r@[y] by {
                assert(self.entries@[x].0 != self.entries@[y].0);
            }
        }
        r
    }
}

/// Character-for-character string equality.
pub fn str_eq(a: &str, b: &str) -> (r: bool)
    ensures
        r == (a@ == b@),
{
    let na = a.unicode_len();
    let nb = b.unicode_len();
    if na != nb {
        proof {
            assert(a@ != b@);
        }
        return false;
    }
    let mut i: usize = 0;
    while i < na
        invariant
            0 <= i <= na,
            na == a@.len(),
            na == b@.len(),
            forall|j: int| 0 <= j < i ==> a@[j] == b@[j],
        decreases na - i,
    {
        if a.get_char(i) != b.get_char(i) {
            proof {
                assert(a@[i as int] != b@[i as int]);
            }
            return false;
        }
        i = i + 1;
    }
    proof {
        assert(a@ =~= b@);
    }
    true
}

} // verus!
