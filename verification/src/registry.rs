//! The server's registry of users: which connection (by the text of its
//! address) registered under which name.

use vstd::prelude::*;

verus! {

/// Registered users as (address, name) pairs, in the order in which the
/// addresses first registered.
pub type Entries = Seq<(Seq<char>, Seq<char>)>;

/// No address occurs twice.
pub open spec fn addrs_distinct(e: Entries) -> bool {
    forall|i: int, j: int|
        0 <= i < e.len() && 0 <= j < e.len() && i != j ==> #[trigger] e[i].0 != #[trigger] e[j].0
}

/// `addr` has registered.
pub open spec fn has_addr(e: Entries, addr: Seq<char>) -> bool {
    exists|i: int| 0 <= i < e.len() && #[trigger] e[i].0 == addr
}

/// The position of `addr`, where it has registered.
pub open spec fn addr_index(e: Entries, addr: Seq<char>) -> int {
    choose|i: int| 0 <= i < e.len() && #[trigger] e[i].0 == addr
}

/// The name under which `addr` registered, if it did.
pub open spec fn name_of(e: Entries, addr: Seq<char>) -> Option<Seq<char>> {
    if has_addr(e, addr) {
        Some(e[addr_index(e, addr)].1)
    } else {
        None
    }
}

/// The registry after `addr` registers as `name`: a known address takes the
/// new name in its place, a new one comes last.
pub open spec fn with_user(e: Entries, addr: Seq<char>, name: Seq<char>) -> Entries {
    if has_addr(e, addr) {
        e.update(addr_index(e, addr), (addr, name))
    } else {
        e.push((addr, name))
    }
}

/// The registry after `addr` leaves.
pub open spec fn without_user(e: Entries, addr: Seq<char>) -> Entries {
    if has_addr(e, addr) {
        e.remove(addr_index(e, addr))
    } else {
        e
    }
}

/// The names of the registered users, in registry order.
pub open spec fn user_names(e: Entries) -> Seq<Seq<char>> {
    e.map_values(|p: (Seq<char>, Seq<char>)| p.1)
}

/// Where addresses are distinct, the position of an address is the one
/// position that holds it.
pub proof fn lemma_addr_index(e: Entries, i: int)
    requires
        addrs_distinct(e),
        0 <= i < e.len(),
    ensures
        has_addr(e, e[i].0),
        addr_index(e, e[i].0) == i,
        name_of(e, e[i].0) == Some(e[i].1),
{
    let a = e[i].0;
    assert(has_addr(e, a));
    let j = addr_index(e, a);
    assert(e[j].0 == a);
}

/// Registering keeps addresses distinct; afterwards the address has the new
/// name, and every other address keeps the name it had.
pub proof fn lemma_with_user(e: Entries, addr: Seq<char>, name: Seq<char>)
    requires
        addrs_distinct(e),
    ensures
        addrs_distinct(with_user(e, addr, name)),
        name_of(with_user(e, addr, name), addr) == Some(name),
        forall|b: Seq<char>| b != addr ==> name_of(with_user(e, addr, name), b) == name_of(e, b),
        has_addr(e, addr) ==> with_user(e, addr, name).len() == e.len(),
        !has_addr(e, addr) ==> with_user(e, addr, name).len() == e.len() + 1,
{
    let e2 = with_user(e, addr, name);
    if has_addr(e, addr) {
        let k = addr_index(e, addr);
        assert forall|i: int, j: int|
            0 <= i < e2.len() && 0 <= j < e2.len() && i != j implies #[trigger] e2[i].0 != #[trigger] e2[j].0 by {
            assert(e[i].0 == e2[i].0);
            assert(e[j].0 == e2[j].0);
        }
        lemma_addr_index(e2, k);
        assert forall|b: Seq<char>| b != addr implies name_of(e2, b) == name_of(e, b) by {
            if has_addr(e, b) {
                let m = addr_index(e, b);
                lemma_addr_index(e, m);
                lemma_addr_index(e2, m);
            }
            if has_addr(e2, b) {
                let m = addr_index(e2, b);
                lemma_addr_index(e2, m);
                assert(e[m].0 == b);
            }
        }
    } else {
        assert forall|i: int, j: int|
            0 <= i < e2.len() && 0 <= j < e2.len() && i != j implies #[trigger] e2[i].0 != #[trigger] e2[j].0 by {
            if i < e.len() && j < e.len() {
                assert(e[i] == e2[i] && e[j] == e2[j]);
            } else if i < e.len() {
                assert(e2[i] == e[i]);
            } else {
                assert(e2[j] == e[j]);
            }
        }
        lemma_addr_index(e2, e.len() as int);
        assert forall|b: Seq<char>| b != addr implies name_of(e2, b) == name_of(e, b) by {
            if has_addr(e, b) {
                let m = addr_index(e, b);
                lemma_addr_index(e, m);
                assert(e2[m] == e[m]);
                lemma_addr_index(e2, m);
            }
            if has_addr(e2, b) {
                let m = addr_index(e2, b);
                lemma_addr_index(e2, m);
                assert(e2[m] == e[m]);
            }
        }
    }
}

/// Leaving keeps addresses distinct; afterwards the address has no name,
/// and every other address keeps the name it had.
pub proof fn lemma_without_user(e: Entries, addr: Seq<char>)
    requires
        addrs_distinct(e),
    ensures
        addrs_distinct(without_user(e, addr)),
        name_of(without_user(e, addr), addr) is None,
        forall|b: Seq<char>| b != addr ==> name_of(without_user(e, addr), b) == name_of(e, b),
        has_addr(e, addr) ==> without_user(e, addr).len() + 1 == e.len(),
{
    let e2 = without_user(e, addr);
    if has_addr(e, addr) {
        let k = addr_index(e, addr);
        assert(e[k].0 == addr);
        assert forall|i: int| 0 <= i < e2.len() implies #[trigger] e2[i] == (if i < k { e[i] } else { e[i + 1] }) by {}
        assert forall|i: int, j: int|
            0 <= i < e2.len() && 0 <= j < e2.len() && i != j implies #[trigger] e2[i].0 != #[trigger] e2[j].0 by {
            let ii = if i < k { i } else { i + 1 };
            let jj = if j < k { j } else { j + 1 };
            assert(e2[i] == e[ii] && e2[j] == e[jj]);
        }
        if has_addr(e2, addr) {
            let m = addr_index(e2, addr);
            let mm = if m < k { m } else { m + 1 };
            assert(e2[m] == e[mm]);
        }
        assert forall|b: Seq<char>| b != addr implies name_of(e2, b) == name_of(e, b) by {
            if has_addr(e, b) {
                let m = addr_index(e, b);
                lemma_addr_index(e, m);
                assert(m != k);
                let mm = if m < k { m } else { m - 1 };
                assert(e2[mm] == e[m]);
                lemma_addr_index(e2, mm);
            }
            if has_addr(e2, b) {
                let m = addr_index(e2, b);
                lemma_addr_index(e2, m);
                let mm = if m < k { m } else { m + 1 };
                assert(e2[m] == e[mm]);
            }
        }
    }
}

/// The names that the registry lists are exactly the names under which some
/// address registered, one for each address.
pub proof fn lemma_user_names(e: Entries)
    requires
        addrs_distinct(e),
    ensures
        user_names(e).len() == e.len(),
        forall|n: Seq<char>|
            user_names(e).contains(n) <==> exists|a: Seq<char>| name_of(e, a) == Some(n),
{
    let ns = user_names(e);
    assert forall|n: Seq<char>| ns.contains(n) implies exists|a: Seq<char>| name_of(e, a) == Some(n) by {
        let i = choose|i: int| 0 <= i < ns.len() && ns[i] == n;
        lemma_addr_index(e, i);
    }
    assert forall|n: Seq<char>| (exists|a: Seq<char>| name_of(e, a) == Some(n)) implies ns.contains(n) by {
        let a = choose|a: Seq<char>| name_of(e, a) == Some(n);
        let i = addr_index(e, a);
        assert(ns[i] == n);
    }
}

/// The registry of users that the server keeps.
pub struct Users {
    entries: Vec<(String, String)>,
}

impl View for Users {
    type V = Entries;

    closed spec fn view(&self) -> Entries {
        self.entries.deep_view()
    }
}

/// Whether two texts are equal.
pub fn same_text(a: &str, b: &str) -> (r: bool)
    ensures
        r == (a@ == b@),
{
    let n = a.unicode_len();
    let m = b.unicode_len();
    if n != m {
        return false;
    }
    for i in 0..n
        invariant
            n == a@.len(),
            m == b@.len(),
            n == m,
            forall|j: int| 0 <= j < i ==> a@[j] == b@[j],
    {
        if a.get_char(i) != b.get_char(i) {
            return false;
        }
    }
    assert(a@ =~= b@);
    true
}

impl Users {
    /// No address occurs twice.
    #[verifier::type_invariant]
    spec fn addresses_unique(self) -> bool {
        addrs_distinct(self.entries.deep_view())
    }

    /// An empty registry.
    pub fn new() -> (r: Users)
        ensures
            r@ == Seq::<(Seq<char>, Seq<char>)>::empty(),
    {
        let r = Users { entries: Vec::new() };
        assert(r@ =~= Seq::<(Seq<char>, Seq<char>)>::empty());
        r
    }

    /// The position of `addr` in the registry, if it registered.
    fn find(&self, addr: &str) -> (r: Option<usize>)
        ensures
            addrs_distinct(self@),
            match r {
                Some(i) => i < self@.len() && self@[i as int].0 == addr@ && addr_index(self@, addr@) == i,
                None => !has_addr(self@, addr@),
            },
    {
        proof { use_type_invariant(self); }
        let n = self.entries.len();
        for i in 0..n
            invariant
                n == self.entries.len(),
                addrs_distinct(self@),
                forall|j: int| 0 <= j < i ==> #[trigger] self@[j].0 != addr@,
        {
            if same_text(self.entries[i].0.as_str(), addr) {
                proof { lemma_addr_index(self@, i as int); }
                return Some(i);
            }
        }
        None
    }

    /// The name under which `addr` registered, if it did.
    pub fn lookup(&self, addr: &str) -> (r: Option<String>)
        ensures
            addrs_distinct(self@),
            r.deep_view() == name_of(self@, addr@),
    {
        match self.find(addr) {
            Some(i) => Some(self.entries[i].1.clone()),
            None => None,
        }
    }

    /// `addr` registers as `name`, replacing the name it had.
    pub fn register(&mut self, addr: &str, name: String)
        ensures
            addrs_distinct(old(self)@),
            addrs_distinct(final(self)@),
            final(self)@ == with_user(old(self)@, addr@, name@),
    {
        let found = self.find(addr);
        proof { lemma_with_user(self@, addr@, name@); }
        let mut entries: Vec<(String, String)> = Vec::new();
        std::mem::swap(&mut entries, &mut self.entries);
        match found {
            Some(i) => {
                let a = entries[i].0.clone();
                entries.set(i, (a, name));
            },
            None => {
                entries.push((addr.to_owned(), name));
            },
        }
        assert(entries.deep_view() =~= with_user(old(self)@, addr@, name@));
        self.entries = entries;
    }

    /// `addr` leaves; the result tells whether it had registered.
    pub fn remove(&mut self, addr: &str) -> (r: bool)
        ensures
            addrs_distinct(old(self)@),
            addrs_distinct(final(self)@),
            r == has_addr(old(self)@, addr@),
            final(self)@ == without_user(old(self)@, addr@),
    {
        let found = self.find(addr);
        proof { lemma_without_user(self@, addr@); }
        match found {
            Some(i) => {
                let mut entries: Vec<(String, String)> = Vec::new();
                std::mem::swap(&mut entries, &mut self.entries);
                entries.remove(i);
                assert(entries.deep_view() =~= without_user(old(self)@, addr@));
                self.entries = entries;
                true
            },
            None => false,
        }
    }

    /// The names of the registered users.
    pub fn names(&self) -> (r: Vec<String>)
        ensures
            addrs_distinct(self@),
            r.deep_view() == user_names(self@),
    {
        proof { use_type_invariant(self); }
        let mut r: Vec<String> = Vec::new();
        let n = self.entries.len();
        for i in 0..n
            invariant
                n == self.entries.len(),
                r.deep_view() =~= user_names(self@).take(i as int),
        {
            let ghost prev = r@;
            let ghost prev_dv = r.deep_view();
            assert(prev_dv.len() == prev.len());
            assert(user_names(self@).len() == n);
            assert(prev_dv.len() == i);
            r.push(self.entries[i].1.clone());
            proof {
                assert(self@[i as int] == self.entries@[i as int].deep_view());
                assert forall|j: int| 0 <= j < i + 1 implies #[trigger] r.deep_view()[j] == user_names(self@)[j] by {
                    if j < i {
                        assert(r@[j] == prev[j]);
                        assert(prev_dv[j] == user_names(self@).take(i as int)[j]);
                    }
                }
                assert(r.deep_view() =~= user_names(self@).take(i + 1));
            }
        }
        assert(user_names(self@).take(n as int) =~= user_names(self@));
        r
    }
}

} // verus!
