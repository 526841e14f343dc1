use vstd::prelude::*;

verus! {

/// Byte-for-byte equality of two byte strings.
pub fn bytes_eq(a: &Vec<u8>, b: &Vec<u8>) -> (r: bool)
    ensures
        r == (a@ == b@),
{
    if a.len() != b.len() {
        return false;
    }
    let n = a.len();
    let mut i: usize = 0;
    while i < n
        invariant
            n == a@.len(),
            n == b@.len(),
            0 <= i <= n,
            forall|j: int| 0 <= j < i ==> a@[j] == b@[j],
        decreases n - i,
    {
        if a[i] != b[i] {
            return false;
        }
        i += 1;
    }
    proof {
        assert(a@ =~= b@);
    }
    true
}

/// A fresh copy of a byte string.
pub fn copy_bytes(v: &Vec<u8>) -> (r: Vec<u8>)
    ensures
        r@ == v@,
{
    let n = v.len();
    let mut r: Vec<u8> = Vec::new();
    let mut i: usize = 0;
    while i < n
        invariant
            n == v@.len(),
            0 <= i <= n,
            r@ =~= v@.take(i as int),
        decreases n - i,
    {
        r.push(v[i]);
        i += 1;
    }
    proof {
        assert(r@ =~= v@);
    }
    r
}

/// The bytes that a write journal holds under `k`: the value of the most recent
/// write, or the empty byte string where `k` was never written.
pub open spec fn journal_at(es: Seq<(u128, Vec<u8>)>, k: u128) -> Seq<u8>
    decreases es.len(),
{
    if es.len() == 0 {
        Seq::empty()
    } else if es.last().0 == k {
        es.last().1@
    } else {
        journal_at(es.drop_last(), k)
    }
}

/// Sparse table of byte records under integer keys, standing for one indexed
/// namespace of the persistent key-value store. Kept as an append-only write
/// journal: a read returns the most recent write, a key never written reads
/// back as the empty byte string, and no write ever removes a key.
pub struct SlotTable {
    entries: Vec<(u128, Vec<u8>)>,
}

impl SlotTable {
    /// The bytes stored under key `k`.
    pub closed spec fn at(self, k: u128) -> Seq<u8> {
        journal_at(self.entries@, k)
    }

    pub fn new() -> (r: Self)
        ensures
            forall|k: u128| r.at(k) == Seq::<u8>::empty(),
    {
        SlotTable { entries: Vec::new() }
    }

    /// Reads the record under `k`; absent keys read as empty.
    pub fn get(&self, k: u128) -> (r: Vec<u8>)
        ensures
            r@ == self.at(k),
    {
        let n = self.entries.len();
        let mut i: usize = n;
        proof {
            assert(self.entries@.take(n as int) =~= self.entries@);
        }
        while i > 0
            invariant
                n == self.entries@.len(),
                0 <= i <= n,
                self.at(k) == journal_at(self.entries@.take(i as int), k),
            decreases i,
        {
            i -= 1;
            let hit = self.entries[i].0 == k;
            proof {
                let pre = self.entries@.take(i + 1);
                assert(pre.last() == self.entries@[i as int]);
                assert(pre.drop_last() =~= self.entries@.take(i as int));
            }
            if hit {
                return copy_bytes(&self.entries[i].1);
            }
        }
        Vec::new()
    }

    /// Writes `v` under `k`, superseding whatever was there.
    pub fn put(&mut self, k: u128, v: Vec<u8>)
        ensures
            final(self).at(k) == v@,
            forall|j: u128| j != k ==> final(self).at(j) == old(self).at(j),
    {
        let ghost old_entries = self.entries@;
        self.entries.push((k, v));
        proof {
            assert(self.entries@.drop_last() =~= old_entries);
        }
    }
}

/// The set of transaction ids already consumed; it only ever grows.
pub struct TxSet {
    items: Vec<Vec<u8>>,
}

impl TxSet {
    /// Whether `t` was marked.
    pub closed spec fn has(self, t: Seq<u8>) -> bool {
        exists|i: int| 0 <= i < self.items@.len() && self.items@[i]@ == t
    }

    pub fn new() -> (r: Self)
        ensures
            forall|t: Seq<u8>| !r.has(t),
    {
        TxSet { items: Vec::new() }
    }

    /// Membership scan.
    pub fn contains(&self, t: &Vec<u8>) -> (r: bool)
        ensures
            r == self.has(t@),
    {
        let n = self.items.len();
        let mut i: usize = 0;
        while i < n
            invariant
                n == self.items@.len(),
                0 <= i <= n,
                forall|j: int| 0 <= j < i ==> self.items@[j]@ != t@,
            decreases n - i,
        {
            if bytes_eq(&self.items[i], t) {
                proof {
                    assert(self.items@[i as int]@ == t@);
                }
                return true;
            }
            i += 1;
        }
        false
    }

    /// Marks `t`; marking is idempotent in effect.
    pub fn insert(&mut self, t: &Vec<u8>)
        ensures
            forall|u: Seq<u8>| final(self).has(u) == (old(self).has(u) || u == t@),
    {
        let ghost old_items = self.items@;
        let copy = copy_bytes(t);
        self.items.push(copy);
        proof {
            let m = old_items.len() as int;
            assert forall|u: Seq<u8>| #[trigger] final(self).has(u) == (old(self).has(u) || u
                == t@) by {
                if u == t@ {
                    assert(self.items@[m]@ == t@);
                } else {
                    if self.has(u) {
                        let i = choose|i: int| 0 <= i < self.items@.len() && self.items@[i]@ == u;
                        assert(i != m);
                        assert(old_items[i]@ == u);
                    }
                    if old(self).has(u) {
                        let i = choose|i: int| 0 <= i < old_items.len() && old_items[i]@ == u;
                        assert(self.items@[i]@ == u);
                    }
                }
            }
        }
    }
}

} // verus!
