use vstd::prelude::*;

verus! {

/// What a log of write records says a key maps to: the value of the most
/// recent record carrying that key, or `None` if no record carries it.
pub open spec fn lookup(s: Seq<(Vec<u8>, Vec<u8>)>, k: Seq<u8>) -> Option<Seq<u8>>
    decreases s.len(),
{
    if s.len() == 0 {
        None
    } else if s.last().0@ == k {
        Some(s.last().1@)
    } else {
        lookup(s.drop_last(), k)
    }
}

/// An in-memory key-value store standing in for the host's persistence
/// layer: an append-only log of writes in which the latest write to a key
/// wins. The contract operations take one of these as their injected
/// storage handle.
pub struct KvStore {
    log: Vec<(Vec<u8>, Vec<u8>)>,
}

impl View for KvStore {
    type V = Seq<(Vec<u8>, Vec<u8>)>;

    closed spec fn view(&self) -> Seq<(Vec<u8>, Vec<u8>)> {
        self.log@
    }
}

/// Byte-wise equality of two byte vectors.
pub fn bytes_eq(a: &Vec<u8>, b: &Vec<u8>) -> (r: bool)
    ensures
        r == (a@ == b@),
{
    if a.len() != b.len() {
        return false;
    }
    let mut i: usize = 0;
    while i < a.len()
        invariant
            i <= a@.len(),
            a@.len() == b@.len(),
            forall|j: int| 0 <= j < i ==> a@[j] == b@[j],
        decreases a@.len() - i,
    {
        if a[i] != b[i] {
            return false;
        }
        i += 1;
    }
    proof {
        assert(a@ =~= b@);
    }
    true
}

/// A fresh copy of a byte vector with the same contents.
pub fn copy_bytes(v: &Vec<u8>) -> (r: Vec<u8>)
    ensures
        r@ == v@,
{
    let mut r: Vec<u8> = Vec::new();
    let mut i: usize = 0;
    while i < v.len()
        invariant
            i <= v@.len(),
            r@ == v@.take(i as int),
        decreases v@.len() - i,
    {
        r.push(v[i]);
        proof {
            assert(r@ =~= v@.take(i as int + 1));
        }
        i += 1;
    }
    proof {
        assert(v@.take(v@.len() as int) =~= v@);
    }
    r
}

impl KvStore {
    /// An empty store: no key has a value.
    pub fn new() -> (s: KvStore)
        ensures
            s@.len() == 0,
            forall|k: Seq<u8>| lookup(s@, k) is None,
    {
        KvStore { log: Vec::new() }
    }

    /// Record `value` under `key`; every other key keeps its value.
    pub fn set(&mut self, key: Vec<u8>, value: Vec<u8>)
        ensures
            lookup(final(self)@, key@) == Some(value@),
            forall|k: Seq<u8>|
                k != key@ ==> lookup(final(self)@, k) == lookup(old(self)@, k),
    {
        let ghost pre = self.log@;
        self.log.push((key, value));
        proof {
            assert(self.log@.drop_last() =~= pre);
            assert(self.log@.last().0@ == key@);
        }
    }

    /// The value most recently recorded under `key`, if any.
    pub fn get(&self, key: &Vec<u8>) -> (r: Option<Vec<u8>>)
        ensures
            match lookup(self@, key@) {
                Some(b) => r matches Some(v) && v@ == b,
                None => r is None,
            },
    {
        let mut i: usize = self.log.len();
        proof {
            assert(self.log@.take(i as int) =~= self.log@);
        }
        while i > 0
            invariant
                i <= self.log@.len(),
                lookup(self.log@, key@) == lookup(self.log@.take(i as int), key@),
            decreases i,
    {
            let j: usize = i - 1;
            let ghost prefix = self.log@.take(i as int);
            proof {
                assert(prefix.last() == self.log@[j as int]);
                assert(prefix.drop_last() =~= self.log@.take(j as int));
            }
            if bytes_eq(&self.log[j].0, key) {
                let out = copy_bytes(&self.log[j].1);
                return Some(out);
            }
            i = j;
        }
        proof {
            assert(self.log@.take(0) =~= Seq::<(Vec<u8>, Vec<u8>)>::empty());
        }
        None
    }
}

} // verus!
