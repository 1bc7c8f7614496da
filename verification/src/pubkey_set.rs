//! Sets of addresses, and maps from addresses to positions.

use crate::pubkey::Pubkey;
use std::collections::HashMap;
use vstd::prelude::*;

verus! {

broadcast use vstd::std_specs::hash::group_hash_axioms;

/// The bucket of an address: its first eight bytes, read as a number.
pub open spec fn bucket_of(key: Pubkey) -> u64 {
    (key.bytes[0] * 0x100_0000_0000_0000 + key.bytes[1] * 0x1_0000_0000_0000 + key.bytes[2]
        * 0x100_0000_0000 + key.bytes[3] * 0x1_0000_0000 + key.bytes[4] * 0x100_0000 + key.bytes[5]
        * 0x1_0000 + key.bytes[6] * 0x100 + key.bytes[7]) as u64
}

fn bucket(key: &Pubkey) -> (r: u64)
    ensures
        r == bucket_of(*key),
{
    key.bytes[0] as u64 * 0x100_0000_0000_0000 + key.bytes[1] as u64 * 0x1_0000_0000_0000
        + key.bytes[2] as u64 * 0x100_0000_0000 + key.bytes[3] as u64 * 0x1_0000_0000
        + key.bytes[4] as u64 * 0x100_0000 + key.bytes[5] as u64 * 0x1_0000 + key.bytes[6] as u64
        * 0x100 + key.bytes[7] as u64
}

/// Distinct addresses in the order in which they came, with a table that finds the position
/// of each.
#[derive(Debug)]
struct PubkeyIndex {
    items: Vec<Pubkey>,
    buckets: HashMap<u64, Vec<usize>>,
}

impl PubkeyIndex {
    spec fn wf(&self) -> bool {
        &&& self.items@.no_duplicates()
        &&& forall|i: int|
            0 <= i < self.items@.len() ==> {
                &&& self.buckets@.contains_key(bucket_of(#[trigger] self.items@[i]))
                &&& self.buckets@[bucket_of(self.items@[i])]@.contains(i as usize)
            }
        &&& forall|b: u64, n: int|
            self.buckets@.contains_key(b) && 0 <= n < self.buckets@[b]@.len() ==> (
            #[trigger] self.buckets@[b]@[n]) < self.items@.len()
    }

    fn new() -> (r: Self)
        ensures
            r.wf(),
            r.items@ == Seq::<Pubkey>::empty(),
    {
        PubkeyIndex { items: Vec::new(), buckets: HashMap::new() }
    }

    fn with_capacity(capacity: usize) -> (r: Self)
        ensures
            r.wf(),
            r.items@ == Seq::<Pubkey>::empty(),
    {
        PubkeyIndex {
            items: Vec::with_capacity(capacity),
            buckets: HashMap::with_capacity(capacity),
        }
    }

    fn duplicate(&self) -> (r: Self)
        requires
            self.wf(),
        ensures
            r.wf(),
            r.items@ == self.items@,
    {
        let items = self.items.clone();
        assert(items@ =~= self.items@);
        PubkeyIndex { items, buckets: self.buckets.clone() }
    }

    fn find(&self, key: &Pubkey) -> (r: Option<usize>)
        requires
            self.wf(),
        ensures
            match r {
                Some(i) => i < self.items@.len() && self.items@[i as int] == *key,
                None => !self.items@.contains(*key),
            },
    {
        match self.buckets.get(&bucket(key)) {
            Some(positions) => {
                let mut n: usize = 0;
                while n < positions.len()
                    invariant
                        self.wf(),
                        self.buckets@.contains_key(bucket_of(*key)),
                        *positions == self.buckets@[bucket_of(*key)],
                        n <= positions@.len(),
                        forall|m: int|
                            0 <= m < n ==> self.items@[#[trigger] positions@[m] as int] != *key,
                    decreases positions@.len() - n,
                {
                    assert(self.buckets@[bucket_of(*key)]@[n as int] < self.items@.len());
                    let i: usize = positions[n];
                    if self.items[i].same(key) {
                        return Some(i);
                    }
                    n += 1;
                }
                proof {
                    if self.items@.contains(*key) {
                        let i = choose|i: int|
                            0 <= i < self.items@.len() && self.items@[i] == *key;
                        assert(self.buckets@[bucket_of(self.items@[i])]@.contains(i as usize));
                        assert(i < self.items.len());
                        let m = choose|m: int|
                            0 <= m < positions@.len() && positions@[m] == i as usize;
                        assert(self.items@[positions@[m] as int] != *key);
                    }
                }
                None
            },
            None => None,
        }
    }

    fn push(&mut self, key: Pubkey)
        requires
            old(self).wf(),
            !old(self).items@.contains(key),
        ensures
            final(self).wf(),
            final(self).items@ == old(self).items@.push(key),
    {
        let b: u64 = bucket(&key);
        let mut positions = match self.buckets.remove(&b) {
            Some(positions) => positions,
            None => Vec::new(),
        };
        let ghost before = positions@;
        let position: usize = self.items.len();
        positions.push(position);
        let ghost after = positions@;
        self.buckets.insert(b, positions);
        self.items.push(key);
        proof {
            let was = *old(self);
            assert(self.buckets@ =~= was.buckets@.insert(b, positions));
            assert(after[after.len() - 1] == position);
            assert forall|i: int| 0 <= i < self.items@.len() implies {
                &&& self.buckets@.contains_key(bucket_of(#[trigger] self.items@[i]))
                &&& self.buckets@[bucket_of(self.items@[i])]@.contains(i as usize)
            } by {
                if i < was.items@.len() {
                    assert(was.items@[i] == self.items@[i]);
                    let own = bucket_of(was.items@[i]);
                    assert(was.buckets@[own]@.contains(i as usize));
                    if own == b {
                        let n = choose|n: int| 0 <= n < before.len() && before[n] == i as usize;
                        assert(after[n] == i as usize);
                    }
                } else {
                    assert(self.items@[i] == key);
                }
            }
            assert forall|c: u64, n: int|
                self.buckets@.contains_key(c) && 0 <= n < self.buckets@[c]@.len() implies (
            #[trigger] self.buckets@[c]@[n]) < self.items@.len() by {
                if c == b {
                    if n < before.len() {
                        assert(was.buckets@[c]@[n] < was.items@.len());
                    }
                } else {
                    assert(was.buckets@[c]@[n] < was.items@.len());
                }
            }
        }
    }
}

/// A set of addresses.
#[derive(Debug)]
pub struct PubkeySet {
    index: PubkeyIndex,
}

impl View for PubkeySet {
    type V = Set<Pubkey>;

    closed spec fn view(&self) -> Set<Pubkey> {
        self.index.items@.to_set()
    }
}

impl Clone for PubkeySet {
    fn clone(&self) -> (r: Self)
        ensures
            r@ == self@,
    {
        proof {
            use_type_invariant(self);
        }
        PubkeySet { index: self.index.duplicate() }
    }
}

impl Default for PubkeySet {
    fn default() -> (r: Self)
        ensures
            r@ == Set::<Pubkey>::empty(),
    {
        PubkeySet::new()
    }
}

impl PubkeySet {
    #[verifier::type_invariant]
    spec fn inv(&self) -> bool {
        self.index.wf()
    }

    pub fn new() -> (r: Self)
        ensures
            r@ == Set::<Pubkey>::empty(),
    {
        let r = PubkeySet { index: PubkeyIndex::new() };
        assert(r@ =~= Set::<Pubkey>::empty());
        r
    }

    /// An empty set with room for as many addresses.
    pub(crate) fn with_capacity(capacity: usize) -> (r: Self)
        ensures
            r@ == Set::<Pubkey>::empty(),
    {
        let r = PubkeySet { index: PubkeyIndex::with_capacity(capacity) };
        assert(r@ =~= Set::<Pubkey>::empty());
        r
    }

    /// The set of the addresses that are listed.
    pub fn from_slice(keys: &[Pubkey]) -> (r: Self)
        ensures
            r@ == keys@.to_set(),
    {
        let mut set = PubkeySet::new();
        set.extend_from_slice(keys);
        assert(set@ =~= keys@.to_set());
        set
    }

    pub fn is_empty(&self) -> (r: bool)
        ensures
            r == (self@ == Set::<Pubkey>::empty()),
    {
        proof {
            if self.index.items@.len() == 0 {
                assert(self@ =~= Set::<Pubkey>::empty());
            } else {
                assert(self@.contains(self.index.items@[0]));
            }
        }
        self.index.items.is_empty()
    }

    pub fn len(&self) -> (r: usize)
        ensures
            r == self@.len(),
    {
        proof {
            use_type_invariant(self);
            self.index.items@.unique_seq_to_set();
        }
        self.index.items.len()
    }

    pub fn contains(&self, key: &Pubkey) -> (r: bool)
        ensures
            r == self@.contains(*key),
    {
        proof {
            use_type_invariant(self);
        }
        self.index.find(key).is_some()
    }

    /// Adds an address, and tells whether it was new.
    pub fn insert(&mut self, key: Pubkey) -> (r: bool)
        ensures
            final(self)@ == old(self)@.insert(key),
            r == !old(self)@.contains(key),
    {
        proof {
            use_type_invariant(&*self);
        }
        let ghost before = self.index.items@;
        if self.index.find(&key).is_some() {
            assert(self@ =~= old(self)@.insert(key));
            return false;
        }
        let mut index = PubkeyIndex::new();
        std::mem::swap(&mut index, &mut self.index);
        index.push(key);
        self.index = index;
        proof {
            let after = self.index.items@;
            assert(after[after.len() - 1] == key);
            assert forall|k: Pubkey| self@.contains(k) == old(self)@.insert(key).contains(k) by {
                if before.contains(k) {
                    let i = choose|i: int| 0 <= i < before.len() && before[i] == k;
                    assert(after[i] == k);
                }
            }
            assert(self@ =~= old(self)@.insert(key));
        }
        true
    }

    /// Adds every address that is listed.
    pub fn extend_from_slice(&mut self, keys: &[Pubkey])
        ensures
            final(self)@ == old(self)@.union(keys@.to_set()),
    {
        let mut i: usize = 0;
        assert(self@ =~= old(self)@.union(keys@.take(0).to_set()));
        while i < keys.len()
            invariant
                i <= keys@.len(),
                self@ == old(self)@.union(keys@.take(i as int).to_set()),
            decreases keys@.len() - i,
        {
            self.insert(keys[i]);
            proof {
                let more = keys@.take(i + 1);
                let less = keys@.take(i as int);
                assert(more =~= less.push(keys@[i as int]));
                assert(more.to_set() =~= less.to_set().insert(keys@[i as int])) by {
                    assert(more[i as int] == keys@[i as int]);
                    assert forall|k: Pubkey| less.contains(k) implies more.contains(k) by {
                        let n = choose|n: int| 0 <= n < less.len() && less[n] == k;
                        assert(more[n] == k);
                    }
                }
                assert(self@ =~= old(self)@.union(more.to_set()));
            }
            i += 1;
        }
        assert(keys@.take(i as int) =~= keys@);
    }

    /// The addresses of the set, each once.
    pub fn as_slice(&self) -> (r: &[Pubkey])
        ensures
            r@.no_duplicates(),
            r@.to_set() == self@,
    {
        proof {
            use_type_invariant(self);
        }
        self.index.items.as_slice()
    }

    /// The addresses of the set, each once, as a list of its own.
    pub fn to_vec(&self) -> (r: Vec<Pubkey>)
        ensures
            r@.no_duplicates(),
            r@.to_set() == self@,
    {
        proof {
            use_type_invariant(self);
        }
        let r = self.index.items.clone();
        assert(r@ =~= self.index.items@);
        r
    }

    /// Tells whether some address of the list is in the set.
    pub fn contains_any(&self, keys: &[Pubkey]) -> (r: bool)
        ensures
            r == exists|k: Pubkey| keys@.contains(k) && #[trigger] self@.contains(k),
    {
        let mut i: usize = 0;
        while i < keys.len()
            invariant
                i <= keys@.len(),
                forall|j: int| 0 <= j < i ==> !self@.contains(#[trigger] keys@[j]),
            decreases keys@.len() - i,
        {
            if self.contains(&keys[i]) {
                assert(keys@.contains(keys@[i as int]));
                return true;
            }
            i += 1;
        }
        false
    }

    /// Tells whether the two sets have an address in common.
    pub fn intersects(&self, other: &PubkeySet) -> (r: bool)
        ensures
            r == !self@.disjoint(other@),
    {
        let keys = self.as_slice();
        let r = other.contains_any(keys);
        proof {
            assert forall|k: Pubkey| self@.contains(k) == #[trigger] keys@.contains(k) by {
                assert(keys@.to_set().contains(k) == keys@.contains(k));
            }
            if r {
                let k = choose|k: Pubkey| keys@.contains(k) && #[trigger] other@.contains(k);
                assert(self@.contains(k) && other@.contains(k));
            } else if !self@.disjoint(other@) {
                let k = choose|k: Pubkey| self@.contains(k) && other@.contains(k);
                assert(keys@.contains(k));
            }
        }
        r
    }

    /// Tells whether every address of the set is in the other.
    pub fn is_subset(&self, other: &PubkeySet) -> (r: bool)
        ensures
            r == self@.subset_of(other@),
    {
        let keys = self.as_slice();
        let mut i: usize = 0;
        while i < keys.len()
            invariant
                keys@.to_set() == self@,
                i <= keys@.len(),
                forall|j: int| 0 <= j < i ==> other@.contains(#[trigger] keys@[j]),
            decreases keys@.len() - i,
        {
            if !other.contains(&keys[i]) {
                assert(self@.contains(keys@[i as int]));
                return false;
            }
            i += 1;
        }
        assert forall|k: Pubkey| self@.contains(k) implies other@.contains(k) by {
            assert(keys@.contains(k));
        }
        true
    }
}

/// Addresses, each with the positions at which it is named.
#[derive(Debug)]
pub struct PubkeyPositions {
    index: PubkeyIndex,
    positions: Vec<Vec<usize>>,
}

impl View for PubkeyPositions {
    type V = Set<(Pubkey, usize)>;

    /// Each address paired with each of its positions.
    closed spec fn view(&self) -> Set<(Pubkey, usize)> {
        Set::new(|p: (Pubkey, usize)| self.named(p.0, p.1))
    }
}

impl PubkeyPositions {
    pub closed spec fn wf(&self) -> bool {
        &&& self.index.wf()
        &&& self.positions@.len() == self.index.items@.len()
    }

    spec fn named(&self, key: Pubkey, position: usize) -> bool {
        exists|i: int|
            {
                &&& 0 <= i < self.index.items@.len()
                &&& #[trigger] self.index.items@[i] == key
                &&& self.positions@[i]@.contains(position)
            }
    }

    pub fn new() -> (r: Self)
        ensures
            r.wf(),
            r@ == Set::<(Pubkey, usize)>::empty(),
    {
        let r = PubkeyPositions { index: PubkeyIndex::new(), positions: Vec::new() };
        assert(r@ =~= Set::<(Pubkey, usize)>::empty());
        r
    }

    pub fn duplicate(&self) -> (r: Self)
        requires
            self.wf(),
        ensures
            r.wf(),
            r@ == self@,
    {
        let mut positions: Vec<Vec<usize>> = Vec::new();
        let mut i: usize = 0;
        while i < self.positions.len()
            invariant
                i <= self.positions@.len(),
                positions@.len() == i,
                forall|j: int| 0 <= j < i ==> (#[trigger] positions@[j])@ == self.positions@[j]@,
            decreases self.positions@.len() - i,
        {
            let row = self.positions[i].clone();
            assert(row@ =~= self.positions@[i as int]@);
            positions.push(row);
            i += 1;
        }
        let r = PubkeyPositions { index: self.index.duplicate(), positions };
        assert forall|k: Pubkey, p: usize| r.named(k, p) == self.named(k, p) by {
            if self.named(k, p) {
                let n = choose|n: int|
                    {
                        &&& 0 <= n < self.index.items@.len()
                        &&& #[trigger] self.index.items@[n] == k
                        &&& self.positions@[n]@.contains(p)
                    };
                assert(r.index.items@[n] == k);
                assert(r.positions@[n]@ == self.positions@[n]@);
            }
            if r.named(k, p) {
                let n = choose|n: int|
                    {
                        &&& 0 <= n < r.index.items@.len()
                        &&& #[trigger] r.index.items@[n] == k
                        &&& r.positions@[n]@.contains(p)
                    };
                assert(self.index.items@[n] == k);
                assert(r.positions@[n]@ == self.positions@[n]@);
            }
        }
        assert(r@ =~= self@);
        r
    }

    /// Adds a position to an address, and tells whether the pair was new.
    pub fn insert(&mut self, key: Pubkey, position: usize) -> (r: bool)
        requires
            old(self).wf(),
        ensures
            final(self).wf(),
            final(self)@ == old(self)@.insert((key, position)),
            r == !old(self)@.contains((key, position)),
    {
        let i: usize = match self.index.find(&key) {
            Some(i) => i,
            None => {
                self.index.push(key);
                self.positions.push(Vec::new());
                assert forall|k: Pubkey, p: usize| self.named(k, p) == old(self).named(k, p) by {
                    let was = *old(self);
                    if was.named(k, p) {
                        let n = choose|n: int|
                            {
                                &&& 0 <= n < was.index.items@.len()
                                &&& #[trigger] was.index.items@[n] == k
                                &&& was.positions@[n]@.contains(p)
                            };
                        assert(self.index.items@[n] == k);
                    }
                    if self.named(k, p) {
                        let n = choose|n: int|
                            {
                                &&& 0 <= n < self.index.items@.len()
                                &&& #[trigger] self.index.items@[n] == k
                                &&& self.positions@[n]@.contains(p)
                            };
                        assert(n < was.index.items@.len());
                        assert(was.index.items@[n] == k);
                    }
                }
                self.index.items.len() - 1
            },
        };
        assert(self.index.items@[i as int] == key);
        let ghost before = *self;
        assert(before@ =~= old(self)@);
        let r = !position_listed(self.positions[i].as_slice(), position);
        assert(r == !before.named(key, position)) by {
            if before.named(key, position) {
                let n = choose|n: int|
                    {
                        &&& 0 <= n < before.index.items@.len()
                        &&& #[trigger] before.index.items@[n] == key
                        &&& before.positions@[n]@.contains(position)
                    };
                assert(n == i);
            }
        }
        if r {
            self.positions[i].push(position);
            let ghost added = self.positions@[i as int]@;
            assert(added == before.positions@[i as int]@.push(position));
            assert(added[added.len() - 1] == position);
        }
        assert forall|k: Pubkey, p: usize|
            self.named(k, p) == (before.named(k, p) || (k == key && p == position)) by {
            if before.named(k, p) {
                let n = choose|n: int|
                    {
                        &&& 0 <= n < before.index.items@.len()
                        &&& #[trigger] before.index.items@[n] == k
                        &&& before.positions@[n]@.contains(p)
                    };
                let m = choose|m: int|
                    0 <= m < before.positions@[n]@.len() && before.positions@[n]@[m] == p;
                assert(self.positions@[n]@[m] == p);
                assert(self.index.items@[n] == k);
            }
            if k == key && p == position {
                assert(self.index.items@[i as int] == key);
                assert(self.positions@[i as int]@.contains(position));
            }
            if self.named(k, p) {
                let n = choose|n: int|
                    {
                        &&& 0 <= n < self.index.items@.len()
                        &&& #[trigger] self.index.items@[n] == k
                        &&& self.positions@[n]@.contains(p)
                    };
                assert(before.index.items@[n] == k);
                let m = choose|m: int|
                    0 <= m < self.positions@[n]@.len() && self.positions@[n]@[m] == p;
                if m < before.positions@[n]@.len() {
                    assert(before.positions@[n]@[m] == p);
                }
            }
        }
        assert(self@ =~= old(self)@.insert((key, position)));
        r
    }

    /// The positions at which an address is named.
    pub fn get(&self, key: &Pubkey) -> (r: &[usize])
        requires
            self.wf(),
        ensures
            forall|p: usize| #[trigger] r@.contains(p) == self@.contains((*key, p)),
    {
        match self.index.find(key) {
            Some(i) => {
                let r = self.positions[i].as_slice();
                assert forall|p: usize| #[trigger] r@.contains(p) == self@.contains((*key, p)) by {
                    assert(self.index.items@[i as int] == *key);
                    if self.named(*key, p) {
                        let n = choose|n: int|
                            {
                                &&& 0 <= n < self.index.items@.len()
                                &&& #[trigger] self.index.items@[n] == *key
                                &&& self.positions@[n]@.contains(p)
                            };
                        assert(n == i);
                    }
                }
                r
            },
            None => {
                assert forall|p: usize| !self@.contains((*key, p)) by {
                    if self.named(*key, p) {
                        assert(self.index.items@.contains(*key));
                    }
                }
                &[]
            },
        }
    }

    /// The addresses that are named at each of the first positions.
    pub fn by_position(&self, len: usize) -> (r: Vec<PubkeySet>)
        requires
            self.wf(),
        ensures
            r@.len() == len,
            forall|p: usize| p < len ==> (#[trigger] r@[p as int])@ == keys_at(self@, p),
    {
        let mut sets: Vec<PubkeySet> = Vec::with_capacity(len);
        while sets.len() < len
            invariant
                sets@.len() <= len,
                forall|p: int|
                    0 <= p < sets@.len() ==> (#[trigger] sets@[p])@ == Set::<Pubkey>::empty(),
            decreases len - sets@.len(),
        {
            sets.push(PubkeySet::new());
        }
        let mut i: usize = 0;
        while i < self.index.items.len()
            invariant
                self.wf(),
                i <= self.index.items@.len(),
                sets@.len() == len,
                forall|p: int, k: Pubkey|
                    0 <= p < len ==> (#[trigger] sets@[p]@.contains(k) <==> self.named_before(
                        k,
                        p as usize,
                        i as int,
                        0,
                    )),
            decreases self.index.items@.len() - i,
        {
            let key = self.index.items[i];
            let mut j: usize = 0;
            while j < self.positions[i].len()
                invariant
                    self.wf(),
                    i < self.index.items@.len(),
                    key == self.index.items@[i as int],
                    j <= self.positions@[i as int]@.len(),
                    sets@.len() == len,
                    forall|p: int, k: Pubkey|
                        0 <= p < len ==> (#[trigger] sets@[p]@.contains(k) <==> self.named_before(
                            k,
                            p as usize,
                            i as int,
                            j as int,
                        )),
                decreases self.positions@[i as int]@.len() - j,
            {
                let position: usize = self.positions[i][j];
                let ghost before = sets@;
                if position < len {
                    sets[position].insert(key);
                }
                assert forall|p: int, k: Pubkey| 0 <= p < len implies (
                #[trigger] sets@[p]@.contains(k) <==> self.named_before(
                    k,
                    p as usize,
                    i as int,
                    j + 1,
                )) by {
                    assert(before[p]@.contains(k) <==> self.named_before(
                        k,
                        p as usize,
                        i as int,
                        j as int,
                    ));
                    self.lemma_named_before_step(k, p as usize, i as int, j as int);
                }
                j += 1;
            }
            assert forall|p: int, k: Pubkey| 0 <= p < len implies (
            #[trigger] sets@[p]@.contains(k) <==> self.named_before(
                k,
                p as usize,
                i + 1,
                0,
            )) by {
                self.lemma_named_before_row(k, p as usize, i as int);
            }
            i += 1;
        }
        assert forall|p: usize| p < len implies (#[trigger] sets@[p as int])@ == keys_at(
            self@,
            p,
        ) by {
            assert forall|k: Pubkey|
                sets@[p as int]@.contains(k) == keys_at(self@, p).contains(k) by {
                self.lemma_named_before_all(k, p);
            }
            assert(sets@[p as int]@ =~= keys_at(self@, p));
        }
        sets
    }

    /// The address has the position among the first `i` addresses, or as one of the first `j`
    /// positions of address `i`.
    spec fn named_before(&self, key: Pubkey, position: usize, i: int, j: int) -> bool {
        ||| exists|n: int|
            {
                &&& 0 <= n < i
                &&& #[trigger] self.index.items@[n] == key
                &&& self.positions@[n]@.contains(position)
            }
        ||| 0 <= i < self.index.items@.len() && self.index.items@[i] == key
            && self.positions@[i]@.take(j).contains(position)
    }

    proof fn lemma_named_before_step(&self, key: Pubkey, position: usize, i: int, j: int)
        requires
            self.wf(),
            0 <= i < self.index.items@.len(),
            0 <= j < self.positions@[i]@.len(),
        ensures
            self.named_before(key, position, i, j + 1) <==> self.named_before(key, position, i, j)
                || (self.index.items@[i] == key && self.positions@[i]@[j] == position),
    {
        let row = self.positions@[i]@;
        let less = row.take(j);
        let more = row.take(j + 1);
        assert(more =~= less.push(row[j]));
        assert(more[j] == row[j]);
        if less.contains(position) {
            let m = choose|m: int| 0 <= m < less.len() && less[m] == position;
            assert(more[m] == position);
        }
        if more.contains(position) && row[j] != position {
            let m = choose|m: int| 0 <= m < more.len() && more[m] == position;
            assert(less[m] == position);
        }
    }

    proof fn lemma_named_before_row(&self, key: Pubkey, position: usize, i: int)
        requires
            self.wf(),
            0 <= i < self.index.items@.len(),
        ensures
            self.named_before(key, position, i + 1, 0) <==> self.named_before(
                key,
                position,
                i,
                self.positions@[i]@.len() as int,
            ),
    {
        let row = self.positions@[i]@;
        assert(row.take(row.len() as int) =~= row);
        if i + 1 < self.index.items@.len() {
            assert(self.positions@[i + 1]@.take(0) =~= Seq::empty());
        }
        if self.named_before(key, position, i, row.len() as int) {
            if row.contains(position) && self.index.items@[i] == key {
                assert(self.index.items@[i] == key);
            } else {
                let n = choose|n: int|
                    {
                        &&& 0 <= n < i
                        &&& #[trigger] self.index.items@[n] == key
                        &&& self.positions@[n]@.contains(position)
                    };
                assert(self.index.items@[n] == key);
            }
        }
    }

    proof fn lemma_named_before_all(&self, key: Pubkey, position: usize)
        requires
            self.wf(),
        ensures
            self.named_before(key, position, self.index.items@.len() as int, 0) == self@.contains(
                (key, position),
            ),
    {
        assert(self@.contains((key, position)) == self.named(key, position));
    }
}

/// The addresses that pairs name at a position.
pub open spec fn keys_at(pairs: Set<(Pubkey, usize)>, position: usize) -> Set<Pubkey> {
    Set::new(|k: Pubkey| pairs.contains((k, position)))
}

/// Tells whether a position is in a list.
fn position_listed(list: &[usize], position: usize) -> (r: bool)
    ensures
        r == list@.contains(position),
{
    let mut i: usize = 0;
    while i < list.len()
        invariant
            i <= list@.len(),
            forall|j: int| 0 <= j < i ==> list@[j] != position,
        decreases list@.len() - i,
    {
        if list[i] == position {
            return true;
        }
        i += 1;
    }
    false
}

} // verus!
