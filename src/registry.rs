use vstd::prelude::*;
use crate::account::Pubkey;

verus! {

/// The addresses whose data buffer was resized during one invocation. Only
/// membership matters; each address is held once.
pub struct Reallocs {
    keys: Vec<Pubkey>,
}

impl View for Reallocs {
    type V = Set<Seq<u8>>;

    closed spec fn view(&self) -> Set<Seq<u8>> {
        Set::new(|s: Seq<u8>| exists|i: int| 0 <= i < self.keys@.len() && self.keys@[i]@ == s)
    }
}

impl Reallocs {
    /// Each address is held at most once.
    pub closed spec fn wf(&self) -> bool {
        forall|i: int, j: int|
            0 <= i < j < self.keys@.len() ==> self.keys@[i]@ != self.keys@[j]@
    }

    /// The number of addresses held.
    pub closed spec fn size(&self) -> nat {
        self.keys@.len()
    }

    pub fn new() -> (r: Reallocs)
        ensures
            r.wf(),
            r@ == Set::<Seq<u8>>::empty(),
            r.size() == 0,
    {
        let r = Reallocs { keys: Vec::new() };
        assert(r@ =~= Set::<Seq<u8>>::empty());
        r
    }

    pub fn len(&self) -> (r: usize)
        ensures
            r == self.size(),
    {
        self.keys.len()
    }

    pub fn contains(&self, key: &Pubkey) -> (r: bool)
        ensures
            r == self@.contains(key@),
    {
        let mut i: usize = 0;
        while i < self.keys.len()
            invariant
                i <= self.keys@.len(),
                forall|j: int| 0 <= j < i ==> self.keys@[j]@ != key@,
            decreases self.keys@.len() - i,
        {
            if self.keys[i].same_as(key) {
                return true;
            }
            i = i + 1;
        }
        false
    }

    /// Records `key`; returns whether it was not held before.
    pub fn insert(&mut self, key: Pubkey) -> (r: bool)
        requires
            old(self).wf(),
        ensures
            final(self).wf(),
            r == !old(self)@.contains(key@),
            final(self)@ == old(self)@.insert(key@),
            final(self).size() == old(self).size() + if r { 1nat } else { 0nat },
    {
        if self.contains(&key) {
            assert(self@ =~= self@.insert(key@));
            return false;
        }
        self.keys.push(key);
        assert forall|s: Seq<u8>| self@.contains(s) <==> old(self)@.insert(key@).contains(s) by {
            if s == key@ {
                assert(self.keys@[self.keys@.len() - 1]@ == s);
            }
            if old(self)@.contains(s) {
                let i = choose|i: int| 0 <= i < old(self).keys@.len() && old(self).keys@[i]@ == s;
                assert(self.keys@[i]@ == s);
            }
        }
        assert(self@ =~= old(self)@.insert(key@));
        true
    }
}

/// The map that a list of (address, bump) entries stands for.
pub open spec fn bump_map(entries: Seq<(Pubkey, u8)>) -> Map<Seq<u8>, u8>
    decreases entries.len(),
{
    if entries.len() == 0 {
        Map::empty()
    } else {
        bump_map(entries.drop_last()).insert(entries.last().0@, entries.last().1)
    }
}

/// Where the addresses of `entries` are distinct, the map holds an address
/// exactly when some entry does, with that entry's bump.
proof fn lemma_bump_map_lookup(entries: Seq<(Pubkey, u8)>, k: Seq<u8>)
    requires
        forall|i: int, j: int|
            0 <= i < j < entries.len() ==> entries[i].0@ != entries[j].0@,
    ensures
        bump_map(entries).contains_key(k) <==> exists|i: int|
            0 <= i < entries.len() && entries[i].0@ == k,
        forall|i: int|
            0 <= i < entries.len() && entries[i].0@ == k ==> bump_map(entries)[k] == entries[i].1,
    decreases entries.len(),
{
    if entries.len() > 0 {
        let before = entries.drop_last();
        let n = entries.len() - 1;
        lemma_bump_map_lookup(before, k);
        assert forall|i: int| 0 <= i < n implies before[i] == entries[i] by {}
        if exists|i: int| 0 <= i < entries.len() && entries[i].0@ == k {
            let i = choose|i: int| 0 <= i < entries.len() && entries[i].0@ == k;
            if i < n {
                assert(before[i].0@ == k);
            }
        }
        if bump_map(before).contains_key(k) {
            let i = choose|i: int| 0 <= i < before.len() && before[i].0@ == k;
            assert(entries[i].0@ == k);
        }
        assert forall|i: int|
            0 <= i < entries.len() && entries[i].0@ == k implies bump_map(entries)[k]
            == entries[i].1 by {
            if i < n {
                assert(entries[n].0@ != k);
                assert(before[i].0@ == k);
            }
        }
    }
}

/// The canonical bump of each program-derived address found during one
/// invocation. Each address is recorded at most once.
pub struct Bumps {
    entries: Vec<(Pubkey, u8)>,
}

impl View for Bumps {
    type V = Map<Seq<u8>, u8>;

    closed spec fn view(&self) -> Map<Seq<u8>, u8> {
        bump_map(self.entries@)
    }
}

impl Bumps {
    /// Each address is recorded at most once.
    pub closed spec fn wf(&self) -> bool {
        forall|i: int, j: int|
            0 <= i < j < self.entries@.len() ==> self.entries@[i].0@ != self.entries@[j].0@
    }

    pub fn new() -> (r: Bumps)
        ensures
            r.wf(),
            r@ == Map::<Seq<u8>, u8>::empty(),
    {
        Bumps { entries: Vec::new() }
    }

    /// The bump recorded for `key`, if any.
    pub fn get(&self, key: &Pubkey) -> (r: Option<u8>)
        requires
            self.wf(),
        ensures
            r == (if self@.contains_key(key@) {
                Some(self@[key@])
            } else {
                None
            }),
    {
        proof {
            lemma_bump_map_lookup(self.entries@, key@);
        }
        let mut i: usize = 0;
        while i < self.entries.len()
            invariant
                self.wf(),
                i <= self.entries@.len(),
                forall|j: int| 0 <= j < i ==> self.entries@[j].0@ != key@,
            decreases self.entries@.len() - i,
        {
            if self.entries[i].0.same_as(key) {
                proof {
                    lemma_bump_map_lookup(self.entries@, key@);
                }
                return Some(self.entries[i].1);
            }
            i = i + 1;
        }
        None
    }

    /// Records `bump` for `key` unless `key` already has one; returns whether
    /// it was recorded. An existing record is never replaced.
    pub fn insert(&mut self, key: Pubkey, bump: u8) -> (r: bool)
        requires
            old(self).wf(),
        ensures
            final(self).wf(),
            r == !old(self)@.contains_key(key@),
            r ==> final(self)@ == old(self)@.insert(key@, bump),
            !r ==> final(self)@ == old(self)@,
    {
        if self.get(&key).is_some() {
            return false;
        }
        proof {
            lemma_bump_map_lookup(self.entries@, key@);
        }
        let ghost before = self.entries@;
        self.entries.push((key, bump));
        assert(self.entries@.drop_last() =~= before);
        true
    }
}

} // verus!
