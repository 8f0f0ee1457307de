//! The series-year registry: a process-wide cache that fixes one canonical
//! publication year per series, keyed by a stable hash of the trimmed series
//! name. The first year observed for a series wins; every later observation
//! of the same series resolves to it, whatever year that file carries.

use vstd::prelude::*;
use std::collections::HashMap;

verus! {

broadcast use vstd::std_specs::hash::group_hash_axioms;

/// The hash the registry keys series names by: a 64-bit
/// fold-and-multiply over the characters, so equal names always share a
/// key. Values live only for one run; nothing persists them.
pub open spec fn hash_of(s: Seq<char>) -> u64
    decreases s.len(),
{
    if s.len() == 0 {
        0xcbf29ce484222325u64
    } else {
        ((((hash_of(s.drop_last()) ^ (s.last() as u64)) as int) * 0x100000001b3)
            % 0x10000000000000000) as u64
    }
}

/// Stable hash of a series name, used as the registry key.
pub fn my_hash(name: &Vec<char>) -> (r: u64)
    ensures
        r == hash_of(name@),
{
    let mut h: u64 = 0xcbf29ce484222325;
    let mut i: usize = 0;
    proof {
        assert(name@.subrange(0, 0) =~= Seq::<char>::empty());
    }
    while i < name.len()
        invariant
            i <= name.len(),
            h == hash_of(name@.subrange(0, i as int)),
        decreases name.len() - i,
    {
        let c = name[i];
        let x: u64 = h ^ (c as u64);
        let prod: u128 = (x as u128) * 0x100000001b3u128;
        proof {
            assert(name@.subrange(0, i + 1).drop_last() =~= name@.subrange(0, i as int));
            assert(name@.subrange(0, i + 1).last() == name@[i as int]);
        }
        h = (prod % 0x10000000000000000u128) as u64;
        i = i + 1;
    }
    proof {
        assert(name@.subrange(0, name@.len() as int) =~= name@);
    }
    h
}

/// How one resolution step changes the registry: a known key keeps the map
/// and returns the stored year; an unknown key records the observed year
/// and returns it.
pub open spec fn resolve_year_spec(m: Map<u64, u32>, key: u64, observed: u32) -> (
    Map<u64, u32>,
    u32,
) {
    if m.contains_key(key) {
        (m, m[key])
    } else {
        (m.insert(key, observed), observed)
    }
}

/// The canonical-year cache for one sort run.
pub struct SeriesYearRegistry {
    map: HashMap<u64, u32>,
}

impl View for SeriesYearRegistry {
    type V = Map<u64, u32>;

    closed spec fn view(&self) -> Map<u64, u32> {
        self.map@
    }
}

impl SeriesYearRegistry {
    /// Every recorded year has at most four digits.
    pub open spec fn wf(&self) -> bool {
        forall|k: u64| self@.contains_key(k) ==> self@[k] <= 9999
    }

    /// An empty registry.
    pub fn new() -> (r: Self)
        ensures
            r@ == Map::<u64, u32>::empty(),
            r.wf(),
    {
        SeriesYearRegistry { map: HashMap::new() }
    }

    /// Resolve the canonical year for the series hashed to `key`. The first
    /// observation for a key records its year; later ones return the
    /// recorded year unchanged, whatever they observe.
    pub fn resolve_year(&mut self, key: u64, observed: u32) -> (r: u32)
        requires
            old(self).wf(),
            observed <= 9999,
        ensures
            (final(self)@, r) == resolve_year_spec(old(self)@, key, observed),
            final(self).wf(),
            r <= 9999,
    {
        let existing: Option<u32> = match self.map.get(&key) {
            Some(y) => Some(*y),
            None => None,
        };
        match existing {
            Some(y) => y,
            None => {
                self.map.insert(key, observed);
                proof {
                    assert forall|k: u64| self@.contains_key(k) implies self@[k] <= 9999 by {
                        if k != key {
                            assert(old(self)@.contains_key(k));
                        }
                    }
                }
                observed
            },
        }
    }
}

/// The first-seen year wins: resolving a fresh series records its year, and
/// a second resolution of the same series with any other year still returns
/// the first, leaving the registry unchanged.
pub proof fn lemma_first_year_wins(m: Map<u64, u32>, key: u64, y1: u32, y2: u32)
    requires
        !m.contains_key(key),
    ensures
        ({
            let (m1, r1) = resolve_year_spec(m, key, y1);
            let (m2, r2) = resolve_year_spec(m1, key, y2);
            r1 == y1 && r2 == y1 && m2 == m1
        }),
{
}

} // verus!
