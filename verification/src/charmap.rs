//! Partial character-substitution tables.
//!
//! A `CharMap` relates single characters to single characters: an entry
//! `(k, v)` reads "the key that produces `k` under the source layout produces
//! `v` under the target layout". A map need not cover any alphabet; characters
//! without an entry are left unchanged by every stage that applies the map
//! (the identity fallback).

use vstd::prelude::*;

use crate::assoc::lemma_map_of_contains_key;
use crate::assoc::lemma_map_of_contains_pair;
use crate::assoc::lemma_map_of_index;
use crate::assoc::lemma_map_of_push;
use crate::assoc::lemma_map_of_update;
use crate::assoc::map_of;
use crate::assoc::unique_keys;
use crate::assoc::unique_values;

verus! {

/// A partial character-to-character substitution table, stored as an
/// association list. Well-formed maps (`wf`) have pairwise-distinct keys, so
/// the list denotes its entries exactly.
pub struct CharMap {
    pub entries: Vec<(char, char)>,
}

impl View for CharMap {
    type V = Map<char, char>;

    open spec fn view(&self) -> Map<char, char> {
        map_of(self.entries@)
    }
}

/// The substitution a table applies to one character: the mapped character
/// where an entry exists, the character itself otherwise.
pub open spec fn apply_map(m: Map<char, char>, c: char) -> char {
    if m.contains_key(c) {
        m[c]
    } else {
        c
    }
}

/// The composite of two tables through an intermediate alphabet: each key of
/// the first table maps to the second table's substitution for its image, so
/// an image without an entry in the second table passes through unchanged.
pub open spec fn compose_maps(m1: Map<char, char>, m2: Map<char, char>) -> Map<char, char> {
    Map::new(|k: char| m1.contains_key(k), |k: char| apply_map(m2, m1[k]))
}

impl CharMap {
    /// The keys of the stored entries are pairwise distinct.
    pub open spec fn wf(&self) -> bool {
        unique_keys(self.entries@)
    }

    /// Looks a character up in the table.
    pub fn get(&self, c: char) -> (r: Option<char>)
        requires
            self.wf(),
        ensures
            match r {
                Some(v) => self@.contains_key(c) && self@[c] == v,
                None => !self@.contains_key(c),
            },
    {
        let n = self.entries.len();
        let mut i: usize = 0;
        while i < n
            invariant
                self.wf(),
                n == self.entries.len(),
                i <= n,
                forall|j: int| 0 <= j < i ==> self.entries@[j].0 != c,
            decreases n - i,
        {
            if self.entries[i].0 == c {
                proof {
                    lemma_map_of_index(self.entries@, i as int);
                }
                return Some(self.entries[i].1);
            }
            i = i + 1;
        }
        proof {
            lemma_map_of_contains_key(self.entries@, c);
        }
        None
    }

    /// Substitutes one character: the table's entry where one exists, the
    /// character itself otherwise.
    pub fn apply(&self, c: char) -> (r: char)
        requires
            self.wf(),
        ensures
            r == apply_map(self@, c),
    {
        match self.get(c) {
            Some(v) => v,
            None => c,
        }
    }

    /// Reports whether the stored entries carry pairwise-distinct keys.
    pub fn keys_are_distinct(&self) -> (b: bool)
        ensures
            b == unique_keys(self.entries@),
    {
        let n = self.entries.len();
        let mut i: usize = 0;
        while i < n
            invariant
                n == self.entries.len(),
                i <= n,
                forall|p: int, q: int| 0 <= p < q < i ==> self.entries@[p].0 != self.entries@[q].0,
            decreases n - i,
        {
            let mut j: usize = 0;
            while j < i
                invariant
                    n == self.entries.len(),
                    j <= i < n,
                    forall|p: int| 0 <= p < j ==> self.entries@[p].0 != self.entries@[i as int].0,
                decreases i - j,
            {
                if self.entries[j].0 == self.entries[i].0 {
                    return false;
                }
                j = j + 1;
            }
            i = i + 1;
        }
        true
    }

}

/// The entries of a table with each pair's key and value swapped.
pub open spec fn swapped_pairs(s: Seq<(char, char)>) -> Seq<(char, char)> {
    s.map_values(|p: (char, char)| (p.1, p.0))
}

/// Finds the position of an entry carrying the given key.
fn find_key(entries: &Vec<(char, char)>, c: char) -> (r: Option<usize>)
    ensures
        match r {
            Some(j) => j < entries@.len() && entries@[j as int].0 == c,
            None => forall|q: int| 0 <= q < entries@.len() ==> entries@[q].0 != c,
        },
{
    let n = entries.len();
    let mut i: usize = 0;
    while i < n
        invariant
            n == entries.len(),
            i <= n,
            forall|q: int| 0 <= q < i ==> entries@[q].0 != c,
        decreases n - i,
    {
        if entries[i].0 == c {
            return Some(i);
        }
        i = i + 1;
    }
    None
}

/// Builds the functional inverse of a table: every entry `(k, v)` of the
/// input yields the entry `(v, k)` of the result. Were two keys to carry the
/// same value, the later entry would win — a deterministic tie-break, since
/// entries are held in authored order. For an injective table (all values
/// distinct) the result holds exactly the swapped pairs.
pub fn invert_map(map: &CharMap) -> (r: CharMap)
    requires
        map.wf(),
    ensures
        r.wf(),
        r@ == map_of(swapped_pairs(map.entries@)),
        unique_values(map.entries@) ==> forall|k: char, v: char|
            map@.contains_pair(k, v) <==> r@.contains_pair(v, k),
{
    let ghost swapped = swapped_pairs(map.entries@);
    let n = map.entries.len();
    let mut out: Vec<(char, char)> = Vec::new();
    let mut i: usize = 0;
    while i < n
        invariant
            map.wf(),
            swapped == swapped_pairs(map.entries@),
            n == map.entries.len(),
            i <= n,
            unique_keys(out@),
            map_of(out@) == map_of(swapped.take(i as int)),
        decreases n - i,
    {
        let e = map.entries[i];
        proof {
            assert(swapped[i as int] == (e.1, e.0));
            assert(swapped.take(i + 1 as int) =~= swapped.take(i as int).push((e.1, e.0)));
            lemma_map_of_push(swapped.take(i as int), (e.1, e.0));
        }
        match find_key(&out, e.1) {
            Some(j) => {
                proof {
                    lemma_map_of_update(out@, j as int, (e.1, e.0));
                }
                out.set(j, (e.1, e.0));
            },
            None => {
                proof {
                    lemma_map_of_push(out@, (e.1, e.0));
                }
                out.push((e.1, e.0));
            },
        }
        i = i + 1;
    }
    let r = CharMap { entries: out };
    proof {
        assert(swapped.take(n as int) =~= swapped);
        if unique_values(map.entries@) {
            assert(unique_keys(swapped));
            assert forall|k: char, v: char|
                map@.contains_pair(k, v) <==> r@.contains_pair(v, k) by {
                lemma_map_of_contains_pair(map.entries@, k, v);
                lemma_map_of_contains_pair(swapped, v, k);
                if exists|i: int| 0 <= i < map.entries@.len() && map.entries@[i] == (k, v) {
                    let i = choose|i: int|
                        0 <= i < map.entries@.len() && map.entries@[i] == (k, v);
                    assert(swapped[i] == (v, k));
                }
                if exists|i: int| 0 <= i < swapped.len() && swapped[i] == (v, k) {
                    let i = choose|i: int| 0 <= i < swapped.len() && swapped[i] == (v, k);
                    assert(map.entries@[i] == (k, v));
                }
            }
        }
    }
    r
}

/// Chains two tables: each key of the first maps to the second table's
/// substitution for its image, and an image the second table does not cover
/// passes through unchanged.
pub fn combine_maps(first: &CharMap, second: &CharMap) -> (r: CharMap)
    requires
        first.wf(),
        second.wf(),
    ensures
        r.wf(),
        r@ == compose_maps(first@, second@),
{
    let n = first.entries.len();
    let mut out: Vec<(char, char)> = Vec::new();
    let mut i: usize = 0;
    while i < n
        invariant
            first.wf(),
            second.wf(),
            n == first.entries.len(),
            i <= n,
            out@.len() == i,
            forall|j: int| 0 <= j < i ==> out@[j] == (
                first.entries@[j].0,
                apply_map(second@, first.entries@[j].1),
            ),
        decreases n - i,
    {
        let e = first.entries[i];
        let w = second.apply(e.1);
        out.push((e.0, w));
        i = i + 1;
    }
    let r = CharMap { entries: out };
    proof {
        assert(unique_keys(r.entries@));
        assert forall|k: char| r@.contains_key(k) == first@.contains_key(k) by {
            lemma_map_of_contains_key(r.entries@, k);
            lemma_map_of_contains_key(first.entries@, k);
            if exists|i: int| 0 <= i < r.entries@.len() && r.entries@[i].0 == k {
                let i = choose|i: int| 0 <= i < r.entries@.len() && r.entries@[i].0 == k;
                assert(first.entries@[i].0 == k);
            }
            if exists|i: int| 0 <= i < first.entries@.len() && first.entries@[i].0 == k {
                let i = choose|i: int| 0 <= i < first.entries@.len() && first.entries@[i].0 == k;
                assert(r.entries@[i].0 == k);
            }
        }
        assert forall|k: char| first@.contains_key(k) implies r@[k] == apply_map(
            second@,
            first@[k],
        ) by {
            lemma_map_of_contains_key(first.entries@, k);
            let i = choose|i: int| 0 <= i < first.entries@.len() && first.entries@[i].0 == k;
            lemma_map_of_index(first.entries@, i);
            lemma_map_of_index(r.entries@, i);
        }
        assert(r@ =~= compose_maps(first@, second@));
    }
    r
}

} // verus!
