//! The derived table of substitution maps.
//!
//! From the three authored seed tables (hub to peripheral), construction
//! derives the complete set of ordered-pair tables: the seed rows themselves,
//! their functional inverses (peripheral to hub), and a hub-mediated composite
//! for every ordered pair of distinct peripherals. The finished table holds an
//! entry for every ordered pair of distinct layouts and none for a pair of
//! equal layouts, and is never mutated afterwards.

use vstd::prelude::*;

use crate::assoc::lemma_map_of_contains_key;
use crate::assoc::lemma_map_of_contains_pair;
use crate::assoc::lemma_map_of_index;
use crate::assoc::lemma_map_of_pair_exists;
use crate::assoc::lemma_map_of_push;
use crate::assoc::map_of;
use crate::assoc::unique_keys;
use crate::assoc::unique_values;
use crate::charmap::combine_maps;
use crate::charmap::compose_maps;
use crate::charmap::invert_map;
use crate::charmap::swapped_pairs;
use crate::charmap::CharMap;
use crate::layouts::LayoutCode;
use crate::seeds::colemak_pairs;
use crate::seeds::dvorak_pairs;
use crate::seeds::lemma_colemak_seed_keys_distinct;
use crate::seeds::lemma_dvorak_seed_injective;
use crate::seeds::lemma_russian_seed_injective;
use crate::seeds::qwerty_to_colemak;
use crate::seeds::qwerty_to_dvorak;
use crate::seeds::qwerty_to_russian;
use crate::seeds::russian_pairs;

verus! {

/// The table of substitution maps, keyed by ordered layout pair
/// (source layout, target layout).
pub struct KeymapStore {
    pub entries: Vec<((LayoutCode, LayoutCode), CharMap)>,
}

impl View for KeymapStore {
    type V = Map<(LayoutCode, LayoutCode), CharMap>;

    open spec fn view(&self) -> Map<(LayoutCode, LayoutCode), CharMap> {
        map_of(self.entries@)
    }
}

/// The authored seed pairs from the hub to a peripheral layout.
pub open spec fn seed_pairs(l: LayoutCode) -> Seq<(char, char)> {
    match l {
        LayoutCode::Dvorak => dvorak_pairs(),
        LayoutCode::Colemak => colemak_pairs(),
        LayoutCode::Russian => russian_pairs(),
        LayoutCode::Qwerty => Seq::empty(),
    }
}

/// Every authored seed table has pairwise-distinct keys, so each denotes
/// exactly its listed pairs.
pub open spec fn seeds_well_formed() -> bool {
    &&& unique_keys(dvorak_pairs())
    &&& unique_keys(colemak_pairs())
    &&& unique_keys(russian_pairs())
}

/// The completed table: one entry for every ordered pair of distinct
/// layouts and none for equal pairs; hub rows are exactly the seeds; each
/// peripheral-to-hub row holds the seed row's pairs swapped (the later entry
/// winning where a seed value repeats); and each peripheral-to-peripheral
/// row is the hub-mediated composite of its two hub rows.
pub open spec fn table_wf(t: Map<(LayoutCode, LayoutCode), CharMap>) -> bool {
    &&& forall|p: (LayoutCode, LayoutCode)| t.contains_key(p) ==> (#[trigger] t[p]).wf()
    &&& forall|a: LayoutCode, b: LayoutCode| #[trigger] t.contains_key((a, b)) <==> a != b
    &&& forall|l: LayoutCode|
        l != LayoutCode::Qwerty ==> (#[trigger] t[(LayoutCode::Qwerty, l)])@ == map_of(
            seed_pairs(l),
        )
    &&& forall|l: LayoutCode|
        l != LayoutCode::Qwerty ==> (#[trigger] t[(l, LayoutCode::Qwerty)])@ == map_of(
            swapped_pairs(seed_pairs(l)),
        )
    &&& forall|a: LayoutCode, b: LayoutCode|
        a != LayoutCode::Qwerty && b != LayoutCode::Qwerty && a != b ==> (#[trigger] t[(a, b)])@
            == compose_maps(t[(a, LayoutCode::Qwerty)]@, t[(LayoutCode::Qwerty, b)]@)
}

impl KeymapStore {
    /// The stored pair keys are pairwise distinct and every stored map is
    /// well-formed.
    pub open spec fn wf(&self) -> bool {
        &&& unique_keys(self.entries@)
        &&& forall|i: int| 0 <= i < self.entries@.len() ==> (#[trigger] self.entries@[i]).1.wf()
    }

    /// Returns the table for an ordered layout pair, or `None` when the pair
    /// is not materialized — in particular for a pair of equal layouts, which
    /// every caller treats as the identity conversion.
    pub fn lookup(&self, from: LayoutCode, to: LayoutCode) -> (r: Option<&CharMap>)
        requires
            self.wf(),
        ensures
            match r {
                Some(m) => self@.contains_key((from, to)) && *m == self@[(from, to)] && m.wf(),
                None => !self@.contains_key((from, to)),
            },
    {
        let n = self.entries.len();
        let mut i: usize = 0;
        while i < n
            invariant
                self.wf(),
                n == self.entries.len(),
                i <= n,
                forall|j: int| 0 <= j < i ==> self.entries@[j].0 != (from, to),
            decreases n - i,
        {
            if self.entries[i].0.0 == from && self.entries[i].0.1 == to {
                proof {
                    assert(self.entries@[i as int].0 == (from, to));
                    lemma_map_of_index(self.entries@, i as int);
                }
                return Some(&self.entries[i].1);
            }
            proof {
                assert(self.entries@[i as int].0 != (from, to));
            }
            i = i + 1;
        }
        proof {
            lemma_map_of_contains_key(self.entries@, (from, to));
        }
        None
    }

    /// Adds a table under a pair key not yet present.
    fn insert_entry(&mut self, from: LayoutCode, to: LayoutCode, m: CharMap)
        requires
            old(self).wf(),
            !old(self)@.contains_key((from, to)),
            m.wf(),
        ensures
            final(self).wf(),
            final(self)@ == old(self)@.insert((from, to), m),
    {
        proof {
            lemma_map_of_contains_key(self.entries@, (from, to));
            lemma_map_of_push(self.entries@, ((from, to), m));
        }
        self.entries.push(((from, to), m));
    }
}

/// Every table a well-formed store's view holds is well-formed.
pub proof fn lemma_store_values_wf(s: &KeymapStore)
    requires
        s.wf(),
    ensures
        forall|p: (LayoutCode, LayoutCode)| s@.contains_key(p) ==> (#[trigger] s@[p]).wf(),
{
    assert forall|p: (LayoutCode, LayoutCode)| s@.contains_key(p) implies (#[trigger] s@[p]).wf() by {
        lemma_map_of_contains_key(s.entries@, p);
        let i = choose|i: int| 0 <= i < s.entries@.len() && s.entries@[i].0 == p;
        lemma_map_of_index(s.entries@, i);
    }
}

/// Builds the functional inverse of the stored hub-to-`l` row, the later
/// entry winning where a value repeats.
fn build_inverse(keymaps: &KeymapStore, l: LayoutCode) -> (r: CharMap)
    requires
        keymaps.wf(),
        keymaps@.contains_key((LayoutCode::Qwerty, l)),
    ensures
        r.wf(),
        r@ == map_of(swapped_pairs(keymaps@[(LayoutCode::Qwerty, l)].entries@)),
{
    match keymaps.lookup(LayoutCode::Qwerty, l) {
        Some(m) => invert_map(m),
        None => {
            proof {
                assert(false);
            }
            CharMap { entries: Vec::new() }
        },
    }
}

/// Builds the composite of the stored `a`-to-hub row with the stored
/// hub-to-`b` row.
fn build_composite(keymaps: &KeymapStore, a: LayoutCode, b: LayoutCode) -> (r: CharMap)
    requires
        keymaps.wf(),
        keymaps@.contains_key((a, LayoutCode::Qwerty)),
        keymaps@.contains_key((LayoutCode::Qwerty, b)),
    ensures
        r.wf(),
        r@ == compose_maps(
            keymaps@[(a, LayoutCode::Qwerty)]@,
            keymaps@[(LayoutCode::Qwerty, b)]@,
        ),
{
    let first = match keymaps.lookup(a, LayoutCode::Qwerty) {
        Some(m) => m,
        None => {
            proof {
                assert(false);
            }
            &keymaps.entries[0].1
        },
    };
    let second = match keymaps.lookup(LayoutCode::Qwerty, b) {
        Some(m) => m,
        None => {
            proof {
                assert(false);
            }
            &keymaps.entries[0].1
        },
    };
    combine_maps(first, second)
}

/// Derives the peripheral-to-hub rows by inverting each direct
/// hub-to-peripheral row.
pub fn generate_inverse_maps(keymaps: &mut KeymapStore)
    requires
        old(keymaps).wf(),
        old(keymaps)@.contains_key((LayoutCode::Qwerty, LayoutCode::Dvorak)),
        old(keymaps)@.contains_key((LayoutCode::Qwerty, LayoutCode::Colemak)),
        old(keymaps)@.contains_key((LayoutCode::Qwerty, LayoutCode::Russian)),
        !old(keymaps)@.contains_key((LayoutCode::Dvorak, LayoutCode::Qwerty)),
        !old(keymaps)@.contains_key((LayoutCode::Colemak, LayoutCode::Qwerty)),
        !old(keymaps)@.contains_key((LayoutCode::Russian, LayoutCode::Qwerty)),
    ensures
        final(keymaps).wf(),
        forall|p: (LayoutCode, LayoutCode)| #[trigger]
            final(keymaps)@.contains_key(p) <==> (old(keymaps)@.contains_key(p) || p == (
                LayoutCode::Dvorak,
                LayoutCode::Qwerty,
            ) || p == (LayoutCode::Colemak, LayoutCode::Qwerty) || p == (
                LayoutCode::Russian,
                LayoutCode::Qwerty,
            )),
        forall|p: (LayoutCode, LayoutCode)| #[trigger]
            old(keymaps)@.contains_key(p) ==> final(keymaps)@[p] == old(keymaps)@[p],
        final(keymaps)@[(LayoutCode::Dvorak, LayoutCode::Qwerty)]@ == map_of(
            swapped_pairs(old(keymaps)@[(LayoutCode::Qwerty, LayoutCode::Dvorak)].entries@),
        ),
        final(keymaps)@[(LayoutCode::Colemak, LayoutCode::Qwerty)]@ == map_of(
            swapped_pairs(old(keymaps)@[(LayoutCode::Qwerty, LayoutCode::Colemak)].entries@),
        ),
        final(keymaps)@[(LayoutCode::Russian, LayoutCode::Qwerty)]@ == map_of(
            swapped_pairs(old(keymaps)@[(LayoutCode::Qwerty, LayoutCode::Russian)].entries@),
        ),
        final(keymaps)@[(LayoutCode::Dvorak, LayoutCode::Qwerty)].wf(),
        final(keymaps)@[(LayoutCode::Colemak, LayoutCode::Qwerty)].wf(),
        final(keymaps)@[(LayoutCode::Russian, LayoutCode::Qwerty)].wf(),
{
    let inv = build_inverse(keymaps, LayoutCode::Dvorak);
    keymaps.insert_entry(LayoutCode::Dvorak, LayoutCode::Qwerty, inv);
    let inv = build_inverse(keymaps, LayoutCode::Colemak);
    keymaps.insert_entry(LayoutCode::Colemak, LayoutCode::Qwerty, inv);
    let inv = build_inverse(keymaps, LayoutCode::Russian);
    keymaps.insert_entry(LayoutCode::Russian, LayoutCode::Qwerty, inv);
}

/// Derives the composite rows for all ordered pairs of distinct peripheral
/// layouts, chaining each source's to-hub row with the hub's row to the
/// target.
pub fn generate_composite_maps(keymaps: &mut KeymapStore)
    requires
        old(keymaps).wf(),
        old(keymaps)@.contains_key((LayoutCode::Qwerty, LayoutCode::Dvorak)),
        old(keymaps)@.contains_key((LayoutCode::Qwerty, LayoutCode::Colemak)),
        old(keymaps)@.contains_key((LayoutCode::Qwerty, LayoutCode::Russian)),
        old(keymaps)@.contains_key((LayoutCode::Dvorak, LayoutCode::Qwerty)),
        old(keymaps)@.contains_key((LayoutCode::Colemak, LayoutCode::Qwerty)),
        old(keymaps)@.contains_key((LayoutCode::Russian, LayoutCode::Qwerty)),
        !old(keymaps)@.contains_key((LayoutCode::Dvorak, LayoutCode::Colemak)),
        !old(keymaps)@.contains_key((LayoutCode::Dvorak, LayoutCode::Russian)),
        !old(keymaps)@.contains_key((LayoutCode::Colemak, LayoutCode::Dvorak)),
        !old(keymaps)@.contains_key((LayoutCode::Colemak, LayoutCode::Russian)),
        !old(keymaps)@.contains_key((LayoutCode::Russian, LayoutCode::Dvorak)),
        !old(keymaps)@.contains_key((LayoutCode::Russian, LayoutCode::Colemak)),
    ensures
        final(keymaps).wf(),
        forall|p: (LayoutCode, LayoutCode)| #[trigger]
            final(keymaps)@.contains_key(p) <==> (old(keymaps)@.contains_key(p) || (p.0
                != LayoutCode::Qwerty && p.1 != LayoutCode::Qwerty && p.0 != p.1)),
        forall|p: (LayoutCode, LayoutCode)| #[trigger]
            old(keymaps)@.contains_key(p) ==> final(keymaps)@[p] == old(keymaps)@[p],
        forall|a: LayoutCode, b: LayoutCode|
            a != LayoutCode::Qwerty && b != LayoutCode::Qwerty && a != b
                ==> (#[trigger] final(keymaps)@[(a, b)])@ == compose_maps(
                old(keymaps)@[(a, LayoutCode::Qwerty)]@,
                old(keymaps)@[(LayoutCode::Qwerty, b)]@,
            ) && final(keymaps)@[(a, b)].wf(),
{
    let cm = build_composite(keymaps, LayoutCode::Dvorak, LayoutCode::Colemak);
    keymaps.insert_entry(LayoutCode::Dvorak, LayoutCode::Colemak, cm);
    let cm = build_composite(keymaps, LayoutCode::Dvorak, LayoutCode::Russian);
    keymaps.insert_entry(LayoutCode::Dvorak, LayoutCode::Russian, cm);
    let cm = build_composite(keymaps, LayoutCode::Colemak, LayoutCode::Dvorak);
    keymaps.insert_entry(LayoutCode::Colemak, LayoutCode::Dvorak, cm);
    let cm = build_composite(keymaps, LayoutCode::Colemak, LayoutCode::Russian);
    keymaps.insert_entry(LayoutCode::Colemak, LayoutCode::Russian, cm);
    let cm = build_composite(keymaps, LayoutCode::Russian, LayoutCode::Dvorak);
    keymaps.insert_entry(LayoutCode::Russian, LayoutCode::Dvorak, cm);
    let cm = build_composite(keymaps, LayoutCode::Russian, LayoutCode::Colemak);
    keymaps.insert_entry(LayoutCode::Russian, LayoutCode::Colemak, cm);
    proof {
        assert forall|p: (LayoutCode, LayoutCode)|
            keymaps@.contains_key(p) <==> (old(keymaps)@.contains_key(p) || (p.0
                != LayoutCode::Qwerty && p.1 != LayoutCode::Qwerty && p.0 != p.1)) by {
            let (a, b) = p;
            if a != LayoutCode::Qwerty && b != LayoutCode::Qwerty && a != b {
                assert(p == (a, b));
                match (a, b) {
                    (LayoutCode::Dvorak, LayoutCode::Colemak) => {},
                    (LayoutCode::Dvorak, LayoutCode::Russian) => {},
                    (LayoutCode::Colemak, LayoutCode::Dvorak) => {},
                    (LayoutCode::Colemak, LayoutCode::Russian) => {},
                    (LayoutCode::Russian, LayoutCode::Dvorak) => {},
                    (LayoutCode::Russian, LayoutCode::Colemak) => {},
                    _ => {
                        assert(false);
                    },
                }
            }
        }
        assert forall|a: LayoutCode, b: LayoutCode|
            a != LayoutCode::Qwerty && b != LayoutCode::Qwerty && a != b implies (#[trigger] keymaps@[(
            a,
            b,
        )])@ == compose_maps(
            old(keymaps)@[(a, LayoutCode::Qwerty)]@,
            old(keymaps)@[(LayoutCode::Qwerty, b)]@,
        ) && keymaps@[(a, b)].wf() by {
            match (a, b) {
                (LayoutCode::Dvorak, LayoutCode::Colemak) => {},
                (LayoutCode::Dvorak, LayoutCode::Russian) => {},
                (LayoutCode::Colemak, LayoutCode::Dvorak) => {},
                (LayoutCode::Colemak, LayoutCode::Russian) => {},
                (LayoutCode::Russian, LayoutCode::Dvorak) => {},
                (LayoutCode::Russian, LayoutCode::Colemak) => {},
                _ => {
                    assert(false);
                },
            }
        }
    }
}

/// Builds the complete table from the authored seeds: the three hub rows,
/// their inverses, and the six peripheral composites. Returns `None` exactly
/// when some seed table repeats a key (a construction-time defect), so a
/// caller can fail fast at startup rather than serve with a deficient table.
pub fn create_keymaps() -> (r: Option<KeymapStore>)
    ensures
        r is Some <==> seeds_well_formed(),
        match r {
            Some(s) => s.wf() && table_wf(s@),
            None => true,
        },
{
    let dv = qwerty_to_dvorak();
    let co = qwerty_to_colemak();
    let ru = qwerty_to_russian();
    if !dv.keys_are_distinct() {
        return None;
    }
    if !co.keys_are_distinct() {
        return None;
    }
    if !ru.keys_are_distinct() {
        return None;
    }
    let mut store = KeymapStore { entries: Vec::new() };
    proof {
        assert(store@ =~= Map::<(LayoutCode, LayoutCode), CharMap>::empty());
    }
    store.insert_entry(LayoutCode::Qwerty, LayoutCode::Dvorak, dv);
    store.insert_entry(LayoutCode::Qwerty, LayoutCode::Colemak, co);
    store.insert_entry(LayoutCode::Qwerty, LayoutCode::Russian, ru);
    generate_inverse_maps(&mut store);
    generate_composite_maps(&mut store);
    proof {
        lemma_store_values_wf(&store);
        assert forall|a: LayoutCode, b: LayoutCode| store@.contains_key((a, b)) <==> a != b by {
            if a != b {
                match (a, b) {
                    (LayoutCode::Qwerty, _) => {},
                    (_, LayoutCode::Qwerty) => {},
                    _ => {},
                }
            }
        }
        assert forall|l: LayoutCode|
            l != LayoutCode::Qwerty implies (#[trigger] store@[(LayoutCode::Qwerty, l)])@
            == map_of(seed_pairs(l)) by {
            match l {
                LayoutCode::Dvorak => {},
                LayoutCode::Colemak => {},
                LayoutCode::Russian => {},
                LayoutCode::Qwerty => {},
            }
        }
        assert forall|l: LayoutCode|
            l != LayoutCode::Qwerty implies (#[trigger] store@[(l, LayoutCode::Qwerty)])@
            == map_of(swapped_pairs(seed_pairs(l))) by {
            match l {
                LayoutCode::Dvorak => {},
                LayoutCode::Colemak => {},
                LayoutCode::Russian => {},
                LayoutCode::Qwerty => {},
            }
        }
        assert(table_wf(store@));
    }
    Some(store)
}

/// For an injective seed (all values distinct), the derived peripheral-to-
/// hub row is the exact functional inverse of the hub row: it holds (v, k)
/// exactly when the hub row holds (k, v).
pub proof fn lemma_inverse_pairs(
    t: Map<(LayoutCode, LayoutCode), CharMap>,
    l: LayoutCode,
)
    requires
        table_wf(t),
        l != LayoutCode::Qwerty,
        unique_keys(seed_pairs(l)),
        unique_values(seed_pairs(l)),
    ensures
        forall|k: char, v: char| #[trigger]
            t[(l, LayoutCode::Qwerty)]@.contains_pair(v, k) <==> t[(
                LayoutCode::Qwerty,
                l,
            )]@.contains_pair(k, v),
{
    let s = seed_pairs(l);
    let swapped = swapped_pairs(s);
    assert(unique_keys(swapped));
    assert forall|k: char, v: char| #[trigger]
        t[(l, LayoutCode::Qwerty)]@.contains_pair(v, k) <==> t[(
        LayoutCode::Qwerty,
        l,
    )]@.contains_pair(k, v) by {
        lemma_map_of_contains_pair(s, k, v);
        lemma_map_of_contains_pair(swapped, v, k);
        if exists|i: int| 0 <= i < s.len() && s[i] == (k, v) {
            let i = choose|i: int| 0 <= i < s.len() && s[i] == (k, v);
            assert(swapped[i] == (v, k));
        }
        if exists|i: int| 0 <= i < swapped.len() && swapped[i] == (v, k) {
            let i = choose|i: int| 0 <= i < swapped.len() && swapped[i] == (v, k);
            assert(s[i] == (k, v));
        }
    }
}

/// The authored seeds are well-formed, so `create_keymaps` always succeeds
/// on them: building the table cannot fail at runtime for the statically
/// supported layouts.
pub proof fn lemma_seeds_well_formed()
    ensures
        seeds_well_formed(),
{
    lemma_dvorak_seed_injective();
    lemma_colemak_seed_keys_distinct();
    lemma_russian_seed_injective();
}

/// Every pair the derived peripheral-to-hub row holds is a swapped pair of
/// the hub row: if the inverse row carries (c, k), the hub row carries
/// (k, c). This direction needs no injectivity.
pub proof fn lemma_inverse_pair_to_seed(
    t: Map<(LayoutCode, LayoutCode), CharMap>,
    l: LayoutCode,
    c: char,
    k: char,
)
    requires
        table_wf(t),
        l != LayoutCode::Qwerty,
        unique_keys(seed_pairs(l)),
        t[(l, LayoutCode::Qwerty)]@.contains_pair(c, k),
    ensures
        t[(LayoutCode::Qwerty, l)]@.contains_pair(k, c),
{
    let s = seed_pairs(l);
    let swapped = swapped_pairs(s);
    lemma_map_of_pair_exists(swapped, c, k);
    let i = choose|i: int| 0 <= i < swapped.len() && swapped[i] == (c, k);
    assert(s[i] == (k, c));
    lemma_map_of_contains_pair(s, k, c);
}

/// Composition correctness: for the hub H and distinct peripherals A and B,
/// every key of the A-to-H table whose image is also a key of the H-to-B
/// table is carried by the composite A-to-B table to that key's image under
/// H-to-B.
pub proof fn lemma_composition_correct(
    t: Map<(LayoutCode, LayoutCode), CharMap>,
    a: LayoutCode,
    b: LayoutCode,
    k: char,
)
    requires
        table_wf(t),
        a != LayoutCode::Qwerty,
        b != LayoutCode::Qwerty,
        a != b,
        t[(a, LayoutCode::Qwerty)]@.contains_key(k),
        t[(LayoutCode::Qwerty, b)]@.contains_key(t[(a, LayoutCode::Qwerty)]@[k]),
    ensures
        t[(a, b)]@.contains_key(k),
        t[(a, b)]@[k] == t[(LayoutCode::Qwerty, b)]@[t[(a, LayoutCode::Qwerty)]@[k]],
{
    assert(t[(a, b)]@ == compose_maps(t[(a, LayoutCode::Qwerty)]@, t[(LayoutCode::Qwerty, b)]@));
}

} // verus!
