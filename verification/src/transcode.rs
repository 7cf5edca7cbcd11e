//! Text transcoding: applying a derived table to whole texts.
//!
//! Conversion substitutes character by character, in original order, leaving
//! characters without an entry unchanged, so the output always has exactly as
//! many characters as the input. A chunked variant splits long texts into
//! contiguous pieces, converts the pieces independently and concatenates the
//! results in original order; its output equals the one-piece conversion for
//! every input.

use vstd::arithmetic::div_mod::lemma_fundamental_div_mod;
use vstd::prelude::*;
use vstd::string::StrSliceExecFns;

use crate::assoc::unique_keys;
use crate::assoc::unique_values;
use crate::charmap::apply_map;
use crate::charmap::compose_maps;
use crate::charmap::CharMap;
use crate::keymaps::lemma_inverse_pair_to_seed;
use crate::keymaps::lemma_inverse_pairs;
use crate::keymaps::seed_pairs;
use crate::keymaps::table_wf;
use crate::keymaps::KeymapStore;
use crate::layouts::LayoutCode;

verus! {

/// Texts with more characters than this are converted in chunks.
pub const CHUNK_THRESHOLD: usize = 1000;

/// Number of contiguous chunks a long text is split into.
pub const WORKER_COUNT: usize = 4;

/// A text converted through one substitution table, character by character:
/// mapped characters are substituted, all others pass through unchanged.
pub open spec fn convert_seq(t: Seq<char>, m: Map<char, char>) -> Seq<char> {
    t.map_values(|c: char| apply_map(m, c))
}

/// What conversion returns: the text itself for a same-layout request or
/// when the table holds no entry for the pair, and otherwise the text
/// substituted through the pair's table.
pub open spec fn spec_convert(
    t: Seq<char>,
    from: LayoutCode,
    to: LayoutCode,
    tbl: Map<(LayoutCode, LayoutCode), CharMap>,
) -> Seq<char> {
    if from == to {
        t
    } else if tbl.contains_key((from, to)) {
        convert_seq(t, tbl[(from, to)]@)
    } else {
        t
    }
}

/// Relies on String::push: appends the character to the end of the string.
#[verifier::external_body]
fn push_char(s: &mut String, c: char)
    ensures
        final(s)@ == old(s)@.push(c),
{
    s.push(c);
}

/// Converts a text through one substitution table, character by character,
/// in original order.
fn convert_with_map(text: String, m: &CharMap) -> (r: String)
    requires
        m.wf(),
    ensures
        r@ == convert_seq(text@, m@),
{
    let s = text.as_str();
    let n = s.unicode_len();
    let mut out = String::new();
    let mut i: usize = 0;
    while i < n
        invariant
            m.wf(),
            n == text@.len(),
            s@ == text@,
            i <= n,
            out@ == convert_seq(text@.take(i as int), m@),
        decreases n - i,
    {
        let c = s.get_char(i);
        let d = m.apply(c);
        push_char(&mut out, d);
        proof {
            assert(convert_seq(text@.take(i + 1 as int), m@) =~= convert_seq(
                text@.take(i as int),
                m@,
            ).push(apply_map(m@, text@[i as int])));
        }
        i = i + 1;
    }
    proof {
        assert(text@.take(n as int) =~= text@);
    }
    out
}

/// Converts a text from one layout to another: every character with an entry
/// in the pair's table is substituted, every other character passes through,
/// and the character count never changes. A same-layout request, or a pair
/// the store does not hold, returns the text unchanged.
pub fn convert_text(text: String, from: LayoutCode, to: LayoutCode, keymaps: &KeymapStore) -> (r:
    String)
    requires
        keymaps.wf(),
    ensures
        r@ == spec_convert(text@, from, to, keymaps@),
        r@.len() == text@.len(),
        from == to ==> r@ == text@,
{
    if from == to {
        return text;
    }
    match keymaps.lookup(from, to) {
        None => text,
        Some(m) => convert_with_map(text, m),
    }
}

/// Converts a text in contiguous chunks: a text of at most `CHUNK_THRESHOLD`
/// characters is converted in one piece; a longer text is split at character
/// indices into `WORKER_COUNT` contiguous chunks (the last absorbing the
/// remainder), the chunks are converted independently, and the results are
/// concatenated in original chunk order. The result always equals the
/// one-piece conversion of the whole text.
pub fn parallel_convert_text(
    text: String,
    from: LayoutCode,
    to: LayoutCode,
    keymaps: &KeymapStore,
) -> (r: String)
    requires
        keymaps.wf(),
    ensures
        r@ == spec_convert(text@, from, to, keymaps@),
        r@.len() == text@.len(),
        from == to ==> r@ == text@,
{
    if from == to {
        return text;
    }
    match keymaps.lookup(from, to) {
        None => text,
        Some(m) => {
            let s = text.as_str();
            let n = s.unicode_len();
            if n > CHUNK_THRESHOLD {
                let chunk = n / WORKER_COUNT;
                proof {
                    lemma_fundamental_div_mod(n as int, WORKER_COUNT as int);
                    assert(4 * chunk <= n);
                }
                let c0 = s.substring_char(0, chunk).to_owned();
                let c1 = s.substring_char(chunk, 2 * chunk).to_owned();
                let c2 = s.substring_char(2 * chunk, 3 * chunk).to_owned();
                let c3 = s.substring_char(3 * chunk, n).to_owned();
                let r0 = convert_with_map(c0, m);
                let r1 = convert_with_map(c1, m);
                let r2 = convert_with_map(c2, m);
                let r3 = convert_with_map(c3, m);
                let mut out = r0;
                out.append(r1.as_str());
                out.append(r2.as_str());
                out.append(r3.as_str());
                proof {
                    assert(out@ =~= convert_seq(text@, m@));
                }
                out
            } else {
                convert_with_map(text, m)
            }
        },
    }
}

/// Unmapped-character passthrough: a text none of whose characters has an
/// entry in the table for the requested pair converts to itself.
pub proof fn lemma_unmapped_passthrough(
    t: Seq<char>,
    from: LayoutCode,
    to: LayoutCode,
    tbl: Map<(LayoutCode, LayoutCode), CharMap>,
)
    requires
        tbl.contains_key((from, to)) ==> forall|i: int|
            0 <= i < t.len() ==> !(#[trigger] tbl[(from, to)]@.contains_key(t[i])),
    ensures
        spec_convert(t, from, to, tbl) == t,
{
    if from != to && tbl.contains_key((from, to)) {
        assert(convert_seq(t, tbl[(from, to)]@) =~= t);
    }
}

/// Round trip out through a hub row and back: text drawn from the keys of
/// an injective hub-to-peripheral table converts to the peripheral layout
/// and back to exactly itself.
pub proof fn lemma_round_trip_hub_out(
    t: Seq<char>,
    l: LayoutCode,
    tbl: Map<(LayoutCode, LayoutCode), CharMap>,
)
    requires
        table_wf(tbl),
        l != LayoutCode::Qwerty,
        unique_keys(seed_pairs(l)),
        unique_values(seed_pairs(l)),
        forall|i: int|
            0 <= i < t.len() ==> (#[trigger] tbl[(LayoutCode::Qwerty, l)]@.contains_key(t[i])),
    ensures
        spec_convert(spec_convert(t, LayoutCode::Qwerty, l, tbl), l, LayoutCode::Qwerty, tbl) == t,
{
    let m1 = tbl[(LayoutCode::Qwerty, l)]@;
    let m2 = tbl[(l, LayoutCode::Qwerty)]@;
    let u = spec_convert(t, LayoutCode::Qwerty, l, tbl);
    lemma_inverse_pairs(tbl, l);
    assert forall|i: int| 0 <= i < t.len() implies apply_map(m2, apply_map(m1, t[i]))
        == t[i] by {
        let c = t[i];
        let v = m1[c];
        assert(m1.contains_pair(c, v));
        assert(m2.contains_pair(v, c));
    }
    assert(spec_convert(u, l, LayoutCode::Qwerty, tbl) =~= t);
}

/// Round trip in through a peripheral-to-hub row and back: text drawn from
/// the keys of the peripheral-to-hub table converts to the hub layout and
/// back to exactly itself, whether or not the seed is injective.
pub proof fn lemma_round_trip_hub_in(
    t: Seq<char>,
    l: LayoutCode,
    tbl: Map<(LayoutCode, LayoutCode), CharMap>,
)
    requires
        table_wf(tbl),
        l != LayoutCode::Qwerty,
        unique_keys(seed_pairs(l)),
        forall|i: int|
            0 <= i < t.len() ==> (#[trigger] tbl[(l, LayoutCode::Qwerty)]@.contains_key(t[i])),
    ensures
        spec_convert(spec_convert(t, l, LayoutCode::Qwerty, tbl), LayoutCode::Qwerty, l, tbl) == t,
{
    let m1 = tbl[(l, LayoutCode::Qwerty)]@;
    let m2 = tbl[(LayoutCode::Qwerty, l)]@;
    let u = spec_convert(t, l, LayoutCode::Qwerty, tbl);
    assert forall|i: int| 0 <= i < t.len() implies apply_map(m2, apply_map(m1, t[i]))
        == t[i] by {
        let c = t[i];
        let v = m1[c];
        assert(m1.contains_pair(c, v));
        lemma_inverse_pair_to_seed(tbl, l, c, v);
        assert(m2.contains_pair(v, c));
    }
    assert(spec_convert(u, LayoutCode::Qwerty, l, tbl) =~= t);
}

/// Round trip between two distinct peripheral layouts: text drawn from the
/// keys of the source's to-hub table converts to the target layout and back
/// to exactly itself, provided the target's seed is injective and each
/// character's hub image has an entry in the hub-to-target table. A
/// character whose hub image the target row does not cover passes through
/// that row unchanged and need not return.
pub proof fn lemma_round_trip_peripheral(
    t: Seq<char>,
    a: LayoutCode,
    b: LayoutCode,
    tbl: Map<(LayoutCode, LayoutCode), CharMap>,
)
    requires
        table_wf(tbl),
        a != LayoutCode::Qwerty,
        b != LayoutCode::Qwerty,
        a != b,
        unique_keys(seed_pairs(a)),
        unique_keys(seed_pairs(b)),
        unique_values(seed_pairs(b)),
        forall|i: int|
            0 <= i < t.len() ==> (#[trigger] tbl[(a, LayoutCode::Qwerty)]@.contains_key(t[i]))
                && tbl[(LayoutCode::Qwerty, b)]@.contains_key(
                tbl[(a, LayoutCode::Qwerty)]@[t[i]],
            ),
    ensures
        spec_convert(spec_convert(t, a, b, tbl), b, a, tbl) == t,
{
    let m_a_hub = tbl[(a, LayoutCode::Qwerty)]@;
    let m_hub_a = tbl[(LayoutCode::Qwerty, a)]@;
    let m_b_hub = tbl[(b, LayoutCode::Qwerty)]@;
    let m_hub_b = tbl[(LayoutCode::Qwerty, b)]@;
    let m_ab = tbl[(a, b)]@;
    let m_ba = tbl[(b, a)]@;
    let u = spec_convert(t, a, b, tbl);
    lemma_inverse_pairs(tbl, b);
    assert(m_ab == compose_maps(m_a_hub, m_hub_b));
    assert(m_ba == compose_maps(m_b_hub, m_hub_a));
    assert forall|i: int| 0 <= i < t.len() implies apply_map(m_ba, apply_map(m_ab, t[i]))
        == t[i] by {
        let c = t[i];
        let v = m_a_hub[c];
        let w = m_hub_b[v];
        assert(m_a_hub.contains_key(c));
        assert(m_hub_b.contains_key(v));
        assert(m_ab[c] == w);
        assert(m_hub_b.contains_pair(v, w));
        assert(m_b_hub.contains_pair(w, v));
        assert(m_ba[w] == apply_map(m_hub_a, v));
        assert(m_a_hub.contains_pair(c, v));
        lemma_inverse_pair_to_seed(tbl, a, c, v);
        assert(m_hub_a.contains_pair(v, c));
    }
    assert(spec_convert(u, b, a, tbl) =~= t);
}

} // verus!
