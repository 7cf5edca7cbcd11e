//! The authored seed tables.
//!
//! Each function supplies the direct substitution table from the hub layout
//! (Qwerty) to one peripheral layout, covering the lowercase, uppercase and
//! punctuation positions that differ between the two layouts. The pairs are
//! domain facts fixed by the layouts themselves; the spec-level sequences
//! beside the functions are the reference copy of that data, and each
//! function returns exactly its sequence.

use vstd::prelude::*;

use crate::assoc::unique_keys;
use crate::assoc::unique_values;
use crate::charmap::CharMap;

verus! {


pub open spec fn dvorak_pairs() -> Seq<(char, char)> {
    seq![
        ('q', '\''), ('w', ','), ('e', '.'), ('r', 'p'),
        ('t', 'y'), ('y', 'f'), ('u', 'g'), ('i', 'c'),
        ('o', 'r'), ('p', 'l'), ('s', 'o'), ('d', 'e'),
        ('f', 'u'), ('g', 'i'), ('h', 'd'), ('j', 'h'),
        ('k', 't'), ('l', 'n'), ('z', ';'), ('x', 'q'),
        ('c', 'j'), ('v', 'k'), ('b', 'x'), ('n', 'b'),
        (',', 'w'), ('.', 'v'), (';', 's'), ('/', 'z'),
        ('\'', '-'), ('[', '/'), (']', '='), ('-', '['),
        ('=', ']'), ('Q', '"'), ('W', '<'), ('E', '>'),
        ('R', 'P'), ('T', 'Y'), ('Y', 'F'), ('U', 'G'),
        ('I', 'C'), ('O', 'R'), ('P', 'L'), ('S', 'O'),
        ('D', 'E'), ('F', 'U'), ('G', 'I'), ('H', 'D'),
        ('J', 'H'), ('K', 'T'), ('L', 'N'), ('Z', ':'),
        ('X', 'Q'), ('C', 'J'), ('V', 'K'), ('B', 'X'),
        ('N', 'B'), ('<', 'W'), ('>', 'V'), (':', 'S'),
        ('?', 'Z'), ('"', '_'), ('{', '?'), ('}', '+'),
        ('_', '{'), ('+', '}'),
    ]
}

/// The authored substitution table from Qwerty to Dvorak,
/// exactly the pairs of `dvorak_pairs`.
pub fn qwerty_to_dvorak() -> (r: CharMap)
    ensures
        r.entries@ == dvorak_pairs(),
{
    let mut v: Vec<(char, char)> = Vec::new();
    v.push(('q', '\''));
    v.push(('w', ','));
    v.push(('e', '.'));
    v.push(('r', 'p'));
    v.push(('t', 'y'));
    v.push(('y', 'f'));
    v.push(('u', 'g'));
    v.push(('i', 'c'));
    v.push(('o', 'r'));
    v.push(('p', 'l'));
    v.push(('s', 'o'));
    v.push(('d', 'e'));
    v.push(('f', 'u'));
    v.push(('g', 'i'));
    v.push(('h', 'd'));
    v.push(('j', 'h'));
    v.push(('k', 't'));
    v.push(('l', 'n'));
    v.push(('z', ';'));
    v.push(('x', 'q'));
    v.push(('c', 'j'));
    v.push(('v', 'k'));
    v.push(('b', 'x'));
    v.push(('n', 'b'));
    v.push((',', 'w'));
    v.push(('.', 'v'));
    v.push((';', 's'));
    v.push(('/', 'z'));
    v.push(('\'', '-'));
    v.push(('[', '/'));
    v.push((']', '='));
    v.push(('-', '['));
    v.push(('=', ']'));
    v.push(('Q', '"'));
    v.push(('W', '<'));
    v.push(('E', '>'));
    v.push(('R', 'P'));
    v.push(('T', 'Y'));
    v.push(('Y', 'F'));
    v.push(('U', 'G'));
    v.push(('I', 'C'));
    v.push(('O', 'R'));
    v.push(('P', 'L'));
    v.push(('S', 'O'));
    v.push(('D', 'E'));
    v.push(('F', 'U'));
    v.push(('G', 'I'));
    v.push(('H', 'D'));
    v.push(('J', 'H'));
    v.push(('K', 'T'));
    v.push(('L', 'N'));
    v.push(('Z', ':'));
    v.push(('X', 'Q'));
    v.push(('C', 'J'));
    v.push(('V', 'K'));
    v.push(('B', 'X'));
    v.push(('N', 'B'));
    v.push(('<', 'W'));
    v.push(('>', 'V'));
    v.push((':', 'S'));
    v.push(('?', 'Z'));
    v.push(('"', '_'));
    v.push(('{', '?'));
    v.push(('}', '+'));
    v.push(('_', '{'));
    v.push(('+', '}'));
    proof {
        assert(v@ =~= dvorak_pairs());
    }
    CharMap { entries: v }
}

pub open spec fn colemak_pairs() -> Seq<(char, char)> {
    seq![
        ('e', 'f'), ('r', 'p'), ('t', 'g'), ('y', 'j'),
        ('u', 'l'), ('i', 'u'), ('o', 'y'), ('p', ';'),
        ('s', 'r'), ('d', 's'), ('f', 't'), ('g', 'd'),
        ('h', 'h'), ('j', 'n'), ('k', 'e'), ('l', 'i'),
        (';', 'p'), ('\'', '-'), ('-', '\''), ('E', 'F'),
        ('R', 'P'), ('T', 'G'), ('Y', 'J'), ('U', 'L'),
        ('I', 'U'), ('O', 'Y'), ('P', ':'), ('S', 'R'),
        ('D', 'S'), ('F', 'T'), ('G', 'D'), ('H', 'H'),
        ('J', 'N'), ('K', 'E'), ('L', 'I'), (':', 'P'),
        ('"', '_'), ('_', '"'),
    ]
}

/// The authored substitution table from Qwerty to Colemak,
/// exactly the pairs of `colemak_pairs`.
pub fn qwerty_to_colemak() -> (r: CharMap)
    ensures
        r.entries@ == colemak_pairs(),
{
    let mut v: Vec<(char, char)> = Vec::new();
    v.push(('e', 'f'));
    v.push(('r', 'p'));
    v.push(('t', 'g'));
    v.push(('y', 'j'));
    v.push(('u', 'l'));
    v.push(('i', 'u'));
    v.push(('o', 'y'));
    v.push(('p', ';'));
    v.push(('s', 'r'));
    v.push(('d', 's'));
    v.push(('f', 't'));
    v.push(('g', 'd'));
    v.push(('h', 'h'));
    v.push(('j', 'n'));
    v.push(('k', 'e'));
    v.push(('l', 'i'));
    v.push((';', 'p'));
    v.push(('\'', '-'));
    v.push(('-', '\''));
    v.push(('E', 'F'));
    v.push(('R', 'P'));
    v.push(('T', 'G'));
    v.push(('Y', 'J'));
    v.push(('U', 'L'));
    v.push(('I', 'U'));
    v.push(('O', 'Y'));
    v.push(('P', ':'));
    v.push(('S', 'R'));
    v.push(('D', 'S'));
    v.push(('F', 'T'));
    v.push(('G', 'D'));
    v.push(('H', 'H'));
    v.push(('J', 'N'));
    v.push(('K', 'E'));
    v.push(('L', 'I'));
    v.push((':', 'P'));
    v.push(('"', '_'));
    v.push(('_', '"'));
    proof {
        assert(v@ =~= colemak_pairs());
    }
    CharMap { entries: v }
}

pub open spec fn russian_pairs() -> Seq<(char, char)> {
    seq![
        ('q', 'й'), ('w', 'ц'), ('e', 'у'), ('r', 'к'),
        ('t', 'е'), ('y', 'н'), ('u', 'г'), ('i', 'ш'),
        ('o', 'щ'), ('p', 'з'), ('[', 'х'), (']', 'ъ'),
        ('a', 'ф'), ('s', 'ы'), ('d', 'в'), ('f', 'а'),
        ('g', 'п'), ('h', 'р'), ('j', 'о'), ('k', 'л'),
        ('l', 'д'), (';', 'ж'), ('\'', 'э'), ('z', 'я'),
        ('x', 'ч'), ('c', 'с'), ('v', 'м'), ('b', 'и'),
        ('n', 'т'), ('m', 'ь'), (',', 'б'), ('.', 'ю'),
        ('/', '.'), ('Q', 'Й'), ('W', 'Ц'), ('E', 'У'),
        ('R', 'К'), ('T', 'Е'), ('Y', 'Н'), ('U', 'Г'),
        ('I', 'Ш'), ('O', 'Щ'), ('P', 'З'), ('{', 'Х'),
        ('}', 'Ъ'), ('A', 'Ф'), ('S', 'Ы'), ('D', 'В'),
        ('F', 'А'), ('G', 'П'), ('H', 'Р'), ('J', 'О'),
        ('K', 'Л'), ('L', 'Д'), (':', 'Ж'), ('"', 'Э'),
        ('Z', 'Я'), ('X', 'Ч'), ('C', 'С'), ('V', 'М'),
        ('B', 'И'), ('N', 'Т'), ('M', 'Ь'), ('<', 'Б'),
        ('>', 'Ю'), ('?', ','),
    ]
}

/// The authored substitution table from Qwerty to Russian,
/// exactly the pairs of `russian_pairs`.
pub fn qwerty_to_russian() -> (r: CharMap)
    ensures
        r.entries@ == russian_pairs(),
{
    let mut v: Vec<(char, char)> = Vec::new();
    v.push(('q', 'й'));
    v.push(('w', 'ц'));
    v.push(('e', 'у'));
    v.push(('r', 'к'));
    v.push(('t', 'е'));
    v.push(('y', 'н'));
    v.push(('u', 'г'));
    v.push(('i', 'ш'));
    v.push(('o', 'щ'));
    v.push(('p', 'з'));
    v.push(('[', 'х'));
    v.push((']', 'ъ'));
    v.push(('a', 'ф'));
    v.push(('s', 'ы'));
    v.push(('d', 'в'));
    v.push(('f', 'а'));
    v.push(('g', 'п'));
    v.push(('h', 'р'));
    v.push(('j', 'о'));
    v.push(('k', 'л'));
    v.push(('l', 'д'));
    v.push((';', 'ж'));
    v.push(('\'', 'э'));
    v.push(('z', 'я'));
    v.push(('x', 'ч'));
    v.push(('c', 'с'));
    v.push(('v', 'м'));
    v.push(('b', 'и'));
    v.push(('n', 'т'));
    v.push(('m', 'ь'));
    v.push((',', 'б'));
    v.push(('.', 'ю'));
    v.push(('/', '.'));
    v.push(('Q', 'Й'));
    v.push(('W', 'Ц'));
    v.push(('E', 'У'));
    v.push(('R', 'К'));
    v.push(('T', 'Е'));
    v.push(('Y', 'Н'));
    v.push(('U', 'Г'));
    v.push(('I', 'Ш'));
    v.push(('O', 'Щ'));
    v.push(('P', 'З'));
    v.push(('{', 'Х'));
    v.push(('}', 'Ъ'));
    v.push(('A', 'Ф'));
    v.push(('S', 'Ы'));
    v.push(('D', 'В'));
    v.push(('F', 'А'));
    v.push(('G', 'П'));
    v.push(('H', 'Р'));
    v.push(('J', 'О'));
    v.push(('K', 'Л'));
    v.push(('L', 'Д'));
    v.push((':', 'Ж'));
    v.push(('"', 'Э'));
    v.push(('Z', 'Я'));
    v.push(('X', 'Ч'));
    v.push(('C', 'С'));
    v.push(('V', 'М'));
    v.push(('B', 'И'));
    v.push(('N', 'Т'));
    v.push(('M', 'Ь'));
    v.push(('<', 'Б'));
    v.push(('>', 'Ю'));
    v.push(('?', ','));
    proof {
        assert(v@ =~= russian_pairs());
    }
    CharMap { entries: v }
}

/// The Dvorak seed is a permutation table: no key and no value repeats.
#[verifier::rlimit(100)]
pub proof fn lemma_dvorak_seed_injective()
    ensures
        unique_keys(dvorak_pairs()),
        unique_values(dvorak_pairs()),
{
}

/// The Russian seed is a permutation table: no key and no value repeats.
#[verifier::rlimit(100)]
pub proof fn lemma_russian_seed_injective()
    ensures
        unique_keys(russian_pairs()),
        unique_values(russian_pairs()),
{
}

/// The Colemak seed's keys are pairwise distinct. Its values are not: both
/// 'r' and ';' map to 'p' (and 'R' and ':' to 'P'), so its inverse rests on
/// the deterministic later-entry-wins tie-break.
#[verifier::rlimit(100)]
pub proof fn lemma_colemak_seed_keys_distinct()
    ensures
        unique_keys(colemak_pairs()),
{
}

} // verus!
