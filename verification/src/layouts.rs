//! The registry of supported keyboard layouts.
//!
//! Qwerty is the hub layout: the authored substitution tables run from it to
//! each peripheral layout, and every other pair is derived through it.

use vstd::prelude::*;
use vstd::string::StrSliceExecFns;

verus! {

/// One supported keyboard layout. Qwerty is the hub.
#[derive(Clone, Copy, PartialEq, Eq, Structural, Debug)]
pub enum LayoutCode {
    Dvorak,
    Qwerty,
    Colemak,
    Russian,
}

/// Failure of layout-name parsing: the supplied name matches no supported
/// layout. Carries the offending name for diagnostics.
#[derive(Debug)]
pub struct UnknownLayout {
    pub name: String,
}

/// An ASCII uppercase letter.
pub open spec fn is_ascii_upper(c: char) -> bool {
    65 <= c as int <= 90
}

/// Character equality up to ASCII case: equal outright, or the same letter
/// with one side uppercase and the other lowercase.
pub open spec fn chars_eq_ignore_ascii_case(a: char, b: char) -> bool {
    ||| a == b
    ||| (is_ascii_upper(a) && a as int + 32 == b as int)
    ||| (is_ascii_upper(b) && b as int + 32 == a as int)
}

/// Two texts match as layout names: equal length and ASCII-case-insensitive
/// equality at every position.
pub open spec fn name_matches(s: Seq<char>, t: Seq<char>) -> bool {
    s.len() == t.len() && (forall|i: int|
        0 <= i < s.len() ==> chars_eq_ignore_ascii_case(s[i], t[i]))
}

/// The layout a name denotes, matching case-insensitively against the fixed
/// set of supported names, or `None` when it denotes none.
pub open spec fn spec_parse_layout(s: Seq<char>) -> Option<LayoutCode> {
    if name_matches(s, "dvorak"@) {
        Some(LayoutCode::Dvorak)
    } else if name_matches(s, "qwerty"@) {
        Some(LayoutCode::Qwerty)
    } else if name_matches(s, "colemak"@) {
        Some(LayoutCode::Colemak)
    } else if name_matches(s, "russian"@) {
        Some(LayoutCode::Russian)
    } else {
        None
    }
}

/// Compares two texts as layout names: ASCII-case-insensitively,
/// position by position.
fn eq_ignore_ascii_case(s: &str, t: &str) -> (b: bool)
    ensures
        b == name_matches(s@, t@),
{
    let n = s.unicode_len();
    if n != t.unicode_len() {
        return false;
    }
    let mut i: usize = 0;
    while i < n
        invariant
            n == s@.len(),
            n == t@.len(),
            i <= n,
            forall|j: int| 0 <= j < i ==> chars_eq_ignore_ascii_case(s@[j], t@[j]),
        decreases n - i,
    {
        let a = s.get_char(i);
        let b = t.get_char(i);
        let ok = a == b || (a as u32 >= 65 && a as u32 <= 90 && a as u32 + 32 == b as u32) || (b
            as u32 >= 65 && b as u32 <= 90 && b as u32 + 32 == a as u32);
        proof {
            assert(ok == chars_eq_ignore_ascii_case(s@[i as int], t@[i as int]));
        }
        if !ok {
            return false;
        }
        i = i + 1;
    }
    true
}

impl LayoutCode {
    /// Parses an external layout name, case-insensitively, into a layout
    /// identifier; an unrecognized name yields `UnknownLayout` carrying the
    /// name, and nothing else is consulted.
    pub fn from_str(input: &str) -> (r: Result<LayoutCode, UnknownLayout>)
        ensures
            match r {
                Ok(code) => spec_parse_layout(input@) == Some(code),
                Err(e) => spec_parse_layout(input@) is None && e.name@ == input@,
            },
    {
        if eq_ignore_ascii_case(input, "dvorak") {
            Ok(LayoutCode::Dvorak)
        } else if eq_ignore_ascii_case(input, "qwerty") {
            Ok(LayoutCode::Qwerty)
        } else if eq_ignore_ascii_case(input, "colemak") {
            Ok(LayoutCode::Colemak)
        } else if eq_ignore_ascii_case(input, "russian") {
            Ok(LayoutCode::Russian)
        } else {
            Err(UnknownLayout { name: input.to_owned() })
        }
    }
}

} // verus!
