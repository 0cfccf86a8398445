//! The character reference decoder.
//!
//! Named references resolve through a fixed table of the built-in XML
//! entities (the table maps a name to one or two scalar values, so legacy
//! multi-codepoint names could be added without changing its shape).
//! Numeric references are decoded from decimal or hexadecimal digit runs;
//! a value that lands on a disallowed codepoint is replaced by U+FFFD and
//! flagged so the caller can report a parse error.

use vstd::prelude::*;
use crate::util::chars_of;
use crate::util::eq_str;

verus! {

/// The expansion of a named reference, or `None` when the name is unknown.
pub open spec fn named_expansion(name: Seq<char>) -> Option<Seq<char>> {
    if name == "amp"@ {
        Some(seq!['&'])
    } else if name == "lt"@ {
        Some(seq!['<'])
    } else if name == "gt"@ {
        Some(seq!['>'])
    } else if name == "quot"@ {
        Some(seq!['"'])
    } else if name == "apos"@ {
        Some(seq!['\''])
    } else {
        None
    }
}

/// Resolves a named reference against the built-in table.
pub fn lookup_named(name: &Vec<char>) -> (r: Option<Vec<char>>)
    ensures
        match r {
            Some(v) => named_expansion(name@) == Some(v@),
            None => named_expansion(name@) is None,
        },
{
    if eq_str(name, "amp") {
        let r = chars_of("&");
        proof {
            reveal_strlit("&");
            assert(r@ =~= seq!['&']);
        }
        Some(r)
    } else if eq_str(name, "lt") {
        let r = chars_of("<");
        proof {
            reveal_strlit("<");
            assert(r@ =~= seq!['<']);
        }
        Some(r)
    } else if eq_str(name, "gt") {
        let r = chars_of(">");
        proof {
            reveal_strlit(">");
            assert(r@ =~= seq!['>']);
        }
        Some(r)
    } else if eq_str(name, "quot") {
        let r = chars_of("\"");
        proof {
            reveal_strlit("\"");
            assert(r@ =~= seq!['"']);
        }
        Some(r)
    } else if eq_str(name, "apos") {
        let r = chars_of("'");
        proof {
            reveal_strlit("'");
            assert(r@ =~= seq!['\'']);
        }
        Some(r)
    } else {
        None
    }
}

/// True of scalar values a numeric reference may legally denote: not NUL,
/// not a C0 control other than whitespace, not a surrogate, not a
/// noncharacter, and at most U+10FFFF.
pub open spec fn scalar_allowed(v: u32) -> bool {
    &&& v != 0
    &&& !(v < 0x20 && v != 9 && v != 0xA && v != 0xD)
    &&& !(0xD800 <= v && v <= 0xDFFF)
    &&& v <= 0x10FFFF
    &&& !(0xFDD0 <= v && v <= 0xFDEF)
    &&& v % 0x10000 < 0xFFFE
}

/// The character whose scalar value is `v` (meaningful when `v` is a
/// valid scalar value outside the surrogate range).
pub open spec fn char_from_scalar(v: u32) -> char {
    v as char
}

/// What a numeric reference with value `v` decodes to: the denoted
/// character, or U+FFFD together with an error flag when `v` is disallowed.
pub open spec fn numeric_expansion(v: u32) -> (char, bool) {
    if scalar_allowed(v) {
        (char_from_scalar(v), false)
    } else {
        ('\u{fffd}', true)
    }
}

/// Two characters with the same scalar value are the same character.
proof fn lemma_char_injective(a: char, b: char)
    requires
        a as u32 == b as u32,
    ensures
        a == b,
{
}

/// Relies on `char::from_u32` of std: it returns `Some` exactly on values
/// that are not surrogates and not above U+10FFFF, and the returned
/// character has the given scalar value.
pub assume_specification[ char::from_u32 ](v: u32) -> (r: Option<char>)
    ensures
        (v < 0xD800 || (0xE000 <= v && v <= 0x10FFFF)) <==> r is Some,
        r matches Some(c) ==> c as u32 == v,
;

/// Decodes a numeric reference value, substituting U+FFFD for disallowed
/// codepoints; the flag reports whether a substitution happened.
pub fn decode_numeric(v: u32) -> (r: (char, bool))
    ensures
        r == numeric_expansion(v),
{
    let allowed = v != 0 && !(v < 0x20 && v != 9 && v != 0xA && v != 0xD) && !(0xD800 <= v
        && v <= 0xDFFF) && v <= 0x10FFFF && !(0xFDD0 <= v && v <= 0xFDEF) && v % 0x10000 < 0xFFFE;
    if allowed {
        match char::from_u32(v) {
            Some(c) => {
                proof {
                    assert((v as char) as u32 == v);
                    lemma_char_injective(c, v as char);
                }
                (c, false)
            },
            None => {
                proof {
                    assert(false);
                }
                ('\u{fffd}', true)
            },
        }
    } else {
        ('\u{fffd}', true)
    }
}

} // verus!
