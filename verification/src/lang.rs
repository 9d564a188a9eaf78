//! Language codes.
//!
//! Streams carry ISO 639 language tags such as `"en"` or `"eng"`. A [`Lang`]
//! holds a canonical code: a two-letter code where one exists for the
//! language, otherwise the three-letter code itself. Resolution accepts
//! lowercase ASCII codes of two or three letters and maps the common
//! three-letter codes (both bibliographic and terminological forms) to their
//! two-letter equivalents, so that `"eng"` and `"en"` name the same language.

use vstd::prelude::*;

verus! {

/// A resolved language code. Two-letter codes leave the third byte zero.
#[derive(Clone, Copy, Debug, PartialEq, Eq, Structural, Hash)]
pub struct Lang {
    pub b0: u8,
    pub b1: u8,
    pub b2: u8,
}

/// An ASCII lowercase letter.
pub open spec fn lower_alpha(c: char) -> bool {
    'a' <= c && c <= 'z'
}

/// A well-formed language value: two or three lowercase letters.
pub open spec fn lang_wf(l: Lang) -> bool {
    &&& 'a' as u8 <= l.b0 && l.b0 <= 'z' as u8
    &&& 'a' as u8 <= l.b1 && l.b1 <= 'z' as u8
    &&& l.b2 == 0 || ('a' as u8 <= l.b2 && l.b2 <= 'z' as u8)
}

/// A two-letter language value.
pub open spec fn lang2(a: char, b: char) -> Lang {
    Lang { b0: a as u8, b1: b as u8, b2: 0 }
}

/// A three-letter language value.
pub open spec fn lang3(a: char, b: char, c: char) -> Lang {
    Lang { b0: a as u8, b1: b as u8, b2: c as u8 }
}

/// The canonical value of a three-letter code: the two-letter equivalent for
/// the common codes, otherwise the three letters as given.
pub open spec fn spec_norm3(a: char, b: char, c: char) -> Lang {
    if a == 'e' && b == 'n' && c == 'g' {
        lang2('e', 'n')
    } else if a == 'f' && b == 'r' && (c == 'a' || c == 'e') {
        lang2('f', 'r')
    } else if (a == 'd' && b == 'e' && c == 'u') || (a == 'g' && b == 'e' && c == 'r') {
        lang2('d', 'e')
    } else if a == 's' && b == 'p' && c == 'a' {
        lang2('e', 's')
    } else if a == 'i' && b == 't' && c == 'a' {
        lang2('i', 't')
    } else if a == 'p' && b == 'o' && c == 'r' {
        lang2('p', 't')
    } else if a == 'r' && b == 'u' && c == 's' {
        lang2('r', 'u')
    } else if a == 'j' && b == 'p' && c == 'n' {
        lang2('j', 'a')
    } else if a == 'k' && b == 'o' && c == 'r' {
        lang2('k', 'o')
    } else if (a == 'z' && b == 'h' && c == 'o') || (a == 'c' && b == 'h' && c == 'i') {
        lang2('z', 'h')
    } else if (a == 'n' && b == 'l' && c == 'd') || (a == 'd' && b == 'u' && c == 't') {
        lang2('n', 'l')
    } else if a == 's' && b == 'w' && c == 'e' {
        lang2('s', 'v')
    } else if a == 'd' && b == 'a' && c == 'n' {
        lang2('d', 'a')
    } else if a == 'f' && b == 'i' && c == 'n' {
        lang2('f', 'i')
    } else if a == 'n' && b == 'o' && c == 'r' {
        lang2('n', 'o')
    } else if a == 'p' && b == 'o' && c == 'l' {
        lang2('p', 'l')
    } else if a == 't' && b == 'u' && c == 'r' {
        lang2('t', 'r')
    } else if a == 'a' && b == 'r' && c == 'a' {
        lang2('a', 'r')
    } else if a == 'h' && b == 'i' && c == 'n' {
        lang2('h', 'i')
    } else if a == 'v' && b == 'i' && c == 'e' {
        lang2('v', 'i')
    } else if a == 't' && b == 'h' && c == 'a' {
        lang2('t', 'h')
    } else if a == 'u' && b == 'k' && c == 'r' {
        lang2('u', 'k')
    } else if (a == 'c' && b == 'e' && c == 's') || (a == 'c' && b == 'z' && c == 'e') {
        lang2('c', 's')
    } else if (a == 'e' && b == 'l' && c == 'l') || (a == 'g' && b == 'r' && c == 'e') {
        lang2('e', 'l')
    } else if a == 'h' && b == 'u' && c == 'n' {
        lang2('h', 'u')
    } else if (a == 'r' && b == 'o' && c == 'n') || (a == 'r' && b == 'u' && c == 'm') {
        lang2('r', 'o')
    } else {
        lang3(a, b, c)
    }
}

/// What resolving a code yields: `None` unless the text is two or three
/// lowercase ASCII letters; three-letter codes are canonicalized.
pub open spec fn spec_iso639(s: Seq<char>) -> Option<Lang> {
    if s.len() == 2 && lower_alpha(s[0]) && lower_alpha(s[1]) {
        Some(lang2(s[0], s[1]))
    } else if s.len() == 3 && lower_alpha(s[0]) && lower_alpha(s[1]) && lower_alpha(s[2]) {
        Some(spec_norm3(s[0], s[1], s[2]))
    } else {
        None
    }
}

/// Is this character an ASCII lowercase letter?
fn is_lower_alpha(c: char) -> (r: bool)
    ensures
        r == lower_alpha(c),
{
    'a' <= c && c <= 'z'
}

impl Lang {
    /// Resolve an ISO 639 code: two or three lowercase ASCII letters, with
    /// the common three-letter codes mapped to their two-letter form.
    /// Anything else yields no language.
    pub fn iso639(code: &str) -> (r: Option<Lang>)
        ensures
            r == spec_iso639(code@),
            r matches Some(l) ==> lang_wf(l),
    {
        let n = code.unicode_len();
        if n == 2 {
            let c0 = code.get_char(0);
            let c1 = code.get_char(1);
            if is_lower_alpha(c0) && is_lower_alpha(c1) {
                Some(Lang { b0: c0 as u8, b1: c1 as u8, b2: 0 })
            } else {
                None
            }
        } else if n == 3 {
            let c0 = code.get_char(0);
            let c1 = code.get_char(1);
            let c2 = code.get_char(2);
            if is_lower_alpha(c0) && is_lower_alpha(c1) && is_lower_alpha(c2) {
                Some(Self::norm3(c0, c1, c2))
            } else {
                None
            }
        } else {
            None
        }
    }

    /// Canonicalize a three-letter code.
    fn norm3(a: char, b: char, c: char) -> (r: Lang)
        requires
            lower_alpha(a),
            lower_alpha(b),
            lower_alpha(c),
        ensures
            r == spec_norm3(a, b, c),
            lang_wf(r),
    {
        if a == 'e' && b == 'n' && c == 'g' {
            Self::two('e', 'n')
        } else if a == 'f' && b == 'r' && (c == 'a' || c == 'e') {
            Self::two('f', 'r')
        } else if (a == 'd' && b == 'e' && c == 'u') || (a == 'g' && b == 'e' && c == 'r') {
            Self::two('d', 'e')
        } else if a == 's' && b == 'p' && c == 'a' {
            Self::two('e', 's')
        } else if a == 'i' && b == 't' && c == 'a' {
            Self::two('i', 't')
        } else if a == 'p' && b == 'o' && c == 'r' {
            Self::two('p', 't')
        } else if a == 'r' && b == 'u' && c == 's' {
            Self::two('r', 'u')
        } else if a == 'j' && b == 'p' && c == 'n' {
            Self::two('j', 'a')
        } else if a == 'k' && b == 'o' && c == 'r' {
            Self::two('k', 'o')
        } else if (a == 'z' && b == 'h' && c == 'o') || (a == 'c' && b == 'h' && c == 'i') {
            Self::two('z', 'h')
        } else if (a == 'n' && b == 'l' && c == 'd') || (a == 'd' && b == 'u' && c == 't') {
            Self::two('n', 'l')
        } else if a == 's' && b == 'w' && c == 'e' {
            Self::two('s', 'v')
        } else if a == 'd' && b == 'a' && c == 'n' {
            Self::two('d', 'a')
        } else if a == 'f' && b == 'i' && c == 'n' {
            Self::two('f', 'i')
        } else if a == 'n' && b == 'o' && c == 'r' {
            Self::two('n', 'o')
        } else if a == 'p' && b == 'o' && c == 'l' {
            Self::two('p', 'l')
        } else if a == 't' && b == 'u' && c == 'r' {
            Self::two('t', 'r')
        } else if a == 'a' && b == 'r' && c == 'a' {
            Self::two('a', 'r')
        } else if a == 'h' && b == 'i' && c == 'n' {
            Self::two('h', 'i')
        } else if a == 'v' && b == 'i' && c == 'e' {
            Self::two('v', 'i')
        } else if a == 't' && b == 'h' && c == 'a' {
            Self::two('t', 'h')
        } else if a == 'u' && b == 'k' && c == 'r' {
            Self::two('u', 'k')
        } else if (a == 'c' && b == 'e' && c == 's') || (a == 'c' && b == 'z' && c == 'e') {
            Self::two('c', 's')
        } else if (a == 'e' && b == 'l' && c == 'l') || (a == 'g' && b == 'r' && c == 'e') {
            Self::two('e', 'l')
        } else if a == 'h' && b == 'u' && c == 'n' {
            Self::two('h', 'u')
        } else if (a == 'r' && b == 'o' && c == 'n') || (a == 'r' && b == 'u' && c == 'm') {
            Self::two('r', 'o')
        } else {
            Lang { b0: a as u8, b1: b as u8, b2: c as u8 }
        }
    }

    /// A two-letter language value.
    fn two(a: char, b: char) -> (r: Lang)
        requires
            lower_alpha(a),
            lower_alpha(b),
        ensures
            r == lang2(a, b),
            lang_wf(r),
    {
        Lang { b0: a as u8, b1: b as u8, b2: 0 }
    }
}

} // verus!
