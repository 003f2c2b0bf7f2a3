//! Character classes of the DID grammar.
//!
//! Each production of the grammar consumes a maximal run of characters drawn
//! from one of these classes. The spec functions define the classes over
//! `char`; `class_allows_exec` is the verified executable test.

use vstd::prelude::*;

verus! {

/// The character classes that the grammar's productions scan over.
#[derive(Clone, Copy, Debug)]
pub enum CharClass {
    /// `method-char`: lower-case ASCII letters and digits.
    MethodName,
    /// `idchar`: ASCII letters, digits, `.`, `-`, `_`.
    Identifier,
    /// `param-char`: `idchar` plus `:`; shared by method parameters and query pairs.
    Param,
    /// Path segments: ASCII letters and digits only.
    PathSegment,
    /// Fragment text: ASCII letters, digits, `/`, `?`, `:`, `@`.
    Fragment,
}

pub open spec fn is_ascii_digit(c: char) -> bool {
    48 <= c as u32 && c as u32 <= 57
}

pub open spec fn is_lower_alpha(c: char) -> bool {
    97 <= c as u32 && c as u32 <= 122
}

pub open spec fn is_upper_alpha(c: char) -> bool {
    65 <= c as u32 && c as u32 <= 90
}

pub open spec fn is_alnum(c: char) -> bool {
    is_lower_alpha(c) || is_upper_alpha(c) || is_ascii_digit(c)
}

/// `method-char = %x61-7A / DIGIT`
pub open spec fn is_method_char(c: char) -> bool {
    is_lower_alpha(c) || is_ascii_digit(c)
}

/// `idchar = ALPHA / DIGIT / "." / "-" / "_"`
pub open spec fn is_id_char(c: char) -> bool {
    is_alnum(c) || c == '.' || c == '-' || c == '_'
}

/// `param-char = ALPHA / DIGIT / "." / "-" / "_" / ":"`
pub open spec fn is_param_char(c: char) -> bool {
    is_id_char(c) || c == ':'
}

/// Path segments admit letters and digits only.
pub open spec fn is_path_char(c: char) -> bool {
    is_alnum(c)
}

/// Fragment text admits letters, digits, `/`, `?`, `:` and `@`.
pub open spec fn is_frag_char(c: char) -> bool {
    is_alnum(c) || c == '/' || c == '?' || c == ':' || c == '@'
}

/// Whether character `c` belongs to class `k`.
pub open spec fn class_allows(k: CharClass, c: char) -> bool {
    match k {
        CharClass::MethodName => is_method_char(c),
        CharClass::Identifier => is_id_char(c),
        CharClass::Param => is_param_char(c),
        CharClass::PathSegment => is_path_char(c),
        CharClass::Fragment => is_frag_char(c),
    }
}

/// Executable membership test for a character class.
pub fn class_allows_exec(k: CharClass, c: char) -> (b: bool)
    ensures
        b == class_allows(k, c),
{
    let u: u32 = c as u32;
    let lower: bool = 97 <= u && u <= 122;
    let upper: bool = 65 <= u && u <= 90;
    let digit: bool = 48 <= u && u <= 57;
    let alnum: bool = lower || upper || digit;
    match k {
        CharClass::MethodName => lower || digit,
        CharClass::Identifier => alnum || c == '.' || c == '-' || c == '_',
        CharClass::Param => alnum || c == '.' || c == '-' || c == '_' || c == ':',
        CharClass::PathSegment => alnum,
        CharClass::Fragment => alnum || c == '/' || c == '?' || c == ':' || c == '@',
    }
}

} // verus!
