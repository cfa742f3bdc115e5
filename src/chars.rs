use vstd::prelude::*;

verus! {

/// Characters that may appear in an identifier or a function name:
/// ASCII letters, ASCII digits and the underscore.
pub open spec fn is_word_char(c: char) -> bool {
    ('a' <= c && c <= 'z') || ('A' <= c && c <= 'Z') || ('0' <= c && c <= '9') || c == '_'
}

/// The characters with the Unicode `White_Space` property.
pub open spec fn is_white_space(c: char) -> bool {
    ('\u{9}' <= c && c <= '\u{d}') || c == ' ' || c == '\u{85}' || c == '\u{a0}'
        || c == '\u{1680}' || ('\u{2000}' <= c && c <= '\u{200a}') || c == '\u{2028}'
        || c == '\u{2029}' || c == '\u{202f}' || c == '\u{205f}' || c == '\u{3000}'
}

/// The classes of characters that the parser skips or collects in runs.
#[derive(Clone, Copy, PartialEq, Eq, Structural)]
pub enum CharClass {
    /// Whitespace, skipped between tokens.
    WhiteSpace,
    /// Characters of identifiers and function names.
    Word,
    /// Anything but the double quote: the text of a signature.
    NotQuote,
}

pub open spec fn in_class(c: char, class: CharClass) -> bool {
    match class {
        CharClass::WhiteSpace => is_white_space(c),
        CharClass::Word => is_word_char(c),
        CharClass::NotQuote => c != '"',
    }
}

/// Relies on `char::is_whitespace`, which is true exactly of the characters
/// with the Unicode `White_Space` property.
#[verifier::external_body]
fn white_space(c: char) -> (r: bool)
    ensures
        r == is_white_space(c),
{
    c.is_whitespace()
}

/// Whether `c` belongs to `class`.
pub fn char_in_class(c: char, class: CharClass) -> (r: bool)
    ensures
        r == in_class(c, class),
{
    match class {
        CharClass::WhiteSpace => white_space(c),
        CharClass::Word => ('a' <= c && c <= 'z') || ('A' <= c && c <= 'Z') || ('0' <= c && c
            <= '9') || c == '_',
        CharClass::NotQuote => c != '"',
    }
}

} // verus!
