use vstd::prelude::*;

verus! {

/// Whether `char::is_alphabetic` holds of a character (Unicode property "Alphabetic").
pub uninterp spec fn alphabetic(c: char) -> bool;

/// Whether `char::is_alphanumeric` holds of a character (Unicode "Alphabetic" or "Numeric").
pub uninterp spec fn alphanumeric(c: char) -> bool;

/// Whether `char::is_whitespace` holds of a character (Unicode property "White_Space").
pub uninterp spec fn whitespace(c: char) -> bool;

/// Relies on `char::is_alphabetic`, which depends on the character alone.
#[verifier::external_body]
fn char_is_alphabetic(c: char) -> (r: bool)
    ensures
        r == alphabetic(c),
{
    c.is_alphabetic()
}

/// Relies on `char::is_alphanumeric`, which depends on the character alone.
#[verifier::external_body]
fn char_is_alphanumeric(c: char) -> (r: bool)
    ensures
        r == alphanumeric(c),
{
    c.is_alphanumeric()
}

/// Relies on `char::is_whitespace`, which depends on the character alone.
#[verifier::external_body]
fn char_is_whitespace(c: char) -> (r: bool)
    ensures
        r == whitespace(c),
{
    c.is_whitespace()
}

/// A character that may begin an identifier.
pub fn is_unicode_alphabetic(c: char) -> (r: bool)
    ensures
        r == alphabetic(c),
{
    char_is_alphabetic(c)
}

/// A character that may continue an identifier: an underscore or a Unicode alphanumeric.
pub open spec fn word_char(c: char) -> bool {
    c == '_' || alphanumeric(c)
}

pub fn is_word_character(c: char) -> (r: bool)
    ensures
        r == word_char(c),
{
    c == '_' || char_is_alphanumeric(c)
}

/// A character that belongs to a whitespace token.
pub fn is_unicode_whitespace(c: char) -> (r: bool)
    ensures
        r == whitespace(c),
{
    char_is_whitespace(c)
}

/// Any character but `banned`: scans a comment or string body up to its delimiter.
pub fn not_char(c: char, banned: char) -> (r: bool)
    ensures
        r == (c != banned),
{
    c != banned
}

/// A character of the operator set `+ < = .`.
pub open spec fn operator_char(c: char) -> bool {
    c == '+' || c == '<' || c == '=' || c == '.'
}

pub fn is_operator_character(c: char) -> (r: bool)
    ensures
        r == operator_char(c),
{
    c == '+' || c == '<' || c == '=' || c == '.'
}

} // verus!
