use vstd::prelude::*;
use crate::classify::{
    alphabetic, is_operator_character, is_unicode_alphabetic, is_unicode_whitespace,
    is_word_character, not_char, operator_char, whitespace, word_char,
};
use crate::number::{char_at, float_char, float_scan, lemma_float_scan_window, scan_float, NumberScan};
use crate::text::text_of;
use crate::token::{SpecToken, Token};

verus! {

/// The kinds of character run that the token rules consume.
#[derive(Clone, Copy, Debug, PartialEq, Eq)]
pub enum Run {
    /// Anything but a newline.
    CommentBody,
    /// Underscores and Unicode alphanumerics.
    Word,
    /// Anything but a double quote.
    StringBody,
    /// Unicode whitespace.
    Space,
    /// Characters that can occur in a float literal.
    Float,
}

pub open spec fn in_run(k: Run, c: char) -> bool {
    match k {
        Run::CommentBody => c != '\n',
        Run::Word => word_char(c),
        Run::StringBody => c != '"',
        Run::Space => whitespace(c),
        Run::Float => float_char(c),
    }
}

/// The end of the longest run of kind `k` that starts at `i`.
pub open spec fn run_end(s: Seq<char>, i: int, k: Run) -> int
    decreases s.len() - i,
{
    if 0 <= i < s.len() && in_run(k, s[i]) {
        run_end(s, i + 1, k)
    } else {
        i
    }
}

/// The token rules tried at position `p`, in priority order: line comment,
/// identifier, number, then those of `later_rule_at`. The first that applies
/// gives the token and the position after it; `None` means that none applies,
/// or that a number literal is malformed.
pub open spec fn rule_at(s: Seq<char>, p: int) -> Option<(SpecToken, int)> {
    if char_at(s, p, '/') && char_at(s, p + 1, '/') {
        let e = run_end(s, p + 2, Run::CommentBody);
        Some((SpecToken::LineComment(s.subrange(p + 2, e)), e))
    } else if alphabetic(s[p]) {
        let e = run_end(s, p + 1, Run::Word);
        Some((SpecToken::Identifier(s.subrange(p, e)), e))
    } else {
        match float_scan(s.skip(p)) {
            NumberScan::Matched(n) => Some(
                (SpecToken::Number(s.subrange(p, p + n as int)), p + n as int),
            ),
            NumberScan::Malformed => None,
            NumberScan::NoMatch => later_rule_at(s, p),
        }
    }
}

/// The rules after the number rule, in priority order: string, operator (one or
/// two operator characters, as many as there are), whitespace, brackets, slash.
pub open spec fn later_rule_at(s: Seq<char>, p: int) -> Option<(SpecToken, int)> {
    if s[p] == '"' {
        let e = run_end(s, p + 1, Run::StringBody);
        if e < s.len() {
            Some((SpecToken::String(s.subrange(p + 1, e)), e + 1))
        } else {
            None
        }
    } else if operator_char(s[p]) {
        let e = if p + 1 < s.len() && operator_char(s[p + 1]) { p + 2 } else { p + 1 };
        Some((SpecToken::Operator(s.subrange(p, e)), e))
    } else if whitespace(s[p]) {
        let e = run_end(s, p + 1, Run::Space);
        Some((SpecToken::Whitespace(s.subrange(p, e)), e))
    } else if s[p] == ')' {
        Some((SpecToken::BracketRoundClosing, p + 1))
    } else if s[p] == '(' {
        Some((SpecToken::BracketRoundOpening, p + 1))
    } else if s[p] == '/' {
        Some((SpecToken::Slash, p + 1))
    } else {
        None
    }
}

pub proof fn lemma_run_end_bounds(s: Seq<char>, i: int, k: Run)
    requires
        0 <= i <= s.len(),
    ensures
        i <= run_end(s, i, k) <= s.len(),
    decreases s.len() - i,
{
    if i < s.len() && in_run(k, s[i]) {
        lemma_run_end_bounds(s, i + 1, k);
    }
}

/// Every character of a run has the run's kind.
pub proof fn lemma_run_end_members(s: Seq<char>, i: int, k: Run)
    requires
        0 <= i <= s.len(),
    ensures
        forall|j: int| i <= j < run_end(s, i, k) ==> in_run(k, #[trigger] s[j]),
    decreases s.len() - i,
{
    if i < s.len() && in_run(k, s[i]) {
        lemma_run_end_members(s, i + 1, k);
    }
}

/// A run ends at the end of the text or at a character of another kind.
pub proof fn lemma_run_end_stops(s: Seq<char>, i: int, k: Run)
    requires
        0 <= i <= s.len(),
    ensures
        run_end(s, i, k) < s.len() ==> !in_run(k, s[run_end(s, i, k)]),
    decreases s.len() - i,
{
    if i < s.len() && in_run(k, s[i]) {
        lemma_run_end_stops(s, i + 1, k);
    }
}

fn in_run_exec(k: Run, c: char) -> (r: bool)
    ensures
        r == in_run(k, c),
{
    match k {
        Run::CommentBody => not_char(c, '\n'),
        Run::Word => is_word_character(c),
        Run::StringBody => not_char(c, '"'),
        Run::Space => is_unicode_whitespace(c),
        Run::Float => {
            ('0' <= c && c <= '9') || c == '+' || c == '-' || c == '.' || c == 'e' || c == 'E'
        },
    }
}

/// Finds the end of the run of kind `k` that starts at `i`.
pub fn scan_run(chars: &Vec<char>, i: usize, k: Run) -> (r: usize)
    requires
        i <= chars@.len(),
    ensures
        r == run_end(chars@, i as int, k),
        i <= r <= chars@.len(),
{
    let mut j: usize = i;
    while j < chars.len() && in_run_exec(k, chars[j])
        invariant
            i <= j <= chars@.len(),
            run_end(chars@, i as int, k) == run_end(chars@, j as int, k),
        decreases chars@.len() - j,
    {
        j = j + 1;
    }
    j
}

/// Applies the token rules at position `p`, in priority order.
pub fn next_token(chars: &Vec<char>, p: usize) -> (r: Option<(Token, usize)>)
    requires
        p < chars@.len(),
    ensures
        match r {
            Some((t, e)) => rule_at(chars@, p as int) == Some((t@, e as int)),
            None => rule_at(chars@, p as int) is None,
        },
{
    let n = chars.len();
    let c = chars[p];
    if c == '/' && p + 1 < n && chars[p + 1] == '/' {
        let e = scan_run(chars, p + 2, Run::CommentBody);
        return Some((Token::LineComment(text_of(chars, p + 2, e)), e));
    }
    if is_unicode_alphabetic(c) {
        let e = scan_run(chars, p + 1, Run::Word);
        return Some((Token::Identifier(text_of(chars, p, e)), e));
    }
    let w = scan_run(chars, p, Run::Float);
    let window = text_of(chars, p, w);
    proof {
        let rest = chars@.skip(p as int);
        let k = w - p;
        lemma_run_end_members(chars@, p as int, Run::Float);
        lemma_run_end_stops(chars@, p as int, Run::Float);
        assert forall|i: int| 0 <= i < k implies float_char(#[trigger] rest[i]) by {
            assert(rest[i] == chars@[p + i]);
        }
        assert(rest.subrange(0, k) =~= window@);
        lemma_float_scan_window(rest, k);
    }
    match scan_float(window.as_str()) {
        NumberScan::Matched(len) => {
            return Some((Token::Number(text_of(chars, p, p + len)), p + len));
        },
        NumberScan::Malformed => {
            return None;
        },
        NumberScan::NoMatch => {},
    }
    if c == '"' {
        let e = scan_run(chars, p + 1, Run::StringBody);
        if e < n {
            return Some((Token::String(text_of(chars, p + 1, e)), e + 1));
        }
        return None;
    }
    if is_operator_character(c) {
        let e = if p + 1 < n && is_operator_character(chars[p + 1]) {
            p + 2
        } else {
            p + 1
        };
        return Some((Token::Operator(text_of(chars, p, e)), e));
    }
    if is_unicode_whitespace(c) {
        let e = scan_run(chars, p + 1, Run::Space);
        return Some((Token::Whitespace(text_of(chars, p, e)), e));
    }
    if c == ')' {
        Some((Token::BracketRoundClosing, p + 1))
    } else if c == '(' {
        Some((Token::BracketRoundOpening, p + 1))
    } else if c == '/' {
        Some((Token::Slash, p + 1))
    } else {
        None
    }
}

} // verus!
