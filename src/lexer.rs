use vstd::prelude::*;
use crate::number::lemma_float_scan_bounds;
use crate::rules::{lemma_run_end_bounds, next_token, rule_at, Run};
use crate::text::{chars_of, text_of};
use crate::token::{LexError, SpecLexError, SpecToken, Token};

verus! {

/// `prefix` placed before the tokens of a successful result; a failure passes through.
pub open spec fn prepend(prefix: Seq<SpecToken>, r: Result<Seq<SpecToken>, nat>) -> Result<
    Seq<SpecToken>,
    nat,
> {
    match r {
        Ok(ts) => Ok(prefix + ts),
        Err(o) => Err(o),
    }
}

/// Tokenizes `s` from position `p` to its end: the tokens in order, or the
/// position at which no rule applies.
pub open spec fn lex_from(s: Seq<char>, p: int) -> Result<Seq<SpecToken>, nat>
    decreases s.len() - p,
{
    if p < 0 || p >= s.len() {
        Ok(Seq::empty())
    } else {
        match rule_at(s, p) {
            Some((t, e)) => if p < e <= s.len() {
                prepend(seq![t], lex_from(s, e))
            } else {
                Err(p as nat)
            },
            None => Err(p as nat),
        }
    }
}

/// The tokenization of a whole text. An empty text is refused; a failure at a
/// double quote is an unterminated string literal.
pub open spec fn tokenize(s: Seq<char>) -> Result<Seq<SpecToken>, SpecLexError> {
    if s.len() == 0 {
        Err(SpecLexError::EmptyInput)
    } else {
        match lex_from(s, 0) {
            Ok(ts) => Ok(ts),
            Err(o) => if s[o as int] == '"' {
                Err(SpecLexError::UnterminatedLiteral { offset: o })
            } else {
                Err(SpecLexError::UnmatchedInput { offset: o, rest: s.skip(o as int) })
            },
        }
    }
}

pub open spec fn view_tokens(v: Seq<Token>) -> Seq<SpecToken> {
    v.map_values(|t: Token| t@)
}

pub open spec fn view_result(r: Result<Vec<Token>, LexError>) -> Result<
    Seq<SpecToken>,
    SpecLexError,
> {
    match r {
        Ok(v) => Ok(view_tokens(v@)),
        Err(e) => Err(e@),
    }
}

/// A rule that applies consumes at least one character and stays within the text.
pub proof fn lemma_rule_at_advances(s: Seq<char>, p: int)
    requires
        0 <= p < s.len(),
        s.len() <= usize::MAX,
    ensures
        rule_at(s, p) matches Some((t, e)) ==> p < e <= s.len(),
{
    lemma_run_end_bounds(s, p + 1, Run::Word);
    lemma_run_end_bounds(s, p + 1, Run::StringBody);
    lemma_run_end_bounds(s, p + 1, Run::Space);
    lemma_run_end_bounds(s, p, Run::Float);
    if p + 2 <= s.len() {
        lemma_run_end_bounds(s, p + 2, Run::CommentBody);
    }
    lemma_float_scan_bounds(s.skip(p));
}

proof fn lemma_prepend_assoc(a: Seq<SpecToken>, b: Seq<SpecToken>, r: Result<Seq<SpecToken>, nat>)
    ensures
        prepend(a, prepend(b, r)) == prepend(a + b, r),
{
    if let Ok(ts) = r {
        assert(a + (b + ts) =~= (a + b) + ts);
    }
}

/// Splits a text into tokens, trying the token rules in priority order at each
/// position. The whole text must be consumed: the result is every token in
/// source order, or the first position at which no rule applies.
pub fn lexer(input: &str) -> (r: Result<Vec<Token>, LexError>)
    ensures
        view_result(r) == tokenize(input@),
{
    let chars = chars_of(input);
    let n = chars.len();
    if n == 0 {
        return Err(LexError::EmptyInput);
    }
    let mut tokens: Vec<Token> = Vec::new();
    let mut p: usize = 0;
    while p < n
        invariant
            n == chars@.len(),
            chars@ == input@,
            p <= n,
            lex_from(chars@, 0) == prepend(view_tokens(tokens@), lex_from(chars@, p as int)),
        decreases n - p,
    {
        proof {
            lemma_rule_at_advances(chars@, p as int);
        }
        match next_token(&chars, p) {
            Some((t, e)) => {
                let ghost before = view_tokens(tokens@);
                proof {
                    lemma_prepend_assoc(view_tokens(tokens@), seq![t@], lex_from(chars@, e as int));
                }
                tokens.push(t);
                proof {
                    assert(view_tokens(tokens@) =~= before + seq![t@]);
                }
                p = e;
            },
            None => {
                if chars[p] == '"' {
                    return Err(LexError::UnterminatedLiteral { offset: p });
                }
                return Err(LexError::UnmatchedInput { offset: p, rest: text_of(&chars, p, n) });
            },
        }
    }
    assert(view_tokens(tokens@) + Seq::<SpecToken>::empty() =~= view_tokens(tokens@));
    Ok(tokens)
}

} // verus!
