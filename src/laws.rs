use vstd::prelude::*;
use crate::lexer::{lemma_rule_at_advances, lex_from, tokenize};
use crate::number::char_at;
use crate::rules::{lemma_run_end_bounds, lemma_run_end_stops, rule_at, Run};
use crate::token::{lexeme, SpecToken};

verus! {

/// The source texts of a token sequence, joined in order.
pub open spec fn joined_lexemes(ts: Seq<SpecToken>) -> Seq<char>
    decreases ts.len(),
{
    if ts.len() == 0 {
        Seq::empty()
    } else {
        lexeme(ts[0]) + joined_lexemes(ts.drop_first())
    }
}

/// No token is directly followed by another `Slash`.
pub open spec fn no_adjacent_slashes(ts: Seq<SpecToken>) -> bool {
    forall|i: int| 0 <= i < ts.len() - 1 ==> !(ts[i] is Slash && #[trigger] ts[i + 1] is Slash)
}

/// The token that a rule produces is read from exactly the text it consumes.
proof fn lemma_rule_at_lexeme(s: Seq<char>, p: int)
    requires
        0 <= p < s.len(),
        s.len() <= usize::MAX,
    ensures
        rule_at(s, p) matches Some((t, e)) ==> lexeme(t) == s.subrange(p, e),
{
    lemma_rule_at_advances(s, p);
    if let Some((t, e)) = rule_at(s, p) {
        match t {
            SpecToken::LineComment(x) => {
                assert(char_at(s, p, '/') && char_at(s, p + 1, '/'));
                lemma_run_end_bounds(s, p + 2, Run::CommentBody);
                assert(x == s.subrange(p + 2, e));
                let lx = seq!['/', '/'] + x;
                assert forall|i: int| 0 <= i < e - p implies #[trigger] lx[i] == s[p + i] by {
                    if i >= 2 {
                        assert(x[i - 2] == s[p + i]);
                    }
                }
                assert(lx =~= s.subrange(p, e));
            },
            SpecToken::String(x) => {
                lemma_run_end_bounds(s, p + 1, Run::StringBody);
                lemma_run_end_stops(s, p + 1, Run::StringBody);
                assert(seq!['"'] + x + seq!['"'] =~= s.subrange(p, e));
            },
            SpecToken::BracketRoundClosing => {
                assert(seq![')'] =~= s.subrange(p, e));
            },
            SpecToken::BracketRoundOpening => {
                assert(seq!['('] =~= s.subrange(p, e));
            },
            SpecToken::Slash => {
                assert(seq!['/'] =~= s.subrange(p, e));
            },
            _ => {},
        }
    }
}

proof fn lemma_lex_from_round_trip(s: Seq<char>, p: int)
    requires
        0 <= p <= s.len(),
        s.len() <= usize::MAX,
    ensures
        lex_from(s, p) matches Ok(ts) ==> joined_lexemes(ts) == s.subrange(p, s.len() as int),
    decreases s.len() - p,
{
    if p == s.len() {
        assert(s.subrange(p, p) =~= Seq::<char>::empty());
    } else {
        lemma_rule_at_advances(s, p);
        lemma_rule_at_lexeme(s, p);
        if let Some((t, e)) = rule_at(s, p) {
            lemma_lex_from_round_trip(s, e);
            if let Ok(rest) = lex_from(s, e) {
                let ts = seq![t] + rest;
                assert(ts.drop_first() =~= rest);
                assert(s.subrange(p, e) + s.subrange(e, s.len() as int) =~= s.subrange(
                    p,
                    s.len() as int,
                ));
            }
        }
    }
}

/// Round trip: when a text tokenizes, the source texts of its tokens, joined in
/// order, give back the text exactly: nothing dropped, nothing repeated.
pub proof fn lemma_round_trip(s: Seq<char>)
    requires
        s.len() <= usize::MAX,
    ensures
        tokenize(s) matches Ok(ts) ==> joined_lexemes(ts) == s,
{
    lemma_lex_from_round_trip(s, 0);
    assert(s.subrange(0, s.len() as int) =~= s);
}

/// Determinism: the same text always gives the same tokens, or the same error.
pub proof fn lemma_deterministic(a: Seq<char>, b: Seq<char>)
    requires
        a == b,
    ensures
        tokenize(a) == tokenize(b),
{
}

/// A `Slash` is a single `/` that is not followed by another.
proof fn lemma_rule_at_slash(s: Seq<char>, p: int)
    requires
        0 <= p < s.len(),
    ensures
        rule_at(s, p) matches Some((t, e)) ==> (t is Slash ==> {
            &&& e == p + 1
            &&& s[p] == '/'
            &&& !char_at(s, p + 1, '/')
        }),
{
    if !(char_at(s, p, '/') && char_at(s, p + 1, '/')) {
        if !crate::classify::alphabetic(s[p]) {
            if let Some((t, e)) = rule_at(s, p) {
                if t is Slash {
                    assert(rule_at(s, p) == crate::rules::later_rule_at(s, p));
                }
            }
        }
    }
}

proof fn lemma_lex_from_slashes(s: Seq<char>, p: int)
    requires
        0 <= p <= s.len(),
        s.len() <= usize::MAX,
    ensures
        lex_from(s, p) matches Ok(ts) ==> {
            &&& no_adjacent_slashes(ts)
            &&& (ts.len() > 0 && ts[0] is Slash ==> char_at(s, p, '/'))
        },
    decreases s.len() - p,
{
    if p < s.len() {
        lemma_rule_at_advances(s, p);
        lemma_rule_at_slash(s, p);
        if let Some((t, e)) = rule_at(s, p) {
            lemma_lex_from_slashes(s, e);
            if let Ok(rest) = lex_from(s, e) {
                let ts = seq![t] + rest;
                assert forall|i: int| 0 <= i < ts.len() - 1 implies !(ts[i] is Slash
                    && #[trigger] ts[i + 1] is Slash) by {
                    if i > 0 {
                        assert(ts[i] == rest[i - 1]);
                        assert(ts[i + 1] == rest[i]);
                        assert(!(rest[i - 1] is Slash && rest[(i - 1) + 1] is Slash));
                    } else {
                        assert(ts[0] == t);
                        assert(ts[1] == rest[0]);
                        if t is Slash {
                            assert(e == p + 1);
                            assert(!char_at(s, e, '/'));
                            assert(!(rest[0] is Slash));
                        }
                    }
                }
            }
        }
    }
}

/// A slash is never directly followed by another `Slash` token: two slashes in
/// a row always begin a line comment.
pub proof fn lemma_no_adjacent_slashes(s: Seq<char>)
    requires
        s.len() <= usize::MAX,
    ensures
        tokenize(s) matches Ok(ts) ==> no_adjacent_slashes(ts),
{
    lemma_lex_from_slashes(s, 0);
}

} // verus!
