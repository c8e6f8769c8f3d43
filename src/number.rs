use vstd::prelude::*;

verus! {

/// What the float rule finds at the start of a text.
#[derive(Clone, Copy, Debug, PartialEq, Eq)]
pub enum NumberScan {
    /// A float literal covers the first `n` characters.
    Matched(usize),
    /// The text does not start with a float literal.
    NoMatch,
    /// A mantissa is followed by an exponent marker without exponent digits.
    Malformed,
}

pub open spec fn is_digit(c: char) -> bool {
    '0' <= c && c <= '9'
}

/// A character that can occur in a float literal.
pub open spec fn float_char(c: char) -> bool {
    is_digit(c) || c == '+' || c == '-' || c == '.' || c == 'e' || c == 'E'
}

/// The end of the run of decimal digits that starts at `i`.
pub open spec fn digit_run(s: Seq<char>, i: int) -> int
    decreases s.len() - i,
{
    if 0 <= i < s.len() && is_digit(s[i]) {
        digit_run(s, i + 1)
    } else {
        i
    }
}

pub open spec fn char_at(s: Seq<char>, i: int, c: char) -> bool {
    0 <= i < s.len() && s[i] == c
}

pub open spec fn sign_at(s: Seq<char>, i: int) -> bool {
    char_at(s, i, '+') || char_at(s, i, '-')
}

/// The end of an optionally signed mantissa at the start of `s`: digits with an
/// optional `.` and further digits, or `.` followed by digits.
pub open spec fn mantissa_end(s: Seq<char>) -> Option<int> {
    let a: int = if sign_at(s, 0) { 1 } else { 0 };
    let d = digit_run(s, a);
    if d > a {
        if char_at(s, d, '.') { Some(digit_run(s, d + 1)) } else { Some(d) }
    } else if char_at(s, a, '.') && digit_run(s, a + 1) > a + 1 {
        Some(digit_run(s, a + 1))
    } else {
        None
    }
}

/// The float literal at the start of `s`: a mantissa, then optionally `e` or `E`,
/// an optional sign and at least one digit. An exponent marker without digits
/// makes the literal malformed.
pub open spec fn float_scan(s: Seq<char>) -> NumberScan {
    match mantissa_end(s) {
        None => NumberScan::NoMatch,
        Some(m) => if char_at(s, m, 'e') || char_at(s, m, 'E') {
            let q = if sign_at(s, m + 1) { m + 2 } else { m + 1 };
            let x = digit_run(s, q);
            if x > q { NumberScan::Matched(x as usize) } else { NumberScan::Malformed }
        } else {
            NumberScan::Matched(m as usize)
        },
    }
}

/// Relies on `nom::number::complete::recognize_float`: it recognizes
/// `[+-]? (digits ('.' digits?)? | '.' digits) ([eE] [+-]? digits)?`, with the
/// exponent digits under `cut`, so that a missing exponent is a `Failure`.
/// The text is ASCII, so the matched slice's byte length counts its characters.
#[verifier::external_body]
fn recognize_float(text: &str) -> (r: NumberScan)
    requires
        forall|i: int| 0 <= i < text@.len() ==> float_char(#[trigger] text@[i]),
    ensures
        r == float_scan(text@),
{
    match nom::number::complete::recognize_float::<&str, nom::error::Error<&str>>(text) {
        Ok((_, matched)) => NumberScan::Matched(matched.len()),
        Err(nom::Err::Failure(_)) => NumberScan::Malformed,
        Err(_) => NumberScan::NoMatch,
    }
}

proof fn lemma_digit_run_bounds(s: Seq<char>, i: int)
    requires
        0 <= i <= s.len(),
    ensures
        i <= digit_run(s, i) <= s.len(),
    decreases s.len() - i,
{
    if i < s.len() && is_digit(s[i]) {
        lemma_digit_run_bounds(s, i + 1);
    }
}

proof fn lemma_digit_run_window(t: Seq<char>, k: int, i: int)
    requires
        0 <= i <= k <= t.len(),
        forall|j: int| 0 <= j < k ==> float_char(#[trigger] t[j]),
        k < t.len() ==> !float_char(t[k]),
    ensures
        digit_run(t, i) == digit_run(t.subrange(0, k), i),
    decreases k - i,
{
    if i < k {
        assert(float_char(t[i]));
        lemma_digit_run_window(t, k, i + 1);
    }
}

/// The float rule reads nothing past the run of float characters at the start
/// of a text: scanning that run alone gives the same result.
pub proof fn lemma_float_scan_window(t: Seq<char>, k: int)
    requires
        0 <= k <= t.len(),
        forall|j: int| 0 <= j < k ==> float_char(#[trigger] t[j]),
        k < t.len() ==> !float_char(t[k]),
    ensures
        float_scan(t) == float_scan(t.subrange(0, k)),
{
    let w = t.subrange(0, k);
    assert forall|i: int, c: char| 0 <= i <= k && float_char(c) implies char_at(t, i, c)
        == char_at(w, i, c) && (char_at(t, i, c) ==> i < k) by {
        if i < k {
            assert(w[i] == t[i]);
        }
    }
    let a: int = if sign_at(t, 0) { 1 } else { 0 };
    assert(a <= k);
    lemma_digit_run_window(t, k, a);
    lemma_digit_run_bounds(w, a);
    let d = digit_run(t, a);
    assert(a <= d <= k);
    if d + 1 <= k {
        lemma_digit_run_window(t, k, d + 1);
    }
    if a + 1 <= k {
        lemma_digit_run_window(t, k, a + 1);
    }
    if d + 1 <= k {
        lemma_digit_run_bounds(w, d + 1);
    }
    if a + 1 <= k {
        lemma_digit_run_bounds(w, a + 1);
    }
    if let Some(m) = mantissa_end(t) {
        assert(0 <= m <= k);
        if m + 1 <= k {
            lemma_digit_run_window(t, k, m + 1);
        }
        if m + 2 <= k {
            lemma_digit_run_window(t, k, m + 2);
        }
    }
}

/// A matched float literal lies within the text and is not empty.
pub proof fn lemma_float_scan_bounds(s: Seq<char>)
    requires
        s.len() <= usize::MAX,
    ensures
        float_scan(s) matches NumberScan::Matched(n) ==> 0 < n <= s.len(),
{
    let a: int = if sign_at(s, 0) { 1 } else { 0 };
    if a <= s.len() {
        lemma_digit_run_bounds(s, a);
        let d = digit_run(s, a);
        if d + 1 <= s.len() {
            lemma_digit_run_bounds(s, d + 1);
        }
        if a + 1 <= s.len() {
            lemma_digit_run_bounds(s, a + 1);
        }
    }
    if let Some(m) = mantissa_end(s) {
        if m + 2 <= s.len() {
            lemma_digit_run_bounds(s, m + 2);
        }
        if m + 1 <= s.len() {
            lemma_digit_run_bounds(s, m + 1);
        }
    }
}

/// Scans the float literal at the start of a run of float characters.
pub fn scan_float(text: &str) -> (r: NumberScan)
    requires
        text@.len() <= usize::MAX,
        forall|i: int| 0 <= i < text@.len() ==> float_char(#[trigger] text@[i]),
    ensures
        r == float_scan(text@),
        r matches NumberScan::Matched(n) ==> 0 < n <= text@.len(),
{
    proof {
        lemma_float_scan_bounds(text@);
    }
    recognize_float(text)
}

} // verus!
