//! Verified text parsing for metadata values: strict unsigned decimal
//! numerals, the float-literal grammar used to filter bounds/center lists,
//! and comma-separated splitting.

use vstd::prelude::*;
use vstd::string::StrSliceExecFns;

verus! {

/// String-equality helper over the character views, routed through owned
/// strings so the comparison carries a specification.
pub fn str_eq(a: &str, b: &str) -> (r: bool)
    ensures
        r == (a@ == b@),
{
    let sa: String = a.to_owned();
    let sb: String = b.to_owned();
    sa == sb
}

pub open spec fn is_digit(c: char) -> bool {
    48 <= c as u32 && c as u32 <= 57
}

pub open spec fn digit_val(c: char) -> int {
    c as u32 - 48
}

pub open spec fn all_digits(s: Seq<char>) -> bool {
    forall|i: int| 0 <= i < s.len() ==> is_digit(#[trigger] s[i])
}

/// The value of a digit string read as a base-ten numeral.
pub open spec fn dec_val(s: Seq<char>) -> int
    decreases s.len(),
{
    if s.len() == 0 {
        0
    } else {
        dec_val(s.drop_last()) * 10 + digit_val(s.last())
    }
}

/// The digits of a numeral after the optional leading plus sign.
pub open spec fn u32_digits_part(s: Seq<char>) -> Seq<char> {
    if s.len() > 0 && s[0] == '+' {
        s.skip(1)
    } else {
        s
    }
}

/// The strings that parse strictly as a `u32`: an optional leading `+`,
/// then at least one ASCII digit, with the value in range.
pub open spec fn is_u32_numeral(s: Seq<char>) -> bool {
    let d = u32_digits_part(s);
    d.len() > 0 && all_digits(d) && dec_val(d) <= u32::MAX
}

pub open spec fn spec_parse_u32(s: Seq<char>) -> Option<u32> {
    if is_u32_numeral(s) {
        Some(dec_val(u32_digits_part(s)) as u32)
    } else {
        None
    }
}

pub proof fn lemma_dec_val_nonneg(d: Seq<char>)
    requires
        all_digits(d),
    ensures
        dec_val(d) >= 0,
    decreases d.len(),
{
    if d.len() > 0 {
        assert(all_digits(d.drop_last()));
        lemma_dec_val_nonneg(d.drop_last());
    }
}

/// A prefix of a digit string never exceeds the whole string's value.
pub proof fn lemma_dec_val_prefix_le(d: Seq<char>, k: int)
    requires
        0 <= k <= d.len(),
        all_digits(d),
    ensures
        dec_val(d.take(k)) <= dec_val(d),
    decreases d.len() - k,
{
    if k < d.len() {
        assert(d.take(k + 1).drop_last() =~= d.take(k));
        assert(all_digits(d.take(k)));
        lemma_dec_val_nonneg(d.take(k));
        assert(dec_val(d.take(k + 1)) == dec_val(d.take(k)) * 10 + digit_val(d.take(k + 1).last()));
        lemma_dec_val_prefix_le(d, k + 1);
    } else {
        assert(d.take(k) =~= d);
    }
}

/// Strict `u32` parse: exactly the strings `u32::from_str` accepts, with
/// their decimal value.
pub fn parse_u32(s: &str) -> (r: Option<u32>)
    ensures
        r == spec_parse_u32(s@),
{
    let n = s.unicode_len();
    let has_sign = n > 0 && s.get_char(0) == '+';
    let start: usize = if has_sign { 1 } else { 0 };
    let ghost digits: Seq<char> = u32_digits_part(s@);
    proof {
        assert(digits =~= s@.skip(start as int));
    }
    if n == start {
        return None;
    }
    let mut val: u64 = 0;
    let mut i: usize = start;
    while i < n
        invariant
            start <= i <= n,
            n == s@.len(),
            start == 1 ==> s@.len() > 0 && s@[0] == '+',
            digits == u32_digits_part(s@),
            digits =~= s@.skip(start as int),
            val as int == dec_val(digits.take(i - start)),
            all_digits(digits.take(i - start)),
            val <= u32::MAX,
        decreases n - i,
    {
        let c = s.get_char(i);
        let u = c as u32;
        proof {
            assert(digits[i - start] == s@[i as int]);
        }
        if u < 48 || u > 57 {
            proof {
                assert(!is_digit(digits[i - start]));
            }
            return None;
        }
        let d: u64 = (u - 48) as u64;
        let new_val: u64 = val * 10 + d;
        proof {
            assert(digits.take(i - start + 1).drop_last() =~= digits.take(i - start));
            assert(digits.take(i - start + 1).last() == digits[i - start]);
            assert(new_val as int == dec_val(digits.take(i - start + 1)));
        }
        if new_val > 0xFFFF_FFFFu64 {
            proof {
                if all_digits(digits) {
                    lemma_dec_val_prefix_le(digits, i - start + 1);
                }
            }
            return None;
        }
        val = new_val;
        i = i + 1;
    }
    proof {
        assert(digits.take(i - start) =~= digits);
    }
    Some(val as u32)
}

/// Recognizer state for the numeric part of a float literal, after any
/// leading sign: mantissa digits, at most one dot, then an optional
/// exponent of sign and digits.
#[derive(Clone, Copy, PartialEq, Eq, Structural, Debug)]
pub enum FloatState {
    /// Nothing read yet.
    Empty,
    /// Integer digits only.
    Int,
    /// A leading dot with no digits yet on either side.
    Dot,
    /// A dot has been read and a digit stands on at least one side.
    Frac,
    /// The exponent marker was just read.
    ExpStart,
    /// The exponent sign was just read.
    ExpSign,
    /// At least one exponent digit has been read.
    ExpDigits,
    /// The input left the grammar.
    Reject,
}

pub open spec fn float_step(q: FloatState, c: char) -> FloatState {
    match q {
        FloatState::Empty => if is_digit(c) {
            FloatState::Int
        } else if c == '.' {
            FloatState::Dot
        } else {
            FloatState::Reject
        },
        FloatState::Int => if is_digit(c) {
            FloatState::Int
        } else if c == '.' {
            FloatState::Frac
        } else if c == 'e' || c == 'E' {
            FloatState::ExpStart
        } else {
            FloatState::Reject
        },
        FloatState::Dot => if is_digit(c) {
            FloatState::Frac
        } else {
            FloatState::Reject
        },
        FloatState::Frac => if is_digit(c) {
            FloatState::Frac
        } else if c == 'e' || c == 'E' {
            FloatState::ExpStart
        } else {
            FloatState::Reject
        },
        FloatState::ExpStart => if is_digit(c) {
            FloatState::ExpDigits
        } else if c == '+' || c == '-' {
            FloatState::ExpSign
        } else {
            FloatState::Reject
        },
        FloatState::ExpSign => if is_digit(c) {
            FloatState::ExpDigits
        } else {
            FloatState::Reject
        },
        FloatState::ExpDigits => if is_digit(c) {
            FloatState::ExpDigits
        } else {
            FloatState::Reject
        },
        FloatState::Reject => FloatState::Reject,
    }
}

pub open spec fn float_run(s: Seq<char>) -> FloatState
    decreases s.len(),
{
    if s.len() == 0 {
        FloatState::Empty
    } else {
        float_step(float_run(s.drop_last()), s.last())
    }
}

pub open spec fn float_accepting(q: FloatState) -> bool {
    q == FloatState::Int || q == FloatState::Frac || q == FloatState::ExpDigits
}

/// Case-insensitive match of `s` against a lowercase word `w`.
pub open spec fn lower_eq(c: char, l: char) -> bool {
    c == l || c as u32 + 32 == l as u32
}

pub open spec fn word_ci(s: Seq<char>, w: Seq<char>) -> bool {
    s.len() == w.len() && forall|i: int| 0 <= i < s.len() ==> lower_eq(#[trigger] s[i], w[i])
}

/// A float literal with its optional leading sign removed.
pub open spec fn strip_sign(s: Seq<char>) -> Seq<char> {
    if s.len() > 0 && (s[0] == '+' || s[0] == '-') {
        s.skip(1)
    } else {
        s
    }
}

/// The strings `f64::from_str` accepts: an optional sign, then one of the
/// special words `inf`, `infinity`, `nan` (case-insensitive) or a decimal
/// number with optional fraction and exponent.
pub open spec fn spec_is_float_literal(s: Seq<char>) -> bool {
    let b = strip_sign(s);
    word_ci(b, "inf"@) || word_ci(b, "infinity"@) || word_ci(b, "nan"@) || float_accepting(
        float_run(b),
    )
}

/// Case-insensitive comparison of a slice of `s` starting at `from`
/// against a lowercase word.
fn matches_word_ci(s: &str, from: usize, w: &str) -> (r: bool)
    requires
        from <= s@.len(),
    ensures
        r == word_ci(s@.skip(from as int), w@),
{
    let n = s.unicode_len();
    let m = w.unicode_len();
    if n - from != m {
        return false;
    }
    let mut i: usize = 0;
    while i < m
        invariant
            0 <= i <= m,
            from + m <= n,
            n == s@.len(),
            m == w@.len(),
            forall|k: int| 0 <= k < i ==> lower_eq(#[trigger] s@.skip(from as int)[k], w@[k]),
        decreases m - i,
    {
        let cs = s.get_char(from + i);
        let cw = w.get_char(i);
        let eq = cs == cw || (cs as u32) + 32 == cw as u32;
        proof {
            assert(s@.skip(from as int)[i as int] == s@[from + i]);
        }
        if !eq {
            return false;
        }
        i = i + 1;
    }
    true
}

/// Recognizes exactly the strings that parse as 64-bit floats, the test
/// the metadata reader uses to drop non-numeric bounds/center entries.
pub fn is_float_literal(s: &str) -> (r: bool)
    ensures
        r == spec_is_float_literal(s@),
{
    let n = s.unicode_len();
    let start: usize = if n > 0 {
        let c0 = s.get_char(0);
        if c0 == '+' || c0 == '-' {
            1
        } else {
            0
        }
    } else {
        0
    };
    let ghost body: Seq<char> = strip_sign(s@);
    proof {
        assert(body =~= s@.skip(start as int));
    }
    if matches_word_ci(s, start, "inf") || matches_word_ci(s, start, "infinity")
        || matches_word_ci(s, start, "nan") {
        return true;
    }
    let mut state = FloatState::Empty;
    let mut i: usize = start;
    while i < n
        invariant
            start <= i <= n,
            n == s@.len(),
            body == strip_sign(s@),
            body =~= s@.skip(start as int),
            state == float_run(body.take(i - start)),
        decreases n - i,
    {
        let c = s.get_char(i);
        let next = float_step_exec(state, c);
        proof {
            assert(body.take(i - start + 1).drop_last() =~= body.take(i - start));
            assert(body.take(i - start + 1).last() == s@[i as int]);
        }
        state = next;
        i = i + 1;
    }
    proof {
        assert(body.take(i - start) =~= body);
    }
    matches!(state, FloatState::Int | FloatState::Frac | FloatState::ExpDigits)
}

/// Splitting at commas, as `str::split(',')` does: always at least one
/// piece, and an empty string gives one empty piece.
pub open spec fn spec_split_commas(s: Seq<char>) -> Seq<Seq<char>>
    decreases s.len(),
{
    if s.len() == 0 {
        seq![Seq::<char>::empty()]
    } else {
        let rest = spec_split_commas(s.drop_first());
        if s[0] == ',' {
            seq![Seq::<char>::empty()].add(rest)
        } else {
            seq![seq![s[0]].add(rest[0])].add(rest.drop_first())
        }
    }
}

pub proof fn lemma_split_commas_nonempty(s: Seq<char>)
    ensures
        spec_split_commas(s).len() >= 1,
    decreases s.len(),
{
    if s.len() > 0 {
        lemma_split_commas_nonempty(s.drop_first());
    }
}

/// Splitting a string whose first comma stands at `i` (or that has none,
/// `i == s.len()`) yields the prefix and the split of what follows.
pub proof fn lemma_split_commas_at_first(s: Seq<char>, i: int)
    requires
        0 <= i <= s.len(),
        forall|k: int| 0 <= k < i ==> s[k] != ',',
        i < s.len() ==> s[i] == ',',
    ensures
        i == s.len() ==> spec_split_commas(s) =~~= seq![s],
        i < s.len() ==> spec_split_commas(s) =~~= seq![s.take(i)].add(
            spec_split_commas(s.skip(i + 1)),
        ),
    decreases s.len(),
{
    lemma_split_commas_nonempty(s);
    if s.len() == 0 {
    } else if i == 0 {
        if i < s.len() {
            assert(s.skip(1) =~= s.drop_first());
            assert(s.take(0) =~= Seq::<char>::empty());
        }
    } else {
        let t = s.drop_first();
        lemma_split_commas_at_first(t, i - 1);
        lemma_split_commas_nonempty(t);
        if i == s.len() {
            assert(spec_split_commas(t) =~~= seq![t]);
            assert(seq![s[0]].add(t) =~= s);
        } else {
            assert(t.skip(i) =~= s.skip(i + 1));
            assert(seq![s[0]].add(t.take(i - 1)) =~= s.take(i));
        }
    }
}

pub open spec fn views_of(v: Seq<String>) -> Seq<Seq<char>> {
    v.map_values(|p: String| p@)
}

/// Splits a string at commas into owned pieces, exactly as the splitting
/// specification reads it.
pub fn split_commas(s: &str) -> (r: Vec<String>)
    ensures
        views_of(r@) == spec_split_commas(s@),
{
    let n = s.unicode_len();
    let mut out: Vec<String> = Vec::new();
    let mut piece_start: usize = 0;
    let mut i: usize = 0;
    proof {
        assert(s@.skip(0) =~= s@);
        assert(views_of(out@) =~= Seq::<Seq<char>>::empty());
    }
    while i < n
        invariant
            0 <= piece_start <= i <= n,
            n == s@.len(),
            forall|k: int| piece_start <= k < i ==> s@[k] != ',',
            spec_split_commas(s@) =~~= views_of(out@).add(
                spec_split_commas(s@.skip(piece_start as int)),
            ),
        decreases n - i,
    {
        let c = s.get_char(i);
        if c == ',' {
            let piece: String = s.substring_char(piece_start, i).to_owned();
            proof {
                let tail = s@.skip(piece_start as int);
                lemma_split_commas_at_first(tail, i - piece_start);
                assert(tail.take(i - piece_start) =~= s@.subrange(piece_start as int, i as int));
                assert(tail.skip(i - piece_start + 1) =~= s@.skip(i + 1));
                assert(views_of(out@.push(piece)) =~= views_of(out@).push(piece@));
            }
            out.push(piece);
            piece_start = i + 1;
        }
        i = i + 1;
    }
    let last: String = s.substring_char(piece_start, n).to_owned();
    proof {
        let tail = s@.skip(piece_start as int);
        lemma_split_commas_at_first(tail, n - piece_start);
        assert(tail =~= s@.subrange(piece_start as int, n as int));
        assert(views_of(out@.push(last)) =~= views_of(out@).push(last@));
    }
    out.push(last);
    out
}

/// The comma-separated entries of `s` that parse as floats, order kept and
/// non-numeric entries dropped.
pub open spec fn spec_float_entries(s: Seq<char>) -> Seq<Seq<char>> {
    spec_split_commas(s).filter(|p: Seq<char>| spec_is_float_literal(p))
}

/// Splits a comma-separated list and keeps the entries that parse as
/// floats, the reading applied to `bounds` and `center` metadata values.
pub fn float_entries(s: &str) -> (r: Vec<String>)
    ensures
        views_of(r@) == spec_float_entries(s@),
{
    let pieces = split_commas(s);
    let ghost all = views_of(pieces@);
    let mut out: Vec<String> = Vec::new();
    let mut i: usize = 0;
    while i < pieces.len()
        invariant
            0 <= i <= pieces.len(),
            all == views_of(pieces@),
            views_of(out@) =~~= all.take(i as int).filter(|p: Seq<char>| spec_is_float_literal(p)),
        decreases pieces.len() - i,
    {
        let keep = is_float_literal(pieces[i].as_str());
        proof {
            assert(all.take(i + 1).drop_last() =~= all.take(i as int));
            assert(all.take(i + 1).last() == pieces@[i as int]@);
            reveal_with_fuel(Seq::filter, 2);
        }
        if keep {
            proof {
                assert(views_of(out@.push(pieces@[i as int])) =~= views_of(out@).push(
                    pieces@[i as int]@,
                ));
            }
            let piece = pieces[i].clone();
            out.push(piece);
        }
        i = i + 1;
    }
    proof {
        assert(all.take(i as int) =~= all);
    }
    out
}

/// One transition of the float recognizer.
fn float_step_exec(q: FloatState, c: char) -> (r: FloatState)
    ensures
        r == float_step(q, c),
{
    let u = c as u32;
    let digit = 48 <= u && u <= 57;
    match q {
        FloatState::Empty => if digit {
            FloatState::Int
        } else if c == '.' {
            FloatState::Dot
        } else {
            FloatState::Reject
        },
        FloatState::Int => if digit {
            FloatState::Int
        } else if c == '.' {
            FloatState::Frac
        } else if c == 'e' || c == 'E' {
            FloatState::ExpStart
        } else {
            FloatState::Reject
        },
        FloatState::Dot => if digit {
            FloatState::Frac
        } else {
            FloatState::Reject
        },
        FloatState::Frac => if digit {
            FloatState::Frac
        } else if c == 'e' || c == 'E' {
            FloatState::ExpStart
        } else {
            FloatState::Reject
        },
        FloatState::ExpStart => if digit {
            FloatState::ExpDigits
        } else if c == '+' || c == '-' {
            FloatState::ExpSign
        } else {
            FloatState::Reject
        },
        FloatState::ExpSign => if digit {
            FloatState::ExpDigits
        } else {
            FloatState::Reject
        },
        FloatState::ExpDigits => if digit {
            FloatState::ExpDigits
        } else {
            FloatState::Reject
        },
        FloatState::Reject => FloatState::Reject,
    }
}

} // verus!
