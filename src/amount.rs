//! Decimal SOL amounts and their conversion to integer lamports.
use vstd::prelude::*;
use vstd::string::*;

verus! {

/// Lamports in one SOL.
pub const LAMPORTS_PER_SOL: u64 = 1_000_000_000;

/// Why a decimal amount could not be converted.
#[derive(Debug, Clone, Copy, PartialEq, Eq, Structural)]
pub enum AmountError {
    /// The text is not `digits` or `digits.digits`.
    Malformed,
    /// The amount does not fit in a `u64` number of lamports.
    TooLarge,
}

pub open spec fn is_digit(c: char) -> bool {
    '0' <= c && c <= '9'
}

pub open spec fn digit_value(c: char) -> nat {
    (c as nat - '0' as nat) as nat
}

pub open spec fn all_digits(s: Seq<char>) -> bool {
    forall|i: int| 0 <= i < s.len() ==> is_digit(#[trigger] s[i])
}

/// The number that a string of decimal digits denotes.
pub open spec fn digits_value(s: Seq<char>) -> nat
    decreases s.len(),
{
    if s.len() == 0 {
        0
    } else {
        digits_value(s.drop_last()) * 10 + digit_value(s.last())
    }
}

pub open spec fn pow10(n: nat) -> nat
    decreases n,
{
    if n == 0 {
        1
    } else {
        10 * pow10((n - 1) as nat)
    }
}

/// Index of the first `'.'` at or after `i`, or the length when there is none.
pub open spec fn first_dot_from(s: Seq<char>, i: int) -> int
    decreases s.len() - i,
{
    if i >= s.len() {
        s.len() as int
    } else if s[i] == '.' {
        i
    } else {
        first_dot_from(s, i + 1)
    }
}

pub open spec fn first_dot(s: Seq<char>) -> int {
    first_dot_from(s, 0)
}

pub open spec fn whole_digits(s: Seq<char>) -> Seq<char> {
    s.take(first_dot(s))
}

/// The digits after the point (empty when there is no point).
pub open spec fn fraction_digits(s: Seq<char>) -> Seq<char> {
    if first_dot(s) < s.len() {
        s.skip(first_dot(s) + 1)
    } else {
        Seq::empty()
    }
}

/// `digits` or `digits.digits`, with at least one digit on each side of the point.
pub open spec fn is_decimal(s: Seq<char>) -> bool {
    &&& first_dot(s) > 0
    &&& all_digits(whole_digits(s))
    &&& first_dot(s) < s.len() ==> fraction_digits(s).len() > 0 && all_digits(fraction_digits(s))
}

/// The fractional part in lamports: the first nine digits, the rest dropped.
pub open spec fn fraction_lamports(f: Seq<char>) -> nat {
    let k = if f.len() < 9 { f.len() } else { 9 };
    digits_value(f.take(k as int)) * pow10((9 - k) as nat)
}

/// The exact lamport value of a decimal amount, truncated toward zero.
pub open spec fn lamports_of(s: Seq<char>) -> nat {
    digits_value(whole_digits(s)) * 1_000_000_000 + fraction_lamports(fraction_digits(s))
}

pub open spec fn sol_to_lamports_spec(s: Seq<char>) -> Result<u64, AmountError> {
    if !is_decimal(s) {
        Err(AmountError::Malformed)
    } else if lamports_of(s) > u64::MAX {
        Err(AmountError::TooLarge)
    } else {
        Ok(lamports_of(s) as u64)
    }
}

proof fn lemma_digits_value_take(s: Seq<char>, j: int)
    requires
        0 <= j < s.len(),
    ensures
        digits_value(s.take(j + 1)) == digits_value(s.take(j)) * 10 + digit_value(s[j]),
{
    assert(s.take(j + 1).drop_last() =~= s.take(j));
}

proof fn lemma_digits_value_monotone(s: Seq<char>, j: int, p: int)
    requires
        0 <= j <= p <= s.len(),
    ensures
        digits_value(s.take(j)) <= digits_value(s.take(p)),
    decreases p - j,
{
    if j < p {
        lemma_digits_value_monotone(s, j, p - 1);
        lemma_digits_value_take(s, p - 1);
    }
}

proof fn lemma_first_dot_step(s: Seq<char>, i: int)
    requires
        0 <= i < s.len(),
        s[i] != '.',
    ensures
        first_dot_from(s, i) == first_dot_from(s, i + 1),
{
}

proof fn lemma_first_dot_bounds(s: Seq<char>, i: int)
    requires
        0 <= i <= s.len(),
    ensures
        i <= first_dot_from(s, i) <= s.len(),
        first_dot_from(s, i) < s.len() ==> s[first_dot_from(s, i)] == '.',
        forall|k: int| i <= k < first_dot_from(s, i) ==> s[k] != '.',
    decreases s.len() - i,
{
    if i < s.len() && s[i] != '.' {
        lemma_first_dot_bounds(s, i + 1);
    }
}

/// Value of the digits `s[from..to]`, with overflow past `cap` reported as `None`.
fn digits_upto(s: &str, from: usize, to: usize, cap: u64) -> (r: Option<u64>)
    requires
        from <= to <= s@.len(),
        all_digits(s@.subrange(from as int, to as int)),
        cap >= 9,
    ensures
        match r {
            Some(v) => v as nat == digits_value(s@.subrange(from as int, to as int)) && v <= cap,
            None => digits_value(s@.subrange(from as int, to as int)) > cap,
        },
{
    let ghost t = s@.subrange(from as int, to as int);
    let mut acc: u64 = 0;
    let mut i: usize = from;
    while i < to
        invariant
            from <= i <= to <= s@.len(),
            t == s@.subrange(from as int, to as int),
            all_digits(t),
            acc as nat == digits_value(t.take(i - from)),
            acc <= cap,
            cap >= 9,
        decreases to - i,
    {
        let c = s.get_char(i);
        proof {
            assert(t[i - from] == c);
            lemma_digits_value_take(t, i - from);
            assert(is_digit(t[i - from]));
        }
        let d: u64 = (c as u32 - '0' as u32) as u64;
        assert(d as nat == digit_value(c) && d <= 9);
        if acc > (cap - d) / 10 {
            proof {
                assert(acc * 10 + d > cap) by (nonlinear_arith)
                    requires acc > (cap - d) / 10, d <= cap;
                lemma_digits_value_monotone(t, i - from + 1, t.len() as int);
                assert(t.take(t.len() as int) =~= t);
            }
            return None;
        }
        proof {
            assert(acc * 10 + d <= cap) by (nonlinear_arith)
                requires acc <= (cap - d) / 10, d <= cap;
        }
        acc = acc * 10 + d;
        i = i + 1;
    }
    proof {
        assert(t.take(i - from) =~= t);
    }
    Some(acc)
}

proof fn lemma_digits_value_bound(t: Seq<char>)
    requires
        all_digits(t),
    ensures
        digits_value(t) < pow10(t.len()),
    decreases t.len(),
{
    if t.len() > 0 {
        let u = t.drop_last();
        assert(all_digits(u)) by {
            assert forall|i: int| 0 <= i < u.len() implies is_digit(#[trigger] u[i]) by {
                assert(u[i] == t[i]);
            }
        }
        lemma_digits_value_bound(u);
        assert(is_digit(t[t.len() - 1]));
        let a = digits_value(u);
        let b = pow10(u.len());
        assert(a * 10 + digit_value(t.last()) < 10 * b) by (nonlinear_arith)
            requires a < b, digit_value(t.last()) <= 9;
    }
}

/// Whether every character of `s[from..to]` is a decimal digit.
fn digits_only(s: &str, from: usize, to: usize) -> (r: bool)
    requires
        from <= to <= s@.len(),
    ensures
        r == all_digits(s@.subrange(from as int, to as int)),
{
    let mut i: usize = from;
    while i < to
        invariant
            from <= i <= to <= s@.len(),
            forall|k: int| from <= k < i ==> is_digit(#[trigger] s@[k]),
        decreases to - i,
    {
        let c = s.get_char(i);
        if c < '0' || c > '9' {
            assert(s@.subrange(from as int, to as int)[i - from] == c);
            return false;
        }
        i = i + 1;
    }
    assert forall|k: int| 0 <= k < to - from implies is_digit(#[trigger] s@.subrange(
        from as int,
        to as int,
    )[k]) by {
        assert(s@.subrange(from as int, to as int)[k] == s@[from + k]);
    }
    true
}

/// Converts a decimal SOL amount such as `"2.5"` to lamports, dropping any
/// digit past the ninth fractional place (truncation toward zero).
pub fn sol_to_lamports(s: &str) -> (r: Result<u64, AmountError>)
    ensures
        r == sol_to_lamports_spec(s@),
{
    let n = s.unicode_len();
    let mut p: usize = 0;
    while p < n && s.get_char(p) != '.'
        invariant
            p <= n == s@.len(),
            first_dot_from(s@, 0) == first_dot_from(s@, p as int),
        decreases n - p,
    {
        proof {
            lemma_first_dot_step(s@, p as int);
        }
        p = p + 1;
    }
    proof {
        lemma_first_dot_bounds(s@, 0);
        assert(first_dot(s@) == p);
        assert(whole_digits(s@) =~= s@.subrange(0, p as int));
        if p < n {
            assert(fraction_digits(s@) =~= s@.subrange(p + 1, n as int));
        }
    }
    if p == 0 || !digits_only(s, 0, p) {
        return Err(AmountError::Malformed);
    }
    if p < n && (p + 1 == n || !digits_only(s, p + 1, n)) {
        return Err(AmountError::Malformed);
    }
    let whole = match digits_upto(s, 0, p, 18_446_744_073) {
        Some(w) => w,
        None => {
            proof {
                let w = digits_value(whole_digits(s@));
                assert(w * 1_000_000_000 > u64::MAX) by (nonlinear_arith)
                    requires w > 18_446_744_073;
            }
            return Err(AmountError::TooLarge);
        },
    };
    let start: usize = if p < n { p + 1 } else { n };
    let k: usize = if n - start < 9 { n - start } else { 9 };
    let ghost f = fraction_digits(s@);
    proof {
        assert(f =~= s@.subrange(start as int, n as int));
        assert(f.take(k as int) =~= s@.subrange(start as int, (start + k) as int));
        assert(all_digits(s@.subrange(start as int, (start + k) as int))) by {
            assert forall|j: int| 0 <= j < k implies is_digit(
                #[trigger] s@.subrange(start as int, (start + k) as int)[j],
            ) by {
                assert(s@.subrange(start as int, (start + k) as int)[j] == f[j]);
            }
        }
        lemma_digits_value_bound(f.take(k as int));
        reveal_with_fuel(pow10, 10);
        assert(pow10(9) == 1_000_000_000);
        lemma_pow10_monotone(k as nat, 9);
        assert(pow10(0) == 1);
    }
    let head = match digits_upto(s, start, start + k, 999_999_999) {
        Some(v) => v,
        None => {
            return Err(AmountError::Malformed);
        },
    };
    let mut frac: u64 = head;
    let mut m: usize = k;
    proof {
        assert(pow10(0) == 1);
        assert(head as nat * pow10(0) == head as nat) by (nonlinear_arith)
            requires pow10(0) == 1;
    }
    while m < 9
        invariant
            k <= m <= 9,
            frac as nat == head as nat * pow10((m - k) as nat),
            frac < pow10(m as nat),
            pow10(9) == 1_000_000_000,
        decreases 9 - m,
    {
        proof {
            lemma_pow10_monotone((m + 1) as nat, 9);
        }
        frac = frac * 10;
        m = m + 1;
        proof {
            lemma_pow10_shift(head as nat, (m - 1 - k) as nat);
        }
    }
    assert(frac as nat == fraction_lamports(f));
    assert(whole as nat == digits_value(whole_digits(s@)));
    let scaled: u64 = whole * LAMPORTS_PER_SOL;
    if scaled > u64::MAX - frac {
        return Err(AmountError::TooLarge);
    }
    Ok(scaled + frac)
}

proof fn lemma_pow10_monotone(a: nat, b: nat)
    requires
        a <= b,
    ensures
        pow10(a) <= pow10(b),
        pow10(a) >= 1,
    decreases b,
{
    if a < b {
        lemma_pow10_monotone(a, (b - 1) as nat);
    } else if a > 0 {
        lemma_pow10_monotone((a - 1) as nat, (a - 1) as nat);
    }
}

proof fn lemma_pow10_shift(h: nat, j: nat)
    ensures
        h * pow10(j) * 10 == h * pow10(j + 1),
{
    assert(pow10(j + 1) == 10 * pow10(j));
    assert(h * pow10(j) * 10 == h * (10 * pow10(j))) by (nonlinear_arith);
}

proof fn lemma_first_dot_append(s: Seq<char>, x: Seq<char>, i: int)
    requires
        0 <= i <= first_dot_from(s, i) < s.len(),
    ensures
        first_dot_from(s + x, i) == first_dot_from(s, i),
    decreases s.len() - i,
{
    assert((s + x)[i] == s[i]);
    if s[i] != '.' {
        lemma_first_dot_step(s, i);
        lemma_first_dot_bounds(s, i + 1);
        lemma_first_dot_append(s, x, i + 1);
    }
}

/// Conversion truncates: digits past the ninth fractional place never change
/// the number of lamports, whatever they are.
pub proof fn extra_fraction_digits_dropped(s: Seq<char>, x: Seq<char>)
    requires
        is_decimal(s),
        first_dot(s) < s.len(),
        fraction_digits(s).len() >= 9,
        all_digits(x),
    ensures
        is_decimal(s + x),
        lamports_of(s + x) == lamports_of(s),
        sol_to_lamports_spec(s + x) == sol_to_lamports_spec(s),
{
    let t = s + x;
    let p = first_dot(s);
    lemma_first_dot_bounds(s, 0);
    lemma_first_dot_append(s, x, 0);
    assert(first_dot(t) == p);
    assert(whole_digits(t) =~= whole_digits(s));
    let f = fraction_digits(s);
    assert(fraction_digits(t) =~= f + x);
    assert(all_digits(f + x)) by {
        assert forall|i: int| 0 <= i < (f + x).len() implies is_digit(#[trigger] (f + x)[i]) by {
            if i < f.len() {
                assert((f + x)[i] == f[i]);
            } else {
                assert((f + x)[i] == x[i - f.len()]);
            }
        }
    }
    assert((f + x).take(9) =~= f.take(9));
}

} // verus!
