use vstd::prelude::*;

use crate::text::{chars_of, range_matches_ignoring_case, same_ignoring_case};

verus! {

/// Amounts are held as whole multiples of 10^-18.
pub const FRACTION_DIGITS: usize = 18;

/// Magnitudes are held up to 10^37 units (10^19 wholes): larger ones, and
/// infinities, are held at this bound.
pub const AMOUNT_BOUND: u128 = 10_000_000_000_000_000_000_000_000_000_000_000_000;

/// Exponents are read up to this magnitude; past it every nonzero amount
/// is beyond the bound or below one unit.
pub const EXPONENT_CAP: u128 = 2 * AMOUNT_BOUND;

pub open spec fn is_digit(c: char) -> bool {
    '0' <= c && c <= '9'
}

pub open spec fn all_digits(s: Seq<char>) -> bool {
    forall|i: int| 0 <= i < s.len() ==> is_digit(#[trigger] s[i])
}

pub open spec fn digit_value(c: char) -> nat {
    (c as u32 - '0' as u32) as nat
}

/// The number that a run of decimal digits spells.
pub open spec fn digits_value(s: Seq<char>) -> nat
    decreases s.len(),
{
    if s.len() == 0 {
        0
    } else {
        digits_value(s.drop_last()) * 10 + digit_value(s.last())
    }
}

pub open spec fn pow10(n: nat) -> nat
    decreases n,
{
    if n == 0 {
        1
    } else {
        10 * pow10((n - 1) as nat)
    }
}

/// The position of the first `.` in `s`, or its length if there is none.
pub open spec fn dot_index(s: Seq<char>) -> int
    decreases s.len(),
{
    if s.len() == 0 || s[0] == '.' {
        0
    } else {
        1 + dot_index(s.drop_first())
    }
}

/// The length of a leading `+` or `-` of `s`.
pub open spec fn sign_len(s: Seq<char>) -> int {
    if s.len() > 0 && (s[0] == '+' || s[0] == '-') {
        1
    } else {
        0
    }
}

/// `v`, negated where `s` starts with `-`.
pub open spec fn signed(s: Seq<char>, v: int) -> int {
    if s.len() > 0 && s[0] == '-' {
        -v
    } else {
        v
    }
}

/// The position of the first `e` or `E` in `s`, or its length.
pub open spec fn exp_index(s: Seq<char>) -> int
    decreases s.len(),
{
    if s.len() == 0 || s[0] == 'e' || s[0] == 'E' {
        0
    } else {
        1 + exp_index(s.drop_first())
    }
}

/// `v`, held at `c` where it is larger.
pub open spec fn cap_at(v: nat, c: nat) -> nat {
    if v > c {
        c
    } else {
        v
    }
}

/// The number that the digits `d` spell, times 10^k, with what falls
/// below one dropped.
pub open spec fn scaled(d: Seq<char>, k: int) -> nat {
    if k >= 0 {
        digits_value(d) * pow10(k as nat)
    } else if -k <= d.len() {
        digits_value(d.subrange(0, d.len() + k))
    } else {
        0
    }
}

/// An exponent text: an optional sign, then at least one digit.
pub open spec fn exponent_ok(t: Seq<char>) -> bool {
    t.len() > sign_len(t) && all_digits(t.subrange(sign_len(t), t.len() as int))
}

pub open spec fn exponent_value(t: Seq<char>) -> int {
    signed(t, digits_value(t.subrange(sign_len(t), t.len() as int)) as int)
}

/// The magnitude in units of 10^-18 of an unsigned number text:
/// `digits[.digits]` or `.digits`, then optionally `e` or `E`, a sign and
/// digits. Digits below one unit are dropped, magnitudes beyond the bound
/// are held at it. `None` for any other text.
pub open spec fn magnitude_units(b: Seq<char>) -> Option<nat> {
    let x = exp_index(b);
    let m = b.subrange(0, x);
    let t = if x < b.len() { b.subrange(x + 1, b.len() as int) } else { Seq::empty() };
    let d = dot_index(m);
    let ip = m.subrange(0, d);
    let fp = if d < m.len() { m.subrange(d + 1, m.len() as int) } else { Seq::empty() };
    if all_digits(ip) && all_digits(fp) && ip.len() + fp.len() > 0 && (x == b.len()
        || exponent_ok(t)) {
        let e = if x < b.len() { exponent_value(t) } else { 0 };
        Some(cap_at(scaled(ip + fp, FRACTION_DIGITS + e - fp.len()), AMOUNT_BOUND as nat))
    } else {
        None
    }
}

/// What floating-point parsing makes of `s`, in units of 10^-18: an
/// optional sign, then a number text, `inf` or `infinity` (held at the
/// bound), or `nan` (`None`), letters in either case. Text that
/// floating-point parsing rejects counts as zero.
pub open spec fn amount_units(s: Seq<char>) -> Option<int> {
    let b = s.subrange(sign_len(s), s.len() as int);
    if same_ignoring_case(b, "nan"@) {
        None
    } else if same_ignoring_case(b, "inf"@) || same_ignoring_case(b, "infinity"@) {
        Some(signed(s, AMOUNT_BOUND as int))
    } else {
        match magnitude_units(b) {
            Some(m) => Some(signed(s, m as int)),
            None => Some(0),
        }
    }
}

proof fn lemma_dot_index(s: Seq<char>, k: int)
    requires
        0 <= k <= s.len(),
        forall|j: int| 0 <= j < k ==> s[j] != '.',
        k == s.len() || s[k] == '.',
    ensures
        dot_index(s) == k,
    decreases k,
{
    if k > 0 {
        lemma_dot_index(s.drop_first(), k - 1);
    }
}

proof fn lemma_exp_index(s: Seq<char>, k: int)
    requires
        0 <= k <= s.len(),
        forall|j: int| 0 <= j < k ==> s[j] != 'e' && s[j] != 'E',
        k == s.len() || s[k] == 'e' || s[k] == 'E',
    ensures
        exp_index(s) == k,
    decreases k,
{
    if k > 0 {
        lemma_exp_index(s.drop_first(), k - 1);
    }
}

proof fn lemma_cap_step(x: nat, c: nat, d: nat)
    ensures
        cap_at(cap_at(x, c) * 10 + d, c) == cap_at(x * 10 + d, c),
{
    assert(x > c ==> x * 10 + d > c) by (nonlinear_arith);
}

proof fn lemma_pow10_facts(i: nat, k: nat)
    requires
        i <= k,
    ensures
        1 <= pow10(i) <= pow10(k),
        pow10(k) >= k + 1,
    decreases k,
{
    if k > 0 {
        if i < k {
            lemma_pow10_facts(i, (k - 1) as nat);
        } else {
            lemma_pow10_facts((k - 1) as nat, (k - 1) as nat);
        }
    }
}

/// Past the cap, an exponent moves every amount to the same place.
proof fn lemma_far_scale(d: Seq<char>, k1: int, k2: int)
    requires
        (k1 > AMOUNT_BOUND && k2 > AMOUNT_BOUND) || (k1 < -d.len() && k2 < -d.len()),
    ensures
        cap_at(scaled(d, k1), AMOUNT_BOUND as nat) == cap_at(scaled(d, k2), AMOUNT_BOUND as nat),
{
    if k1 > AMOUNT_BOUND && k2 > AMOUNT_BOUND && digits_value(d) > 0 {
        lemma_pow10_facts(0, k1 as nat);
        lemma_pow10_facts(0, k2 as nat);
        let v = digits_value(d);
        assert(v * pow10(k1 as nat) >= pow10(k1 as nat)) by (nonlinear_arith)
            requires
                v >= 1,
        ;
        assert(v * pow10(k2 as nat) >= pow10(k2 as nat)) by (nonlinear_arith)
            requires
                v >= 1,
        ;
    }
}

/// The number that the digits `ds[lo..hi]` spell, held at `cap`.
fn capped_digits(ds: &Vec<char>, lo: usize, hi: usize, cap: u128) -> (r: u128)
    requires
        lo <= hi <= ds.len(),
        all_digits(ds@.subrange(lo as int, hi as int)),
        cap <= EXPONENT_CAP,
    ensures
        r == cap_at(digits_value(ds@.subrange(lo as int, hi as int)), cap as nat),
{
    let mut acc: u128 = 0;
    let mut i: usize = lo;
    while i < hi
        invariant
            lo <= i <= hi <= ds.len(),
            all_digits(ds@.subrange(lo as int, hi as int)),
            cap <= EXPONENT_CAP,
            acc == cap_at(digits_value(ds@.subrange(lo as int, i as int)), cap as nat),
        decreases hi - i,
    {
        let c = ds[i];
        assert(ds@.subrange(lo as int, hi as int)[i - lo] == c);
        assert(ds@.subrange(lo as int, i + 1).drop_last() =~= ds@.subrange(lo as int, i as int));
        let dv = (c as u32 - '0' as u32) as u128;
        proof {
            lemma_cap_step(digits_value(ds@.subrange(lo as int, i as int)), cap as nat, dv as nat);
        }
        let nv = acc * 10 + dv;
        acc = if nv > cap {
            cap
        } else {
            nv
        };
        i = i + 1;
    }
    acc
}

/// `cap_at(v * 10^k, AMOUNT_BOUND)` from `cap_at(v, AMOUNT_BOUND)`.
fn scale_up(start: u128, k: i128, Ghost(v): Ghost<nat>) -> (r: u128)
    requires
        k >= 0,
        start == cap_at(v, AMOUNT_BOUND as nat),
    ensures
        r == cap_at(v * pow10(k as nat), AMOUNT_BOUND as nat),
{
    let mut acc = start;
    let mut i: i128 = 0;
    assert(pow10(0) == 1);
    assert(v * pow10(0) == v);
    while i < k && acc > 0 && acc < AMOUNT_BOUND
        invariant
            0 <= i <= k,
            acc == cap_at(v * pow10(i as nat), AMOUNT_BOUND as nat),
        decreases k - i,
    {
        proof {
            lemma_cap_step(v * pow10(i as nat), AMOUNT_BOUND as nat, 0);
            assert(v * pow10((i + 1) as nat) == (v * pow10(i as nat)) * 10) by (nonlinear_arith)
                requires
                    pow10((i + 1) as nat) == 10 * pow10(i as nat),
            ;
        }
        let nv = acc * 10;
        acc = if nv > AMOUNT_BOUND {
            AMOUNT_BOUND
        } else {
            nv
        };
        i = i + 1;
    }
    proof {
        lemma_pow10_facts(i as nat, k as nat);
        if i < k {
            if acc == 0 {
                assert(v == 0) by (nonlinear_arith)
                    requires
                        v * pow10(i as nat) == 0,
                        pow10(i as nat) >= 1,
                ;
                assert(v * pow10(k as nat) == 0) by (nonlinear_arith)
                    requires
                        v == 0,
                ;
            } else {
                assert(v * pow10(k as nat) >= v * pow10(i as nat)) by (nonlinear_arith)
                    requires
                        pow10(i as nat) <= pow10(k as nat),
                ;
            }
        }
    }
    acc
}

/// The characters of `cs[lo..hi]` followed by those of `cs[lo2..hi2]`,
/// where all are digits.
fn collect_digits(cs: &Vec<char>, lo: usize, hi: usize, lo2: usize, hi2: usize) -> (r: Option<Vec<char>>)
    requires
        lo <= hi <= cs.len(),
        lo2 <= hi2 <= cs.len(),
    ensures
        match r {
            Some(dv) => dv@ == cs@.subrange(lo as int, hi as int) + cs@.subrange(lo2 as int, hi2 as int)
                && all_digits(dv@),
            None => !all_digits(cs@.subrange(lo as int, hi as int)) || !all_digits(
                cs@.subrange(lo2 as int, hi2 as int),
            ),
        },
{
    let mut dv: Vec<char> = Vec::new();
    let mut i: usize = lo;
    while i < hi
        invariant
            lo <= i <= hi <= cs.len(),
            dv@ == cs@.subrange(lo as int, i as int),
            all_digits(dv@),
        decreases hi - i,
    {
        let c = cs[i];
        if !('0' <= c && c <= '9') {
            assert(cs@.subrange(lo as int, hi as int)[i - lo] == c);
            return None;
        }
        dv.push(c);
        assert(cs@.subrange(lo as int, i + 1) =~= cs@.subrange(lo as int, i as int).push(c));
        i = i + 1;
    }
    let ghost first = dv@;
    let mut j: usize = lo2;
    while j < hi2
        invariant
            lo2 <= j <= hi2 <= cs.len(),
            first == cs@.subrange(lo as int, hi as int),
            dv@ == first + cs@.subrange(lo2 as int, j as int),
            all_digits(dv@),
        decreases hi2 - j,
    {
        let c = cs[j];
        if !('0' <= c && c <= '9') {
            assert(cs@.subrange(lo2 as int, hi2 as int)[j - lo2] == c);
            return None;
        }
        dv.push(c);
        assert(cs@.subrange(lo2 as int, j + 1) =~= cs@.subrange(lo2 as int, j as int).push(c));
        j = j + 1;
    }
    Some(dv)
}

/// The exponent text `cs[lo..hi]`, its magnitude held at the cap.
fn parse_exponent(cs: &Vec<char>, lo: usize, hi: usize) -> (r: Option<i128>)
    requires
        lo <= hi <= cs.len(),
    ensures
        match r {
            Some(e) => {
                let t = cs@.subrange(lo as int, hi as int);
                let m = digits_value(t.subrange(sign_len(t), t.len() as int));
                &&& exponent_ok(t)
                &&& e == signed(t, cap_at(m, EXPONENT_CAP as nat) as int)
            },
            None => !exponent_ok(cs@.subrange(lo as int, hi as int)),
        },
{
    let ghost t = cs@.subrange(lo as int, hi as int);
    let es: usize = if lo < hi && (cs[lo] == '+' || cs[lo] == '-') {
        lo + 1
    } else {
        lo
    };
    if es >= hi {
        return None;
    }
    assert(t.subrange(sign_len(t), t.len() as int) =~= cs@.subrange(es as int, hi as int));
    match collect_digits(cs, es, hi, hi, hi) {
        None => {
            assert(cs@.subrange(hi as int, hi as int) =~= Seq::<char>::empty());
            None
        },
        Some(_) => {
            assert(cs@.subrange(es as int, hi as int) + cs@.subrange(hi as int, hi as int)
                =~= cs@.subrange(es as int, hi as int));
            let em = capped_digits(cs, es, hi, EXPONENT_CAP);
            Some(
                if lo < hi && cs[lo] == '-' {
                    -(em as i128)
                } else {
                    em as i128
                },
            )
        },
    }
}

/// The magnitude of the unsigned number text `cs[lo..hi]`.
#[verifier::rlimit(40)]
pub fn parse_magnitude(cs: &Vec<char>, lo: usize, hi: usize) -> (r: Option<u128>)
    requires
        lo <= hi <= cs.len(),
    ensures
        match r {
            Some(m) => magnitude_units(cs@.subrange(lo as int, hi as int)) == Some(m as nat),
            None => magnitude_units(cs@.subrange(lo as int, hi as int)) is None,
        },
{
    let ghost b = cs@.subrange(lo as int, hi as int);
    let mut x: usize = lo;
    while x < hi && cs[x] != 'e' && cs[x] != 'E'
        invariant
            lo <= x <= hi <= cs.len(),
            forall|j: int| lo <= j < x ==> cs@[j] != 'e' && cs@[j] != 'E',
        decreases hi - x,
    {
        x = x + 1;
    }
    proof {
        lemma_exp_index(b, x - lo);
    }
    let ghost m = b.subrange(0, x - lo);
    assert(m =~= cs@.subrange(lo as int, x as int));
    let mut d: usize = lo;
    while d < x && cs[d] != '.'
        invariant
            lo <= d <= x <= hi <= cs.len(),
            forall|j: int| lo <= j < d ==> cs@[j] != '.',
        decreases x - d,
    {
        d = d + 1;
    }
    proof {
        lemma_dot_index(m, d - lo);
    }
    let ghost ip = m.subrange(0, d - lo);
    let ghost fp = if d < x { m.subrange(d - lo + 1, x - lo) } else { Seq::<char>::empty() };
    assert(ip =~= cs@.subrange(lo as int, d as int));
    let f0: usize = if d < x {
        d + 1
    } else {
        x
    };
    assert(fp =~= cs@.subrange(f0 as int, x as int));
    let dv = match collect_digits(cs, lo, d, f0, x) {
        Some(dv) => dv,
        None => {
            return None;
        },
    };
    let fl: usize = x - f0;
    if dv.len() == 0 {
        return None;
    }
    let ghost t = if x < hi { b.subrange(x - lo + 1, b.len() as int) } else { Seq::<char>::empty() };
    let e: i128 = if x < hi {
        assert(t =~= cs@.subrange(x + 1, hi as int));
        match parse_exponent(cs, x + 1, hi) {
            Some(e) => e,
            None => {
                return None;
            },
        }
    } else {
        0
    };
    let ghost true_e: int = if x < hi { exponent_value(t) } else { 0 };
    let k: i128 = FRACTION_DIGITS as i128 + e - fl as i128;
    let ghost true_k: int = FRACTION_DIGITS + true_e - fp.len();
    let ghost v = digits_value(dv@);
    let mag = if k >= 0 {
        let start = capped_digits(&dv, 0, dv.len(), AMOUNT_BOUND);
        assert(dv@.subrange(0, dv.len() as int) =~= dv@);
        scale_up(start, k, Ghost(v))
    } else {
        let j = (-k) as u128;
        if j > dv.len() as u128 {
            0
        } else {
            let n = dv.len() - j as usize;
            assert(all_digits(dv@.subrange(0, n as int)));
            capped_digits(&dv, 0, n, AMOUNT_BOUND)
        }
    };
    assert(mag == cap_at(scaled(dv@, k as int), AMOUNT_BOUND as nat));
    proof {
        assert(dv@ == ip + fp);
        if true_k != k {
            assert(x < hi);
            let mm = digits_value(t.subrange(sign_len(t), t.len() as int));
            assert(mm > EXPONENT_CAP);
            assert(fl <= usize::MAX && dv@.len() <= usize::MAX);
            assert((true_k > AMOUNT_BOUND && k > AMOUNT_BOUND) || (true_k < -dv@.len() && k
                < -dv@.len()));
            lemma_far_scale(dv@, k as int, true_k);
        }
        assert forall|q: int| 0 <= q < ip.len() implies is_digit(#[trigger] ip[q]) by {
            assert(ip[q] == dv@[q]);
        }
        assert forall|q: int| 0 <= q < fp.len() implies is_digit(#[trigger] fp[q]) by {
            assert(fp[q] == dv@[ip.len() + q]);
        }
        assert(exp_index(b) == x - lo);
        assert(dot_index(m) == d - lo);
        assert(x < hi ==> exponent_ok(t));
        assert(magnitude_units(b) == Some(cap_at(scaled(ip + fp, true_k), AMOUNT_BOUND as nat)));
    }
    Some(mag)
}

/// What floating-point parsing makes of `cs[lo..hi]`, in units of 10^-18
/// (`None`: not a number).
pub fn parse_amount(cs: &Vec<char>, lo: usize, hi: usize) -> (r: Option<i128>)
    requires
        lo <= hi <= cs.len(),
    ensures
        match r {
            Some(v) => amount_units(cs@.subrange(lo as int, hi as int)) == Some(v as int),
            None => amount_units(cs@.subrange(lo as int, hi as int)) is None,
        },
{
    let ghost s = cs@.subrange(lo as int, hi as int);
    let neg = lo < hi && cs[lo] == '-';
    let b0 = if lo < hi && (cs[lo] == '+' || cs[lo] == '-') {
        lo + 1
    } else {
        lo
    };
    assert(cs@.subrange(b0 as int, hi as int) =~= s.subrange(sign_len(s), s.len() as int));
    if range_matches_ignoring_case(cs, b0, hi, &chars_of("nan")) {
        return None;
    }
    let mag = if range_matches_ignoring_case(cs, b0, hi, &chars_of("inf"))
        || range_matches_ignoring_case(cs, b0, hi, &chars_of("infinity")) {
        AMOUNT_BOUND
    } else {
        match parse_magnitude(cs, b0, hi) {
            Some(m) => m,
            None => 0,
        }
    };
    Some(
        if neg {
            -(mag as i128)
        } else {
            mag as i128
        },
    )
}

} // verus!
