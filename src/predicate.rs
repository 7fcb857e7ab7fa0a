use vstd::prelude::*;

use crate::amount::{amount_units, parse_amount, AMOUNT_BOUND};
use crate::error::ZkErrorCode;
use crate::text::{
    chars_of, quote_trimmed_bounds, range_matches_ignoring_case, same_ignoring_case, trim_quotes,
};

verus! {

/// A business check over the values extracted from one response document.
pub enum Predicate {
    /// Values come as three groups (symbol, free, locked). The first row
    /// whose symbol equals `symbol` (ignoring case and quotes) gives the
    /// balance free + locked; the check holds when it exceeds `threshold`.
    ThresholdSum { symbol: String, threshold: u128 },
    /// Values come as two groups (code, size). The first row's code must equal
    /// `code` (ignoring case and quotes) and its size must exceed `threshold`.
    MatchThreshold { code: String, threshold: u128 },
}

/// The amount that an extracted value stands for, its quotes trimmed
/// (`None`: not a number).
pub open spec fn value_units(v: Seq<char>) -> Option<int> {
    amount_units(trim_quotes(v))
}

/// The sum of two amounts; not a number where either is not.
pub open spec fn sum_units(a: Option<int>, b: Option<int>) -> Option<int> {
    match (a, b) {
        (Some(x), Some(y)) => Some(x + y),
        _ => None,
    }
}

/// Whether an amount exceeds `t`; not a number exceeds nothing.
pub open spec fn exceeds(a: Option<int>, t: int) -> bool {
    match a {
        Some(x) => x > t,
        None => false,
    }
}

/// The balance of the first row, from `j` on, whose symbol matches.
pub open spec fn row_balance(vals: Seq<Seq<char>>, size: int, symbol: Seq<char>, j: int) -> Option<
    int,
>
    decreases size - j,
{
    if j >= size {
        Some(0)
    } else if same_ignoring_case(trim_quotes(vals[j]), symbol) {
        sum_units(value_units(vals[size + j]), value_units(vals[2 * size + j]))
    } else {
        row_balance(vals, size, symbol, j + 1)
    }
}

/// The balance that a threshold-sum check compares; zero where no row
/// matches.
pub open spec fn balance_of(vals: Seq<Seq<char>>, symbol: Seq<char>) -> Option<int> {
    row_balance(vals, (vals.len() / 3) as int, symbol, 0)
}

/// What a predicate decides on the extracted values.
pub open spec fn predicate_outcome(vals: Seq<Seq<char>>, p: Predicate) -> Result<(), ZkErrorCode> {
    match p {
        Predicate::ThresholdSum { symbol, threshold } => {
            if exceeds(balance_of(vals, symbol@), threshold as int) {
                Ok(())
            } else {
                Err(ZkErrorCode::Unsatisfied)
            }
        },
        Predicate::MatchThreshold { code, threshold } => {
            let n = (vals.len() / 2) as int;
            if n == 0 {
                Err(ZkErrorCode::InvalidJsonValueSize)
            } else if !same_ignoring_case(trim_quotes(vals[0]), code@) {
                Err(ZkErrorCode::NotMatch)
            } else if exceeds(value_units(vals[n]), threshold as int) {
                Ok(())
            } else {
                Err(ZkErrorCode::Unsatisfied)
            }
        },
    }
}

/// The amount that an extracted value stands for (`None`: not a number).
pub fn value_amount(v: &String) -> (r: Option<i128>)
    ensures
        match r {
            Some(x) => value_units(v@) == Some(x as int),
            None => value_units(v@) is None,
        },
{
    let cs = chars_of(v.as_str());
    let (lo, hi) = quote_trimmed_bounds(&cs);
    parse_amount(&cs, lo, hi)
}

/// Whether an amount exceeds `t`.
fn amount_exceeds(a: Option<i128>, t: u128) -> (r: bool)
    requires
        match a {
            Some(x) => -2 * AMOUNT_BOUND <= x <= 2 * AMOUNT_BOUND,
            None => true,
        },
    ensures
        r == exceeds(
            match a {
                Some(x) => Some(x as int),
                None => None,
            },
            t as int,
        ),
{
    match a {
        Some(x) => t <= 2 * AMOUNT_BOUND && x > t as i128,
        None => false,
    }
}

fn value_matches(v: &String, target: &Vec<char>) -> (r: bool)
    ensures
        r == same_ignoring_case(trim_quotes(v@), target@),
{
    let cs = chars_of(v.as_str());
    let (lo, hi) = quote_trimmed_bounds(&cs);
    range_matches_ignoring_case(&cs, lo, hi, target)
}

/// The sum of two amounts.
fn add_amounts(a: Option<i128>, b: Option<i128>) -> (r: Option<i128>)
    requires
        match a {
            Some(x) => -AMOUNT_BOUND <= x <= AMOUNT_BOUND,
            None => true,
        },
        match b {
            Some(x) => -AMOUNT_BOUND <= x <= AMOUNT_BOUND,
            None => true,
        },
    ensures
        match r {
            Some(x) => sum_units(
                match a {
                    Some(x) => Some(x as int),
                    None => None,
                },
                match b {
                    Some(x) => Some(x as int),
                    None => None,
                },
            ) == Some(x as int) && -2 * AMOUNT_BOUND <= x <= 2 * AMOUNT_BOUND,
            None => a is None || b is None,
        },
{
    match (a, b) {
        (Some(x), Some(y)) => Some(x + y),
        _ => None,
    }
}

/// Whether the balance of a threshold-sum check (free + locked of the first
/// row whose symbol matches, zero where none does) exceeds `threshold`.
pub fn threshold_balance_exceeds(values: &Vec<String>, symbol: &String, threshold: u128) -> (r: bool)
    ensures
        r == exceeds(balance_of(values.deep_view(), symbol@), threshold as int),
{
    let ghost vals = values.deep_view();
    let target = chars_of(symbol.as_str());
    let size = values.len() / 3;
    let mut j: usize = 0;
    while j < size
        invariant
            size == vals.len() / 3,
            3 * size <= values.len(),
            vals.len() == values.len(),
            vals == values.deep_view(),
            target@ == symbol@,
            j <= size,
            balance_of(vals, symbol@) == row_balance(vals, size as int, symbol@, j as int),
        decreases size - j,
    {
        if value_matches(&values[j], &target) {
            let free = value_amount(&values[size + j]);
            let locked = value_amount(&values[2 * size + j]);
            proof {
                lemma_amount_bounded(trim_quotes(vals[size + j]));
                lemma_amount_bounded(trim_quotes(vals[2 * size + j]));
            }
            return amount_exceeds(add_amounts(free, locked), threshold);
        }
        j = j + 1;
    }
    false
}

/// Evaluates `p` on the extracted values.
pub fn evaluate(values: &Vec<String>, p: &Predicate) -> (r: Result<(), ZkErrorCode>)
    ensures
        r == predicate_outcome(values.deep_view(), *p),
{
    match p {
        Predicate::ThresholdSum { symbol, threshold } => {
            if threshold_balance_exceeds(values, symbol, *threshold) {
                Ok(())
            } else {
                Err(ZkErrorCode::Unsatisfied)
            }
        },
        Predicate::MatchThreshold { code, threshold } => {
            let n = values.len() / 2;
            if n == 0 {
                return Err(ZkErrorCode::InvalidJsonValueSize);
            }
            let target = chars_of(code.as_str());
            if !value_matches(&values[0], &target) {
                return Err(ZkErrorCode::NotMatch);
            }
            let size = value_amount(&values[n]);
            proof {
                lemma_amount_bounded(trim_quotes(values.deep_view()[n as int]));
            }
            if amount_exceeds(size, *threshold) {
                Ok(())
            } else {
                Err(ZkErrorCode::Unsatisfied)
            }
        },
    }
}

proof fn lemma_amount_bounded(s: Seq<char>)
    ensures
        match amount_units(s) {
            Some(x) => -AMOUNT_BOUND <= x <= AMOUNT_BOUND,
            None => true,
        },
{
}

} // verus!
