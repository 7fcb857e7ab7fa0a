use vstd::prelude::*;
use vstd::string::{StrSliceExecFns, StringExecFns};

use crate::json::PathStep;

verus! {

/// A path step as the grammar reads it.
pub enum StepText {
    Field(Seq<char>),
    Wildcard,
}

/// How a parsed step reads.
pub open spec fn step_text(s: PathStep) -> StepText {
    match s {
        PathStep::Field(k) => StepText::Field(k@),
        PathStep::Wildcard => StepText::Wildcard,
    }
}

/// The length of the longest prefix of `s` without `.` or `[`.
pub open spec fn name_len(s: Seq<char>) -> int
    decreases s.len(),
{
    if s.len() == 0 || s[0] == '.' || s[0] == '[' {
        0
    } else {
        1 + name_len(s.drop_first())
    }
}

/// The steps that `s` spells: any run of `.name` (a non-empty name without
/// `.` or `[`) and `[*]`.
pub open spec fn parse_steps(s: Seq<char>) -> Option<Seq<StepText>>
    decreases s.len(),
{
    if s.len() == 0 {
        Some(Seq::empty())
    } else if s[0] == '.' {
        let n = name_len(s.drop_first());
        if n <= 0 || n + 1 > s.len() {
            None
        } else {
            match parse_steps(s.subrange(1 + n, s.len() as int)) {
                Some(r) => Some(seq![StepText::Field(s.subrange(1, 1 + n))] + r),
                None => None,
            }
        }
    } else if s.len() >= 3 && s[0] == '[' && s[1] == '*' && s[2] == ']' {
        match parse_steps(s.subrange(3, s.len() as int)) {
            Some(r) => Some(seq![StepText::Wildcard] + r),
            None => None,
        }
    } else {
        None
    }
}

/// The steps of a query `$` followed by steps.
pub open spec fn parse_query_text(s: Seq<char>) -> Option<Seq<StepText>> {
    if s.len() > 0 && s[0] == '$' {
        parse_steps(s.drop_first())
    } else {
        None
    }
}

proof fn lemma_name_len(s: Seq<char>, k: int)
    requires
        0 <= k <= s.len(),
        forall|j: int| 0 <= j < k ==> s[j] != '.' && s[j] != '[',
        k == s.len() || s[k] == '.' || s[k] == '[',
    ensures
        name_len(s) == k,
    decreases k,
{
    if k > 0 {
        lemma_name_len(s.drop_first(), k - 1);
    }
}

/// Parses a path query such as `$.balances[*].asset`; `None` where the text
/// is no query of that form.
pub fn parse_query(q: &str) -> (r: Option<Vec<PathStep>>)
    ensures
        match r {
            Some(steps) => parse_query_text(q@) == Some(steps@.map_values(|s: PathStep| step_text(s))),
            None => parse_query_text(q@) is None,
        },
{
    let len = q.unicode_len();
    if len == 0 || q.get_char(0) != '$' {
        return None;
    }
    let mut out: Vec<PathStep> = Vec::new();
    let mut p: usize = 1;
    assert(q@.drop_first() =~= q@.subrange(1, len as int));
    while p < len
        invariant
            1 <= p <= len,
            len == q@.len(),
            parse_query_text(q@) == match parse_steps(q@.subrange(p as int, len as int)) {
                Some(rest) => Some(out@.map_values(|s: PathStep| step_text(s)) + rest),
                None => None::<Seq<StepText>>,
            },
        decreases len - p,
    {
        let ghost t = q@.subrange(p as int, len as int);
        let ghost before = out@.map_values(|s: PathStep| step_text(s));
        let c = q.get_char(p);
        if c == '.' {
            let mut e: usize = p + 1;
            while e < len && q.get_char(e) != '.' && q.get_char(e) != '['
                invariant
                    p < e <= len,
                    len == q@.len(),
                    forall|j: int| p < j < e ==> q@[j] != '.' && q@[j] != '[',
                decreases len - e,
            {
                e = e + 1;
            }
            proof {
                let u = t.drop_first();
                assert forall|j: int| 0 <= j < e - p - 1 implies u[j] != '.' && u[j] != '[' by {
                    assert(u[j] == q@[p + 1 + j]);
                }
                lemma_name_len(u, e - p - 1);
            }
            if e == p + 1 {
                return None;
            }
            let name = String::from_str(q.substring_char(p + 1, e));
            assert(t.subrange(1 + (e - p - 1), t.len() as int) =~= q@.subrange(e as int, len as int));
            assert(t.subrange(1, e - p) =~= name@);
            out.push(PathStep::Field(name));
            assert(out@.map_values(|s: PathStep| step_text(s)) =~= before.push(StepText::Field(name@)));
            proof {
                match parse_steps(q@.subrange(e as int, len as int)) {
                    Some(rest) => {
                        assert(before.push(StepText::Field(name@)) + rest =~= before + (seq![
                            StepText::Field(name@),
                        ] + rest));
                    },
                    None => {},
                }
            }
            p = e;
        } else if len - p >= 3 && c == '[' && q.get_char(p + 1) == '*' && q.get_char(p + 2) == ']' {
            assert(t.subrange(3, t.len() as int) =~= q@.subrange(p + 3, len as int));
            out.push(PathStep::Wildcard);
            assert(out@.map_values(|s: PathStep| step_text(s)) =~= before.push(StepText::Wildcard));
            proof {
                match parse_steps(q@.subrange(p + 3, len as int)) {
                    Some(rest) => {
                        assert(before.push(StepText::Wildcard) + rest =~= before + (seq![
                            StepText::Wildcard,
                        ] + rest));
                    },
                    None => {},
                }
            }
            p = p + 3;
        } else {
            return None;
        }
    }
    assert(q@.subrange(len as int, len as int) =~= Seq::<char>::empty());
    assert(out@.map_values(|s: PathStep| step_text(s)) + Seq::<StepText>::empty() =~= out@.map_values(|s: PathStep| step_text(s)));
    Some(out)
}

/// Parses every query of `texts`, in order; `None` where one is malformed.
pub fn parse_queries(texts: &Vec<String>) -> (r: Option<Vec<Vec<PathStep>>>)
    ensures
        match r {
            Some(qs) => qs.len() == texts.len() && forall|i: int|
                0 <= i < texts.len() ==> parse_query_text(#[trigger] texts@[i]@) == Some(
                    qs@[i]@.map_values(|s: PathStep| step_text(s)),
                ),
            None => exists|i: int| 0 <= i < texts.len() && parse_query_text(#[trigger] texts@[i]@) is None,
        },
{
    let mut qs: Vec<Vec<PathStep>> = Vec::new();
    let mut i: usize = 0;
    while i < texts.len()
        invariant
            i <= texts.len(),
            qs.len() == i,
            forall|j: int|
                0 <= j < i ==> parse_query_text(#[trigger] texts@[j]@) == Some(
                    qs@[j]@.map_values(|s: PathStep| step_text(s)),
                ),
        decreases texts.len() - i,
    {
        match parse_query(texts[i].as_str()) {
            Some(steps) => {
                qs.push(steps);
            },
            None => {
                return None;
            },
        }
        i = i + 1;
    }
    Some(qs)
}

} // verus!
