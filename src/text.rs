use vstd::prelude::*;
use vstd::string::StrSliceExecFns;

verus! {

/// `s` without its leading `"` characters.
pub open spec fn trim_start_quotes(s: Seq<char>) -> Seq<char>
    decreases s.len(),
{
    if s.len() > 0 && s[0] == '"' {
        trim_start_quotes(s.drop_first())
    } else {
        s
    }
}

/// `s` without its trailing `"` characters.
pub open spec fn trim_end_quotes(s: Seq<char>) -> Seq<char>
    decreases s.len(),
{
    if s.len() > 0 && s.last() == '"' {
        trim_end_quotes(s.drop_last())
    } else {
        s
    }
}

/// `s` without the `"` characters at either end.
pub open spec fn trim_quotes(s: Seq<char>) -> Seq<char> {
    trim_end_quotes(trim_start_quotes(s))
}

pub open spec fn is_ascii_lower(c: char) -> bool {
    'a' <= c && c <= 'z'
}

/// Two characters are equal once ASCII letters are brought to one case.
pub open spec fn same_char_ignoring_case(a: char, b: char) -> bool {
    a == b || (is_ascii_lower(a) && a as u32 == b as u32 + 32) || (is_ascii_lower(b) && b as u32
        == a as u32 + 32)
}

/// Two texts are equal once ASCII letters are brought to one case.
pub open spec fn same_ignoring_case(a: Seq<char>, b: Seq<char>) -> bool {
    a.len() == b.len() && forall|i: int| 0 <= i < a.len() ==> same_char_ignoring_case(a[i], b[i])
}

/// The characters of `s`, one per element.
pub fn chars_of(s: &str) -> (r: Vec<char>)
    ensures
        r@ == s@,
{
    let n = s.unicode_len();
    let mut r: Vec<char> = Vec::new();
    let mut i: usize = 0;
    while i < n
        invariant
            n == s@.len(),
            i <= n,
            r@ == s@.subrange(0, i as int),
        decreases n - i,
    {
        r.push(s.get_char(i));
        assert(s@.subrange(0, i + 1) =~= s@.subrange(0, i as int).push(s@[i as int]));
        i = i + 1;
    }
    assert(s@.subrange(0, n as int) =~= s@);
    r
}

/// The bounds of `cs` without the `"` characters at either end.
pub fn quote_trimmed_bounds(cs: &Vec<char>) -> (r: (usize, usize))
    ensures
        r.0 <= r.1 <= cs.len(),
        cs@.subrange(r.0 as int, r.1 as int) == trim_quotes(cs@),
{
    let mut lo: usize = 0;
    assert(cs@.subrange(0, cs.len() as int) =~= cs@);
    while lo < cs.len() && cs[lo] == '"'
        invariant
            lo <= cs.len(),
            trim_start_quotes(cs@) == trim_start_quotes(cs@.subrange(lo as int, cs.len() as int)),
        decreases cs.len() - lo,
    {
        assert(cs@.subrange(lo as int, cs.len() as int).drop_first() =~= cs@.subrange(
            lo + 1,
            cs.len() as int,
        ));
        lo = lo + 1;
    }
    let ghost t = cs@.subrange(lo as int, cs.len() as int);
    assert(trim_start_quotes(t) == t);
    let mut hi: usize = cs.len();
    while hi > lo && cs[hi - 1] == '"'
        invariant
            lo <= hi <= cs.len(),
            t == cs@.subrange(lo as int, cs.len() as int),
            trim_end_quotes(t) == trim_end_quotes(cs@.subrange(lo as int, hi as int)),
        decreases hi - lo,
    {
        assert(cs@.subrange(lo as int, hi as int).drop_last() =~= cs@.subrange(
            lo as int,
            hi - 1,
        ));
        hi = hi - 1;
    }
    (lo, hi)
}

/// Whether `cs[lo..hi]` equals `target` once ASCII letters are brought to
/// one case.
pub fn range_matches_ignoring_case(cs: &Vec<char>, lo: usize, hi: usize, target: &Vec<char>) -> (r:
    bool)
    requires
        lo <= hi <= cs.len(),
    ensures
        r == same_ignoring_case(cs@.subrange(lo as int, hi as int), target@),
{
    if hi - lo != target.len() {
        return false;
    }
    let mut i: usize = 0;
    while i < target.len()
        invariant
            i <= target.len(),
            hi - lo == target.len(),
            lo <= hi <= cs.len(),
            forall|j: int|
                0 <= j < i ==> same_char_ignoring_case(
                    #[trigger] cs@.subrange(lo as int, hi as int)[j],
                    target@[j],
                ),
        decreases target.len() - i,
    {
        let a = cs[lo + i];
        let b = target[i];
        let same = a == b || ('a' <= a && a <= 'z' && (a as u32) - 32 == b as u32) || ('a' <= b
            && b <= 'z' && (b as u32) - 32 == a as u32);
        if !same {
            assert(cs@.subrange(lo as int, hi as int)[i as int] == a);
            return false;
        }
        i = i + 1;
    }
    true
}

} // verus!
