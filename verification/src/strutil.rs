//! Verified helpers for the small amount of string work the engine does:
//! comparing variable names and parsing bracketed index paths such as
//! `"vec[3]"` or `"a[1][2]"`.

use vstd::prelude::*;
use vstd::string::StrSliceExecFns;

verus! {

/// Character-wise string equality.
pub fn str_eq(a: &str, b: &str) -> (r: bool)
    ensures
        r <==> a@ == b@,
{
    let la = a.unicode_len();
    let lb = b.unicode_len();
    if la != lb {
        return false;
    }
    let mut k: usize = 0;
    while k < la
        invariant
            la == a@.len(),
            la == b@.len(),
            k <= la,
            forall|p: int| 0 <= p < k ==> a@[p] == b@[p],
        decreases la - k,
    {
        if a.get_char(k) != b.get_char(k) {
            return false;
        }
        k += 1;
    }
    proof {
        assert(a@ =~= b@);
    }
    true
}

/// A decimal digit.
pub open spec fn is_digit(c: char) -> bool {
    '0' as u32 <= c as u32 && c as u32 <= '9' as u32
}

/// Where the run of digits starting at `p` ends.
pub open spec fn digit_run_end(s: Seq<char>, p: int) -> int
    decreases s.len() - p when 0 <= p <= s.len()
{
    if p < s.len() && is_digit(s[p]) {
        digit_run_end(s, p + 1)
    } else {
        p
    }
}

/// The value of the digits `s[p..e]`, most significant first.
pub open spec fn digits_value(s: Seq<char>, p: int, e: int) -> int
    decreases e - p,
{
    if p >= e {
        0
    } else {
        10 * digits_value(s, p, e - 1) + (s[e - 1] as u32 - '0' as u32)
    }
}

/// A scan that stopped at the first non-digit found the run's end.
proof fn lemma_digit_run_end(s: Seq<char>, p: int, e: int)
    requires
        0 <= p <= e <= s.len(),
        forall|k: int| p <= k < e ==> is_digit(#[trigger] s[k]),
        e == s.len() || !is_digit(s[e]),
    ensures
        digit_run_end(s, p) == e,
    decreases e - p,
{
    if p < e {
        lemma_digit_run_end(s, p + 1, e);
    }
}

/// Digit values are non-negative and grow (weakly) with every further
/// digit, so a prefix that is already too large can never recover.
proof fn lemma_digits_value_grows(s: Seq<char>, p: int, k: int, e: int)
    requires
        0 <= p <= k <= e,
        forall|m: int| p <= m < e ==> is_digit(#[trigger] s[m]),
    ensures
        digits_value(s, p, e) >= digits_value(s, p, k) >= 0,
    decreases e - k,
{
    if k == e {
        lemma_digits_value_nonneg(s, p, k);
    } else {
        lemma_digits_value_grows(s, p, k, e - 1);
    }
}

proof fn lemma_digits_value_nonneg(s: Seq<char>, p: int, e: int)
    requires
        forall|m: int| p <= m < e ==> is_digit(#[trigger] s[m]),
    ensures
        digits_value(s, p, e) >= 0,
    decreases e - p,
{
    if p < e {
        lemma_digits_value_nonneg(s, p, e - 1);
    }
}

/// Reads the run of digits that starts at `start`: its value and where it
/// ends.  `None` when there is no digit there, or the value does not fit in
/// a `usize`.
pub fn scan_digits(s: &str, start: usize) -> (r: Option<(usize, usize)>)
    requires
        start <= s@.len(),
    ensures
        ({
            let e = digit_run_end(s@, start as int);
            match r {
                Some(ve) => ve.1 == e && start < e <= s@.len() && ve.0 as int == digits_value(
                    s@,
                    start as int,
                    e,
                ),
                None => e == start || digits_value(s@, start as int, e) > usize::MAX,
            }
        }),
{
    let sl = s.unicode_len();
    let mut p = start;
    let mut val: usize = 0;
    let mut seen = false;
    loop
        invariant
            start <= p <= sl,
            sl == s@.len(),
            forall|k: int| start <= k < p ==> is_digit(#[trigger] s@[k]),
            val as int == digits_value(s@, start as int, p as int),
            seen <==> p > start,
        ensures
            start <= p <= sl,
            forall|k: int| start <= k < p ==> is_digit(#[trigger] s@[k]),
            p == digit_run_end(s@, start as int),
            val as int == digits_value(s@, start as int, p as int),
            seen <==> p > start,
        decreases sl - p,
    {
        if p == sl {
            proof {
                lemma_digit_run_end(s@, start as int, p as int);
            }
            break ;
        }
        let c = s.get_char(p);
        let cu = c as u32;
        if !(cu >= '0' as u32 && cu <= '9' as u32) {
            proof {
                lemma_digit_run_end(s@, start as int, p as int);
            }
            break ;
        }
        let d = (cu - '0' as u32) as usize;
        if val > (usize::MAX - d) / 10 {
            // The digits seen so far already overflow a usize, and more
            // digits can only make the value larger.
            proof {
                let e = digit_run_end(s@, start as int);
                lemma_digit_run_end_covers(s@, start as int, p as int);
                lemma_digits_value_grows(s@, start as int, p as int + 1, e);
            }
            return None;
        }
        val = val * 10 + d;
        p += 1;
        seen = true;
    }
    if !seen {
        return None;
    }
    Some((val, p))
}

/// A position inside the digit run lies before its end.
proof fn lemma_digit_run_end_covers(s: Seq<char>, start: int, p: int)
    requires
        0 <= start <= p < s.len(),
        forall|k: int| start <= k < p ==> is_digit(#[trigger] s[k]),
        is_digit(s[p]),
    ensures
        digit_run_end(s, start) >= p + 1,
        forall|k: int| start <= k < digit_run_end(s, start) ==> is_digit(#[trigger] s[k]),
        digit_run_end(s, start) <= s.len(),
    decreases s.len() - start,
{
    if start < p || (start == p && is_digit(s[start])) {
        if start + 1 <= p {
            lemma_digit_run_end_covers(s, start + 1, p);
        } else {
            lemma_digit_run_tail(s, start + 1);
        }
    }
}

proof fn lemma_digit_run_tail(s: Seq<char>, p: int)
    requires
        0 <= p <= s.len(),
    ensures
        p <= digit_run_end(s, p) <= s.len(),
        forall|k: int| p <= k < digit_run_end(s, p) ==> is_digit(#[trigger] s[k]),
    decreases s.len() - p,
{
    if p < s.len() && is_digit(s[p]) {
        lemma_digit_run_tail(s, p + 1);
    }
}

/// The index of a one-dimensional path `name[k]`, if `s` has exactly that
/// shape.
pub open spec fn spec_elem_index(s: Seq<char>, name: Seq<char>) -> Option<int> {
    let p = name.len() as int;
    if s.len() > p + 1 && s.subrange(0, p) == name && s[p] == '[' {
        let e = digit_run_end(s, p + 1);
        if e > p + 1 && e + 1 == s.len() && s[e] == ']' && digits_value(s, p + 1, e)
            <= usize::MAX {
            Some(digits_value(s, p + 1, e))
        } else {
            None
        }
    } else {
        None
    }
}

/// The indices of a two-dimensional path `name[r][c]`, if `s` has exactly
/// that shape.
pub open spec fn spec_cell_index(s: Seq<char>, name: Seq<char>) -> Option<(int, int)> {
    let p = name.len() as int;
    if s.len() > p + 1 && s.subrange(0, p) == name && s[p] == '[' {
        let e1 = digit_run_end(s, p + 1);
        if e1 > p + 1 && e1 + 1 < s.len() && s[e1] == ']' && s[e1 + 1] == '[' {
            let e2 = digit_run_end(s, e1 + 2);
            if e2 > e1 + 2 && e2 + 1 == s.len() && s[e2] == ']' && digits_value(s, p + 1, e1)
                <= usize::MAX && digits_value(s, e1 + 2, e2) <= usize::MAX {
                Some((digits_value(s, p + 1, e1), digits_value(s, e1 + 2, e2)))
            } else {
                None
            }
        } else {
            None
        }
    } else {
        None
    }
}

/// Checks that `s` starts with `name` followed by `'['`, returning the
/// position after the bracket.
fn match_name_bracket(s: &str, name: &str) -> (r: Option<usize>)
    ensures
        match r {
            Some(p) => p == name@.len() + 1 && s@.len() > p && s@.subrange(
                0,
                name@.len() as int,
            ) == name@ && s@[name@.len() as int] == '[',
            None => !(s@.len() > name@.len() + 1 && s@.subrange(0, name@.len() as int) == name@
                && s@[name@.len() as int] == '['),
        },
{
    let sl = s.unicode_len();
    let nl = name.unicode_len();
    if sl < 2 || nl > sl - 2 {
        return None;
    }
    let mut k: usize = 0;
    while k < nl
        invariant
            sl == s@.len(),
            nl == name@.len(),
            sl > nl + 1,
            k <= nl,
            forall|p: int| 0 <= p < k ==> s@[p] == name@[p],
        decreases nl - k,
    {
        if s.get_char(k) != name.get_char(k) {
            proof {
                assert(s@.subrange(0, nl as int)[k as int] != name@[k as int]);
            }
            return None;
        }
        k += 1;
    }
    proof {
        assert(s@.subrange(0, nl as int) =~= name@);
    }
    if s.get_char(nl) != '[' {
        return None;
    }
    Some(nl + 1)
}

/// Parses a one-dimensional path `name[k]`.
pub fn parse_elem_index(s: &str, name: &str) -> (r: Option<usize>)
    ensures
        match r {
            Some(k) => spec_elem_index(s@, name@) == Some(k as int),
            None => spec_elem_index(s@, name@) is None,
        },
{
    let sl = s.unicode_len();
    let p = match match_name_bracket(s, name) {
        Some(p) => p,
        None => {
            return None;
        },
    };
    match scan_digits(s, p) {
        Some((v, e)) => {
            if e == sl - 1 && s.get_char(e) == ']' {
                Some(v)
            } else {
                None
            }
        },
        None => None,
    }
}

/// Parses a two-dimensional path `name[r][c]`.
pub fn parse_cell_index(s: &str, name: &str) -> (r: Option<(usize, usize)>)
    ensures
        match r {
            Some(rc) => spec_cell_index(s@, name@) == Some((rc.0 as int, rc.1 as int)),
            None => spec_cell_index(s@, name@) is None,
        },
{
    let sl = s.unicode_len();
    let p = match match_name_bracket(s, name) {
        Some(p) => p,
        None => {
            return None;
        },
    };
    let (v1, e1) = match scan_digits(s, p) {
        Some(ve) => ve,
        None => {
            return None;
        },
    };
    if !(e1 < sl - 1) {
        return None;
    }
    if s.get_char(e1) != ']' || s.get_char(e1 + 1) != '[' {
        return None;
    }
    let (v2, e2) = match scan_digits(s, e1 + 2) {
        Some(ve) => ve,
        None => {
            return None;
        },
    };
    if e2 == sl - 1 && s.get_char(e2) == ']' {
        Some((v1, v2))
    } else {
        None
    }
}

} // verus!
