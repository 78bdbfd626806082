//! Character-level scanning helpers behind the parser.
//!
//! Each helper walks a `&str` by character index and reports, in its
//! contract, exactly the quantified fact the grammar model speaks of.

use vstd::prelude::*;
use vstd::string::StrSliceExecFns;

use crate::grammar::{ci_eq, is_ascii_alpha, is_locale_char, is_sep, lower_code};

verus! {

/// The code point of `c`, with ASCII upper-case letters folded to lower case.
pub(crate) fn lower_code_x(c: char) -> (r: u32)
    ensures
        r == lower_code(c),
{
    let u: u32 = c as u32;
    if 65 <= u && u <= 90 {
        u + 32
    } else {
        u
    }
}

/// Whether `c` is a path separator.
pub(crate) fn is_sep_x(c: char) -> (r: bool)
    ensures
        r == is_sep(c),
{
    c == '/' || c == '\\'
}

/// The index of the first separator at or after `from`, if any.
pub(crate) fn find_first_sep(s: &str, from: usize) -> (r: Option<usize>)
    requires
        from <= s@.len(),
    ensures
        match r {
            Some(i) => from <= i < s@.len() && is_sep(s@[i as int])
                && forall|j: int| from <= j < i ==> !is_sep(#[trigger] s@[j]),
            None => forall|j: int| from <= j < s@.len() ==> !is_sep(#[trigger] s@[j]),
        },
{
    let n: usize = s.unicode_len();
    let mut i: usize = from;
    while i < n
        invariant
            from <= i <= n,
            n == s@.len(),
            forall|j: int| from <= j < i ==> !is_sep(#[trigger] s@[j]),
        decreases n - i,
    {
        let c = s.get_char(i);
        if c == '/' || c == '\\' {
            return Some(i);
        }
        i = i + 1;
    }
    None
}

/// The index of the last separator of the string, if any.
pub(crate) fn find_last_sep(s: &str) -> (r: Option<usize>)
    ensures
        match r {
            Some(i) => i < s@.len() && is_sep(s@[i as int])
                && forall|j: int| i < j < s@.len() ==> !is_sep(#[trigger] s@[j]),
            None => forall|j: int| 0 <= j < s@.len() ==> !is_sep(#[trigger] s@[j]),
        },
{
    let n: usize = s.unicode_len();
    let mut i: usize = n;
    while i > 0
        invariant
            i <= n,
            n == s@.len(),
            forall|j: int| i <= j < s@.len() ==> !is_sep(#[trigger] s@[j]),
        decreases i,
    {
        i = i - 1;
        let c = s.get_char(i);
        if c == '/' || c == '\\' {
            return Some(i);
        }
    }
    None
}

/// The index of the first dot at or after `from`, if any.
pub(crate) fn find_first_dot(s: &str, from: usize) -> (r: Option<usize>)
    requires
        from <= s@.len(),
    ensures
        match r {
            Some(i) => from <= i < s@.len() && s@[i as int] == '.'
                && forall|j: int| from <= j < i ==> #[trigger] s@[j] != '.',
            None => forall|j: int| from <= j < s@.len() ==> #[trigger] s@[j] != '.',
        },
{
    let n: usize = s.unicode_len();
    let mut i: usize = from;
    while i < n
        invariant
            from <= i <= n,
            n == s@.len(),
            forall|j: int| from <= j < i ==> #[trigger] s@[j] != '.',
        decreases n - i,
    {
        let c = s.get_char(i);
        if c == '.' {
            return Some(i);
        }
        i = i + 1;
    }
    None
}

/// The index of the last dot at or after `from`, if any.
pub(crate) fn find_last_dot(s: &str, from: usize) -> (r: Option<usize>)
    requires
        from <= s@.len(),
    ensures
        match r {
            Some(i) => from <= i < s@.len() && s@[i as int] == '.'
                && forall|j: int| i < j < s@.len() ==> #[trigger] s@[j] != '.',
            None => forall|j: int| from <= j < s@.len() ==> #[trigger] s@[j] != '.',
        },
{
    let n: usize = s.unicode_len();
    let mut i: usize = n;
    while i > from
        invariant
            from <= i <= n,
            n == s@.len(),
            forall|j: int| i <= j < s@.len() ==> #[trigger] s@[j] != '.',
        decreases i,
    {
        i = i - 1;
        let c = s.get_char(i);
        if c == '.' {
            return Some(i);
        }
    }
    None
}

/// Whether no position in `[from, to)` holds a separator directly followed
/// by another: true exactly when every directory segment between the two
/// bounds is nonempty.
pub(crate) fn check_no_adjacent_sep(s: &str, from: usize, to: usize) -> (r: bool)
    requires
        from <= to < s@.len(),
    ensures
        r == (forall|i: int| from <= i < to ==> !(is_sep(#[trigger] s@[i]) && is_sep(s@[i + 1]))),
{
    let mut i: usize = from;
    while i < to
        invariant
            from <= i <= to < s@.len(),
            forall|j: int| from <= j < i ==> !(is_sep(#[trigger] s@[j]) && is_sep(s@[j + 1])),
        decreases to - i,
    {
        let a = is_sep_x(s.get_char(i));
        let b = is_sep_x(s.get_char(i + 1));
        if a && b {
            return false;
        }
        i = i + 1;
    }
    true
}

/// Whether every character from `from` to the end is an ASCII letter.
pub(crate) fn check_ext_alpha(s: &str, from: usize) -> (r: bool)
    requires
        from <= s@.len(),
    ensures
        r == (forall|i: int| from <= i < s@.len() ==> is_ascii_alpha(#[trigger] s@[i])),
{
    let n: usize = s.unicode_len();
    let mut i: usize = from;
    while i < n
        invariant
            from <= i <= n,
            n == s@.len(),
            forall|j: int| from <= j < i ==> is_ascii_alpha(#[trigger] s@[j]),
        decreases n - i,
    {
        let u: u32 = s.get_char(i) as u32;
        if !((97 <= u && u <= 122) || (65 <= u && u <= 90)) {
            return false;
        }
        i = i + 1;
    }
    true
}

/// Whether `[from, to)` reads as dot-led groups of locale characters with no
/// empty group, the character at `to` being known to be a dot.
pub(crate) fn check_locale_region(s: &str, from: usize, to: usize) -> (r: bool)
    requires
        from <= to < s@.len(),
    ensures
        r == (forall|i: int| from <= i < to ==> ((#[trigger] s@[i] == '.' || is_locale_char(s@[i]))
            && (s@[i] == '.' ==> s@[i + 1] != '.'))),
{
    let mut i: usize = from;
    while i < to
        invariant
            from <= i <= to < s@.len(),
            forall|j: int| from <= j < i ==> ((#[trigger] s@[j] == '.' || is_locale_char(s@[j]))
                && (s@[j] == '.' ==> s@[j + 1] != '.')),
        decreases to - i,
    {
        let c = s.get_char(i);
        if c == '.' {
            if s.get_char(i + 1) == '.' {
                return false;
            }
        } else {
            let u: u32 = c as u32;
            let ok = (97 <= u && u <= 122) || (65 <= u && u <= 90) || (48 <= u && u <= 57)
                || c == '-' || c == '_';
            if !ok {
                return false;
            }
        }
        i = i + 1;
    }
    true
}

/// Whether the characters of `s` in `[from, to)` equal `lit` up to ASCII case.
pub(crate) fn check_ci_token(s: &str, from: usize, to: usize, lit: &str) -> (r: bool)
    requires
        from <= to <= s@.len(),
    ensures
        r == ci_eq(s@.subrange(from as int, to as int), lit@),
{
    let m: usize = lit.unicode_len();
    if to - from != m {
        return false;
    }
    let mut k: usize = 0;
    while k < m
        invariant
            0 <= k <= m,
            m == lit@.len(),
            from + m == to,
            to <= s@.len(),
            forall|j: int| 0 <= j < k ==> #[trigger] lower_code(s@[from + j]) == lower_code(lit@[j]),
        decreases m - k,
    {
        let ca: u32 = lower_code_x(s.get_char(from + k));
        let cb: u32 = lower_code_x(lit.get_char(k));
        if ca != cb {
            proof {
                let sub = s@.subrange(from as int, to as int);
                assert(sub[k as int] == s@[from + k]);
            }
            return false;
        }
        k = k + 1;
    }
    proof {
        let sub = s@.subrange(from as int, to as int);
        assert forall|i: int| 0 <= i < sub.len() implies #[trigger] lower_code(sub[i])
            == lower_code(lit@[i]) by {
            assert(sub[i] == s@[from + i]);
        }
    }
    true
}

} // verus!
