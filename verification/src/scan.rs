//! Low-level character scanning over text: whitespace classification,
//! trimming, locating spaces and line breaks, and string equality.

use vstd::prelude::*;
use vstd::string::StrSliceExecFns;
use vstd::string::StringExecFns;

verus! {

/// A character the scanner counts as whitespace: the ASCII whitespace
/// characters (space, tab, line feed, vertical tab, form feed,
/// carriage return).
pub open spec fn is_ws(c: char) -> bool {
    c == ' ' || c == '\t' || c == '\n' || c == '\u{b}' || c == '\u{c}' || c == '\r'
}

/// Exec counterpart of `is_ws`.
pub fn ws_char(c: char) -> (r: bool)
    ensures
        r == is_ws(c),
{
    c == ' ' || c == '\t' || c == '\n' || c == '\u{b}' || c == '\u{c}' || c == '\r'
}

/// The subsequence of `s` between `a` and `b` with leading and trailing
/// whitespace removed.
pub open spec fn trimmed_between(s: Seq<char>, a: int, b: int) -> Seq<char>
    decreases b - a
        when 0 <= a && b <= s.len()
{
    if a >= b {
        Seq::empty()
    } else if is_ws(s[a]) {
        trimmed_between(s, a + 1, b)
    } else if is_ws(s[b - 1]) {
        trimmed_between(s, a, b - 1)
    } else {
        s.subrange(a, b)
    }
}

/// `s` with leading and trailing whitespace removed.
pub open spec fn trimmed(s: Seq<char>) -> Seq<char> {
    trimmed_between(s, 0, s.len() as int)
}

/// Copies `s` without its leading and trailing whitespace.
pub fn trim(s: &str) -> (r: String)
    ensures
        r@ == trimmed(s@),
{
    let n: usize = s.unicode_len();
    let mut a: usize = 0;
    let mut b: usize = n;
    while a < b && ws_char(s.get_char(a))
        invariant
            a <= b <= n,
            n == s@.len(),
            trimmed(s@) == trimmed_between(s@, a as int, b as int),
        decreases b - a,
    {
        a = a + 1;
    }
    while a < b && ws_char(s.get_char(b - 1))
        invariant
            a <= b <= n,
            n == s@.len(),
            trimmed(s@) == trimmed_between(s@, a as int, b as int),
            a < b ==> !is_ws(s@[a as int]),
        decreases b - a,
    {
        b = b - 1;
    }
    let piece = s.substring_char(a, b);
    String::from_str(piece)
}

/// The position of the first space character of `s` at or after `j`,
/// if there is one.
pub open spec fn first_space(s: Seq<char>, j: int) -> Option<int>
    decreases s.len() - j
        when 0 <= j
{
    if j >= s.len() {
        None
    } else if s[j] == ' ' {
        Some(j)
    } else {
        first_space(s, j + 1)
    }
}

/// A found space lies between the start of the search and the end of `s`.
pub proof fn lemma_first_space_bounds(s: Seq<char>, j: int)
    requires
        0 <= j,
        first_space(s, j) is Some,
    ensures
        first_space(s, j) matches Some(k) ==> j <= k < s.len(),
    decreases s.len() - j,
{
    if j < s.len() && s[j] != ' ' {
        lemma_first_space_bounds(s, j + 1);
    }
}

/// Finds the first space character of `s` at or after `from`.
pub fn find_space(s: &str, from: usize) -> (r: Option<usize>)
    requires
        from <= s@.len(),
    ensures
        match r {
            Some(k) => first_space(s@, from as int) == Some(k as int) && from <= k < s@.len(),
            None => first_space(s@, from as int) is None,
        },
{
    let n: usize = s.unicode_len();
    let mut j: usize = from;
    while j < n
        invariant
            from <= j <= n,
            n == s@.len(),
            first_space(s@, from as int) == first_space(s@, j as int),
        decreases n - j,
    {
        if s.get_char(j) == ' ' {
            return Some(j);
        }
        j = j + 1;
    }
    None
}

/// The position of the first line feed of `s` at or after `j`, or the
/// length of `s` if there is none.
pub open spec fn line_break(s: Seq<char>, j: int) -> int
    decreases s.len() - j
        when 0 <= j
{
    if j >= s.len() {
        s.len() as int
    } else if s[j] == '\n' {
        j
    } else {
        line_break(s, j + 1)
    }
}

/// The line break found lies between the start of the search and the end
/// of `s`.
pub proof fn lemma_line_break_bounds(s: Seq<char>, j: int)
    requires
        0 <= j <= s.len(),
    ensures
        j <= line_break(s, j) <= s.len(),
    decreases s.len() - j,
{
    if j < s.len() && s[j] != '\n' {
        lemma_line_break_bounds(s, j + 1);
    }
}

/// Finds the first line feed of `s` at or after `from`, or the length of
/// `s` if there is none.
pub fn find_line_break(s: &str, from: usize) -> (r: usize)
    requires
        from <= s@.len(),
    ensures
        r == line_break(s@, from as int),
        from <= r <= s@.len(),
{
    let n: usize = s.unicode_len();
    let mut j: usize = from;
    while j < n
        invariant
            from <= j <= n,
            n == s@.len(),
            line_break(s@, from as int) == line_break(s@, j as int),
        decreases n - j,
    {
        if s.get_char(j) == '\n' {
            return j;
        }
        j = j + 1;
    }
    n
}

/// Whether the two strings hold the same characters.
pub fn str_eq(a: &str, b: &str) -> (r: bool)
    ensures
        r == (a@ == b@),
{
    let na: usize = a.unicode_len();
    let nb: usize = b.unicode_len();
    if na != nb {
        return false;
    }
    let mut i: usize = 0;
    while i < na
        invariant
            i <= na,
            na == a@.len(),
            nb == b@.len(),
            na == nb,
            forall|j: int| 0 <= j < i ==> a@[j] == b@[j],
        decreases na - i,
    {
        if a.get_char(i) != b.get_char(i) {
            return false;
        }
        i = i + 1;
    }
    proof {
        assert(a@ =~= b@);
    }
    true
}

} // verus!
