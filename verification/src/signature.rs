//! Signature analyzer: derives a function's name and return type from a
//! single-line declaration. The name is the run of non-whitespace,
//! non-`*` characters immediately preceding the first `(` that has such
//! a character before it; the return type is everything before the name,
//! trimmed, keeping trailing pointer markers.

use vstd::prelude::*;
use vstd::string::StrSliceExecFns;
use vstd::string::StringExecFns;

use crate::scan::is_ws;
use crate::scan::trim;
use crate::scan::trimmed;

verus! {

/// A character that can be part of a function name: neither whitespace
/// nor `*`.
pub open spec fn is_name_char(c: char) -> bool {
    !is_ws(c) && c != '*'
}

/// The position of the first `(` at or after `j` that is immediately
/// preceded by a name character, if there is one.
pub open spec fn find_name_paren(d: Seq<char>, j: int) -> Option<int>
    decreases d.len() - j
        when 0 <= j
{
    if j >= d.len() {
        None
    } else if d[j] == '(' && j > 0 && is_name_char(d[j - 1]) {
        Some(j)
    } else {
        find_name_paren(d, j + 1)
    }
}

/// The start of the run of name characters that ends just before `j`.
pub open spec fn name_start(d: Seq<char>, j: int) -> int
    decreases j
        when 0 <= j <= d.len()
{
    if j > 0 && is_name_char(d[j - 1]) {
        name_start(d, j - 1)
    } else {
        j
    }
}

/// The function name of declaration `d`, if one can be found: the
/// longest run of name characters immediately preceding the first
/// qualifying `(`.
pub open spec fn spec_fn_name(d: Seq<char>) -> Option<Seq<char>> {
    match find_name_paren(d, 0) {
        None => None,
        Some(p) => Some(d.subrange(name_start(d, p), p)),
    }
}

/// The return type of declaration `d`, if one can be found: everything
/// before the function name, trimmed; there is none when that text is
/// empty or no name is found.
pub open spec fn spec_ret_type(d: Seq<char>) -> Option<Seq<char>> {
    match find_name_paren(d, 0) {
        None => None,
        Some(p) => {
            let r = trimmed(d.subrange(0, name_start(d, p)));
            if r.len() == 0 {
                None
            } else {
                Some(r)
            }
        },
    }
}

/// Finds the first qualifying `(` of `d`.
fn find_paren(d: &str) -> (r: Option<usize>)
    ensures
        match r {
            Some(p) => find_name_paren(d@, 0) == Some(p as int) && 0 < p < d@.len(),
            None => find_name_paren(d@, 0) is None,
        },
{
    let n: usize = d.unicode_len();
    let mut j: usize = 0;
    while j < n
        invariant
            j <= n,
            n == d@.len(),
            find_name_paren(d@, 0) == find_name_paren(d@, j as int),
        decreases n - j,
    {
        if d.get_char(j) == '(' && j > 0 && name_char(d.get_char(j - 1)) {
            return Some(j);
        }
        j = j + 1;
    }
    None
}

/// Exec counterpart of `is_name_char`.
fn name_char(c: char) -> (r: bool)
    ensures
        r == is_name_char(c),
{
    !crate::scan::ws_char(c) && c != '*'
}

/// Finds the start of the run of name characters ending just before `p`.
fn start_of_name(d: &str, p: usize) -> (r: usize)
    requires
        p <= d@.len(),
    ensures
        r as int == name_start(d@, p as int),
        r <= p,
{
    let mut s: usize = p;
    while s > 0 && name_char(d.get_char(s - 1))
        invariant
            s <= p <= d@.len(),
            name_start(d@, p as int) == name_start(d@, s as int),
        decreases s,
    {
        s = s - 1;
    }
    s
}

/// Extracts the function name from the declaration, if one can be found.
pub fn fn_name(declaration: &str) -> (r: Option<String>)
    ensures
        match r {
            Some(s) => spec_fn_name(declaration@) == Some(s@),
            None => spec_fn_name(declaration@) is None,
        },
{
    match find_paren(declaration) {
        None => None,
        Some(p) => {
            let s = start_of_name(declaration, p);
            Some(String::from_str(declaration.substring_char(s, p)))
        },
    }
}

/// Extracts the return type from the declaration, if one can be found.
pub fn ret_type(declaration: &str) -> (r: Option<String>)
    ensures
        match r {
            Some(s) => spec_ret_type(declaration@) == Some(s@),
            None => spec_ret_type(declaration@) is None,
        },
{
    match find_paren(declaration) {
        None => None,
        Some(p) => {
            let s = start_of_name(declaration, p);
            let t = trim(declaration.substring_char(0, s));
            if t.as_str().unicode_len() == 0 {
                None
            } else {
                Some(t)
            }
        },
    }
}

} // verus!
