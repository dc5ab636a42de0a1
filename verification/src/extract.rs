//! Declaration extractor: scans source text for a block comment that
//! opens with `/*`, a line feed and a line starting with `@`, runs to the
//! first `*/` that ends a line, and is followed on the next line by a
//! declaration terminated by `;`. Each such block yields one
//! (comment body, declaration) pair, in order of appearance; text that
//! fits no block is ignored.

use vstd::prelude::*;
use vstd::string::StrSliceExecFns;
use vstd::string::StringExecFns;

use crate::scan::line_break;
use crate::scan::find_line_break;
use crate::scan::trim;
use crate::scan::trimmed;

verus! {

/// A comment body paired with the declaration that follows it.
pub struct DocumentedDeclaration {
    pub comment: String,
    pub declaration: String,
}

impl View for DocumentedDeclaration {
    type V = (Seq<char>, Seq<char>);

    open spec fn view(&self) -> (Seq<char>, Seq<char>) {
        (self.comment@, self.declaration@)
    }
}

/// The views of a sequence of documented declarations.
pub open spec fn views_of(s: Seq<DocumentedDeclaration>) -> Seq<(Seq<char>, Seq<char>)> {
    s.map_values(|dd: DocumentedDeclaration| dd@)
}

/// A comment block opens at `i`: `/*`, a line feed, and a line starting
/// with `@`.
pub open spec fn opens_at(t: Seq<char>, i: int) -> bool {
    &&& i + 4 <= t.len()
    &&& t[i] == '/'
    &&& t[i + 1] == '*'
    &&& t[i + 2] == '\n'
    &&& t[i + 3] == '@'
}

/// A comment block closes at `k`: `*/` followed by a line feed.
pub open spec fn closes_at(t: Seq<char>, k: int) -> bool {
    &&& k + 3 <= t.len()
    &&& t[k] == '*'
    &&& t[k + 1] == '/'
    &&& t[k + 2] == '\n'
}

/// The position of the first close at or after `k`, if there is one.
pub open spec fn find_close(t: Seq<char>, k: int) -> Option<int>
    decreases t.len() - k
        when 0 <= k
{
    if k + 3 > t.len() {
        None
    } else if closes_at(t, k) {
        Some(k)
    } else {
        find_close(t, k + 1)
    }
}

/// A found close lies between the start of the search and the end of `t`.
pub proof fn lemma_find_close_bounds(t: Seq<char>, k: int)
    requires
        0 <= k,
        find_close(t, k) is Some,
    ensures
        find_close(t, k) matches Some(c) ==> k <= c && c + 3 <= t.len() && closes_at(t, c),
    decreases t.len() - k,
{
    if k + 3 <= t.len() && !closes_at(t, k) {
        lemma_find_close_bounds(t, k + 1);
    }
}

/// The position of the last `;` in `[lo, hi)`, if there is one.
pub open spec fn last_semi(t: Seq<char>, lo: int, hi: int) -> Option<int>
    decreases hi - lo
        when hi <= t.len()
{
    if hi <= lo {
        None
    } else if t[hi - 1] == ';' {
        Some(hi - 1)
    } else {
        last_semi(t, lo, hi - 1)
    }
}

/// A found `;` lies within the searched range.
pub proof fn lemma_last_semi_bounds(t: Seq<char>, lo: int, hi: int)
    requires
        hi <= t.len(),
        last_semi(t, lo, hi) is Some,
    ensures
        last_semi(t, lo, hi) matches Some(m) ==> lo <= m < hi,
    decreases hi - lo,
{
    if hi > lo && t[hi - 1] != ';' {
        lemma_last_semi_bounds(t, lo, hi - 1);
    }
}

/// The parts of one matched block: the trimmed comment body, the
/// declaration text without its terminating `;`, and the position at
/// which scanning resumes (just past that `;`).
#[verifier::ext_equal]
pub struct BlockParts {
    pub comment: Seq<char>,
    pub declaration: Seq<char>,
    pub end: int,
}

/// The block matched at position `i` of `t`, if any: an opener at `i`,
/// the first close after a comment body of at least two characters, and,
/// on the line right after the close, a declaration of at least one
/// character ended by that line's last `;`. The comment body is trimmed;
/// the `;` is not part of the declaration.
pub open spec fn match_at(t: Seq<char>, i: int) -> Option<BlockParts> {
    if !opens_at(t, i) {
        None
    } else {
        match find_close(t, i + 5) {
            None => None,
            Some(k) => {
                let d = k + 3;
                let e = line_break(t, d);
                match last_semi(t, d + 1, e) {
                    None => None,
                    Some(m) => Some(
                        BlockParts {
                            comment: trimmed(t.subrange(i + 3, k)),
                            declaration: t.subrange(d, m),
                            end: m + 1,
                        },
                    ),
                }
            },
        }
    }
}

/// A match begins after its opener and ends within the text.
pub proof fn lemma_match_at_bounds(t: Seq<char>, i: int)
    requires
        0 <= i,
        match_at(t, i) is Some,
    ensures
        match_at(t, i) matches Some(b) ==> i < b.end <= t.len(),
{
    if opens_at(t, i) {
        if let Some(k) = find_close(t, i + 5) {
            lemma_find_close_bounds(t, i + 5);
            let d = k + 3;
            crate::scan::lemma_line_break_bounds(t, d);
            let e = line_break(t, d);
            if last_semi(t, d + 1, e) is Some {
                lemma_last_semi_bounds(t, d + 1, e);
            }
        }
    }
}

/// The (comment, declaration) pairs of every block matched at or after
/// `i`, leftmost first; a matched block is skipped over, and scanning
/// resumes one character later where no block matches.
pub open spec fn extract_from(t: Seq<char>, i: int) -> Seq<(Seq<char>, Seq<char>)>
    decreases t.len() - i
        when 0 <= i
        via extract_from_decreases
{
    if i >= t.len() {
        Seq::empty()
    } else {
        match match_at(t, i) {
            Some(b) => seq![(b.comment, b.declaration)] + extract_from(t, b.end),
            None => extract_from(t, i + 1),
        }
    }
}

#[via_fn]
proof fn extract_from_decreases(t: Seq<char>, i: int) {
    if 0 <= i < t.len() {
        if match_at(t, i) is Some {
            lemma_match_at_bounds(t, i);
        }
    }
}

/// Tries to match a block at position `i`; on success hands back its
/// parts and the position at which scanning resumes.
fn try_match(t: &str, i: usize) -> (r: Option<(DocumentedDeclaration, usize)>)
    requires
        i < t@.len(),
    ensures
        match r {
            Some(p) => {
                &&& match_at(t@, i as int) matches Some(b)
                &&& b == (BlockParts {
                    comment: p.0.comment@,
                    declaration: p.0.declaration@,
                    end: p.1 as int,
                })
                &&& i < p.1 <= t@.len()
            },
            None => match_at(t@, i as int) is None,
        },
{
    let n: usize = t.unicode_len();
    if n - i < 4 {
        return None;
    }
    if !(t.get_char(i) == '/' && t.get_char(i + 1) == '*' && t.get_char(i + 2) == '\n'
        && t.get_char(i + 3) == '@') {
        return None;
    }
    if n - i < 5 {
        proof {
            assert(find_close(t@, i + 5) is None);
        }
        return None;
    }
    let k = match find_close_exec(t, i + 5) {
        Some(k) => k,
        None => {
            return None;
        },
    };
    let d = k + 3;
    let e = find_line_break(t, d);
    if e - d < 2 {
        proof {
            assert(last_semi(t@, d + 1, e as int) is None);
        }
        return None;
    }
    let m = match last_semi_exec(t, d + 1, e) {
        Some(m) => m,
        None => {
            return None;
        },
    };
    let comment = trim(t.substring_char(i + 3, k));
    let declaration = String::from_str(t.substring_char(d, m));
    proof {
        lemma_last_semi_bounds(t@, d + 1, e as int);
    }
    Some((DocumentedDeclaration { comment, declaration }, m + 1))
}

/// Finds the first close of `t` at or after `from`.
fn find_close_exec(t: &str, from: usize) -> (r: Option<usize>)
    requires
        from <= t@.len(),
    ensures
        match r {
            Some(k) => find_close(t@, from as int) == Some(k as int) && from <= k && k + 3
                <= t@.len(),
            None => find_close(t@, from as int) is None,
        },
{
    let n: usize = t.unicode_len();
    let mut k: usize = from;
    while n - k >= 3
        invariant
            from <= k <= n,
            n == t@.len(),
            find_close(t@, from as int) == find_close(t@, k as int),
        decreases n - k,
    {
        if t.get_char(k) == '*' && t.get_char(k + 1) == '/' && t.get_char(k + 2) == '\n' {
            return Some(k);
        }
        k = k + 1;
    }
    None
}

/// Finds the last `;` of `t` in `[lo, hi)`.
fn last_semi_exec(t: &str, lo: usize, hi: usize) -> (r: Option<usize>)
    requires
        hi <= t@.len(),
    ensures
        match r {
            Some(m) => last_semi(t@, lo as int, hi as int) == Some(m as int) && lo <= m < hi,
            None => last_semi(t@, lo as int, hi as int) is None,
        },
{
    let mut h: usize = hi;
    while h > lo
        invariant
            h <= hi <= t@.len(),
            last_semi(t@, lo as int, hi as int) == last_semi(t@, lo as int, h as int),
        decreases h,
    {
        if t.get_char(h - 1) == ';' {
            return Some(h - 1);
        }
        h = h - 1;
    }
    None
}

/// Scans the whole text and hands back every matched block, in order of
/// appearance.
pub fn extract_blocks(t: &str) -> (r: Vec<DocumentedDeclaration>)
    ensures
        views_of(r@) == extract_from(t@, 0),
{
    let n: usize = t.unicode_len();
    let mut out: Vec<DocumentedDeclaration> = Vec::new();
    let mut i: usize = 0;
    while i < n
        invariant
            i <= n,
            n == t@.len(),
            extract_from(t@, 0) == views_of(out@) + extract_from(t@, i as int),
        decreases n - i,
    {
        match try_match(t, i) {
            Some((dd, end)) => {
                proof {
                    assert(views_of(out@.push(dd)) =~= views_of(out@) + seq![dd@]);
                }
                out.push(dd);
                i = end;
            },
            None => {
                i = i + 1;
            },
        }
    }
    proof {
        assert(extract_from(t@, i as int) =~= Seq::<(Seq<char>, Seq<char>)>::empty());
        assert(views_of(out@) =~= views_of(out@) + extract_from(t@, i as int));
    }
    out
}

} // verus!
