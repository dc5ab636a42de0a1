//! The whole run for one input file: extract the documented
//! declarations, derive each signature, render one page per declaration
//! whose name and return type can both be derived, and render the index
//! listing those pages.

use vstd::prelude::*;
use vstd::string::StrSliceExecFns;
use vstd::string::StringExecFns;

use crate::extract::extract_blocks;
use crate::extract::extract_from;
use crate::extract::views_of;
use crate::index::index_html;
use crate::index::name_views;
use crate::index::render_index;
use crate::render::page_html;
use crate::render::render_page;
use crate::signature::fn_name;
use crate::signature::ret_type;
use crate::signature::spec_fn_name;
use crate::signature::spec_ret_type;

verus! {

/// One generated page: the function's name and the page's HTML.
pub struct Page {
    pub name: String,
    pub html: String,
}

/// Everything one input file produces: the pages, in order of
/// appearance, and the index document listing them.
pub struct DocOutput {
    pub pages: Vec<Page>,
    pub index: String,
}

/// The views of a sequence of pages.
pub open spec fn page_views(s: Seq<Page>) -> Seq<(Seq<char>, Seq<char>)> {
    s.map_values(|p: Page| (p.name@, p.html@))
}

/// The (name, page HTML) of every extracted pair from `idx` on for
/// which both name and return-type extraction succeed, in order.
pub open spec fn pages_from(pairs: Seq<(Seq<char>, Seq<char>)>, idx: int) -> Seq<
    (Seq<char>, Seq<char>),
>
    decreases pairs.len() - idx
        when 0 <= idx
{
    if idx >= pairs.len() {
        Seq::empty()
    } else {
        let p = pairs[idx];
        match (spec_fn_name(p.1), spec_ret_type(p.1)) {
            (Some(n), Some(rt)) => seq![(n, page_html(n, p.1, rt, p.0))] + pages_from(
                pairs,
                idx + 1,
            ),
            _ => pages_from(pairs, idx + 1),
        }
    }
}

/// The names of the pages generated from the extracted pairs.
pub open spec fn page_names(pairs: Seq<(Seq<char>, Seq<char>)>) -> Seq<Seq<char>> {
    pages_from(pairs, 0).map_values(|p: (Seq<char>, Seq<char>)| p.0)
}

/// What the output for one input file must hold: one page per
/// renderable extracted pair, and the index listing exactly those
/// pages' names.
pub open spec fn output_matches(r: DocOutput, file_name: Seq<char>, contents: Seq<char>) -> bool {
    let pairs = extract_from(contents, 0);
    &&& page_views(r.pages@) == pages_from(pairs, 0)
    &&& r.index@ == index_html(file_name, page_names(pairs))
}

/// Runs the whole pass over one input file's text.
pub fn process_file(file_name: &str, contents: &str) -> (r: DocOutput)
    ensures
        output_matches(r, file_name@, contents@),
{
    let blocks = extract_blocks(contents);
    let ghost pairs = extract_from(contents@, 0);
    let mut pages: Vec<Page> = Vec::new();
    let mut names: Vec<String> = Vec::new();
    let mut idx: usize = 0;
    while idx < blocks.len()
        invariant
            idx <= blocks@.len(),
            views_of(blocks@) == pairs,
            pages_from(pairs, 0) == page_views(pages@) + pages_from(pairs, idx as int),
            name_views(names@) == page_views(pages@).map_values(
                |p: (Seq<char>, Seq<char>)| p.0,
            ),
        decreases blocks@.len() - idx,
    {
        let dd = &blocks[idx];
        proof {
            assert(pairs[idx as int] == blocks@[idx as int]@);
        }
        match fn_name(dd.declaration.as_str()) {
            Some(name) => {
                match ret_type(dd.declaration.as_str()) {
                    Some(rt) => {
                        let html = render_page(
                            name.as_str(),
                            dd.declaration.as_str(),
                            rt.as_str(),
                            dd.comment.as_str(),
                        );
                        let entry_name = name.clone();
                        proof {
                            let ghost pv = page_views(pages@);
                            assert(page_views(
                                pages@.push(Page { name: name, html: html }),
                            ) =~= pv + seq![(name@, html@)]);
                            assert(name_views(names@.push(entry_name)) =~= name_views(names@)
                                + seq![entry_name@]);
                            assert((pv + seq![(name@, html@)]).map_values(
                                |p: (Seq<char>, Seq<char>)| p.0,
                            ) =~= pv.map_values(|p: (Seq<char>, Seq<char>)| p.0) + seq![name@]);
                            assert(pages_from(pairs, 0) =~= pv + seq![(name@, html@)]
                                + pages_from(pairs, idx + 1));
                        }
                        pages.push(Page { name, html });
                        names.push(entry_name);
                    },
                    None => {},
                }
            },
            None => {},
        }
        idx = idx + 1;
    }
    let index = render_index(file_name, &names);
    proof {
        assert(pairs.len() == blocks@.len());
        assert(pages_from(pairs, 0) =~= page_views(pages@));
        assert(name_views(names@) =~= page_names(pairs));
    }
    DocOutput { pages, index }
}

/// The count of extracted pairs from `idx` on for which both name and
/// return-type extraction succeed.
pub open spec fn renderable_count(pairs: Seq<(Seq<char>, Seq<char>)>, idx: int) -> int
    decreases pairs.len() - idx
        when 0 <= idx
{
    if idx >= pairs.len() {
        0
    } else {
        let p = pairs[idx];
        match (spec_fn_name(p.1), spec_ret_type(p.1)) {
            (Some(n), Some(rt)) => 1 + renderable_count(pairs, idx + 1),
            _ => renderable_count(pairs, idx + 1),
        }
    }
}

proof fn lemma_page_count_from(pairs: Seq<(Seq<char>, Seq<char>)>, idx: int)
    requires
        0 <= idx,
    ensures
        pages_from(pairs, idx).len() == renderable_count(pairs, idx),
    decreases pairs.len() - idx,
{
    if idx < pairs.len() {
        lemma_page_count_from(pairs, idx + 1);
    }
}

/// For every input, the number of generated pages equals the number of
/// extracted (comment, declaration) pairs for which both name and
/// return-type extraction succeed.
pub proof fn lemma_page_count(pairs: Seq<(Seq<char>, Seq<char>)>)
    ensures
        pages_from(pairs, 0).len() == renderable_count(pairs, 0),
{
    lemma_page_count_from(pairs, 0);
}

/// Running the pass twice over the same input produces identical pages
/// and an identical index.
pub proof fn lemma_rerun_identical(
    a: DocOutput,
    b: DocOutput,
    file_name: Seq<char>,
    contents: Seq<char>,
)
    requires
        output_matches(a, file_name, contents),
        output_matches(b, file_name, contents),
    ensures
        page_views(a.pages@) == page_views(b.pages@),
        a.index@ == b.index@,
{
}

} // verus!
