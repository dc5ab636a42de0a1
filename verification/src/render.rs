//! Tag renderer: turns one comment body into an HTML page. The body is
//! read line by line; a line starting with `@` is split on its first
//! space into a token and its argument, and each recognized token
//! contributes one fragment to the page body. A single flag records
//! whether a "Params" heading was already emitted.

use vstd::prelude::*;
use vstd::string::StrSliceExecFns;
use vstd::string::StringExecFns;

use crate::markup::html_of_markdown;
use crate::markup::markdown_to_html;
use crate::scan::find_line_break;
use crate::scan::find_space;
use crate::scan::first_space;
use crate::scan::line_break;
use crate::scan::str_eq;

verus! {

/// One piece of page body that a recognized tag line contributes.
pub enum Fragment {
    /// A paragraph of rendered markup, from `@brief` or `@note`.
    Para(Seq<char>),
    /// The "Params" heading, emitted before the first `@param` entry.
    ParamsHeading,
    /// One parameter: its name verbatim and its description rendered.
    ParamEntry(Seq<char>, Seq<char>),
    /// A "Return Value" section: the return type and the rendered text,
    /// from `@ret`, `@return` or `@retval`.
    RetSection(Seq<char>, Seq<char>),
    /// A "Related" list: one entry per space-separated token.
    RelatedList(Seq<Seq<char>>),
}

/// `l` without a trailing carriage return, if it has one.
pub open spec fn strip_cr(l: Seq<char>) -> Seq<char> {
    if l.len() > 0 && l[l.len() - 1] == '\r' {
        l.drop_last()
    } else {
        l
    }
}

/// The lines of `c` from position `pos` on: split at each line feed,
/// each line without its trailing carriage return, and no final empty
/// line for text that ends in a line feed.
pub open spec fn split_lines_from(c: Seq<char>, pos: int) -> Seq<Seq<char>>
    decreases c.len() - pos
        when 0 <= pos
        via split_lines_from_decreases
{
    if pos >= c.len() {
        Seq::empty()
    } else {
        let e = line_break(c, pos);
        let line = strip_cr(c.subrange(pos, e));
        seq![line] + split_lines_from(
            c,
            if e == c.len() {
                e
            } else {
                e + 1
            },
        )
    }
}

#[via_fn]
proof fn split_lines_from_decreases(c: Seq<char>, pos: int) {
    if 0 <= pos < c.len() {
        crate::scan::lemma_line_break_bounds(c, pos);
    }
}

/// The space-separated pieces of `s` from position `pos` on: split at
/// every single space, empty pieces kept.
pub open spec fn split_spaces_from(s: Seq<char>, pos: int) -> Seq<Seq<char>>
    decreases s.len() - pos
        when 0 <= pos
        via split_spaces_from_decreases
{
    match first_space(s, pos) {
        None => seq![s.subrange(pos, s.len() as int)],
        Some(sp) => seq![s.subrange(pos, sp)] + split_spaces_from(s, sp + 1),
    }
}

#[via_fn]
proof fn split_spaces_from_decreases(s: Seq<char>, pos: int) {
    if 0 <= pos {
        if first_space(s, pos) is Some {
            crate::scan::lemma_first_space_bounds(s, pos);
        }
    }
}

/// The fragments one line contributes, and the params-heading flag
/// after it. A line not starting with `@`, one with no space after its
/// token, or one with an unrecognized token contributes nothing; a
/// `@param` line emits the heading once even when its own argument
/// cannot be split into name and description.
pub open spec fn line_fragments(line: Seq<char>, found_param: bool, ret: Seq<char>) -> (Seq<
    Fragment,
>, bool) {
    if line.len() == 0 || line[0] != '@' {
        (Seq::empty(), found_param)
    } else {
        match first_space(line, 0) {
            None => (Seq::empty(), found_param),
            Some(sp) => {
                let token = line.subrange(0, sp);
                let info = line.subrange(sp + 1, line.len() as int);
                if token == "@brief"@ || token == "@note"@ {
                    (seq![Fragment::Para(html_of_markdown(info))], found_param)
                } else if token == "@param"@ {
                    let heading: Seq<Fragment> = if !found_param {
                        seq![Fragment::ParamsHeading]
                    } else {
                        Seq::empty()
                    };
                    match first_space(info, 0) {
                        None => (heading, true),
                        Some(sp2) => (
                            heading + seq![
                                Fragment::ParamEntry(
                                    info.subrange(0, sp2),
                                    html_of_markdown(info.subrange(sp2 + 1, info.len() as int)),
                                ),
                            ],
                            true,
                        ),
                    }
                } else if token == "@ret"@ || token == "@return"@ || token == "@retval"@ {
                    (seq![Fragment::RetSection(ret, html_of_markdown(info))], found_param)
                } else if token == "@related"@ {
                    (seq![Fragment::RelatedList(split_spaces_from(info, 0))], found_param)
                } else {
                    (Seq::empty(), found_param)
                }
            },
        }
    }
}

/// The fragments of a whole sequence of lines, threading the
/// params-heading flag from line to line.
pub open spec fn lines_fragments(lines: Seq<Seq<char>>, found_param: bool, ret: Seq<char>) -> Seq<
    Fragment,
>
    decreases lines.len(),
{
    if lines.len() == 0 {
        Seq::empty()
    } else {
        let lf = line_fragments(lines[0], found_param, ret);
        lf.0 + lines_fragments(lines.drop_first(), lf.1, ret)
    }
}

/// The fragments of a whole comment body.
pub open spec fn comment_fragments(comment: Seq<char>, ret: Seq<char>) -> Seq<Fragment> {
    lines_fragments(split_lines_from(comment, 0), false, ret)
}

/// One entry of a "Related" list.
pub open spec fn related_item(tok: Seq<char>) -> Seq<char> {
    "<li><a href=\"./"@ + tok + ".html\">"@ + tok + "</a></li>"@
}

/// The entries of a "Related" list, in order.
pub open spec fn related_items(toks: Seq<Seq<char>>) -> Seq<char>
    decreases toks.len(),
{
    if toks.len() == 0 {
        Seq::empty()
    } else {
        related_item(toks[0]) + related_items(toks.drop_first())
    }
}

/// The HTML of one fragment.
pub open spec fn fragment_html(f: Fragment) -> Seq<char> {
    match f {
        Fragment::Para(h) => "<p>"@ + h + "</p>"@,
        Fragment::ParamsHeading => "<h2>Params</h2>"@,
        Fragment::ParamEntry(name, desc) => "<dt>"@ + name + "</dt><dd>"@ + desc + "</dd>"@,
        Fragment::RetSection(rt, h) => "<h2>Return Value</h2><code>"@ + rt + "</code><p>"@ + h
            + "</p>"@,
        Fragment::RelatedList(toks) => "<h2>Related</h2><ul>"@ + related_items(toks) + "</ul>"@,
    }
}

/// The HTML of a sequence of fragments, in order.
pub open spec fn fragments_html(fs: Seq<Fragment>) -> Seq<char>
    decreases fs.len(),
{
    if fs.len() == 0 {
        Seq::empty()
    } else {
        fragment_html(fs[0]) + fragments_html(fs.drop_first())
    }
}

/// The HTML of one fragment alone.
pub proof fn lemma_fragments_html_one(f: Fragment)
    ensures
        fragments_html(seq![f]) == fragment_html(f),
{
    assert(seq![f].drop_first() =~= Seq::<Fragment>::empty());
    assert(fragments_html(Seq::<Fragment>::empty()) == Seq::<char>::empty());
    assert(fragments_html(seq![f]) =~= fragment_html(f));
}

/// Fragment HTML distributes over concatenation.
pub proof fn lemma_fragments_html_app(a: Seq<Fragment>, b: Seq<Fragment>)
    ensures
        fragments_html(a + b) == fragments_html(a) + fragments_html(b),
    decreases a.len(),
{
    if a.len() == 0 {
        assert(a + b =~= b);
        assert(fragments_html(a) + fragments_html(b) =~= fragments_html(b));
    } else {
        assert((a + b)[0] == a[0]);
        assert((a + b).drop_first() =~= a.drop_first() + b);
        lemma_fragments_html_app(a.drop_first(), b);
        assert(fragments_html(a + b) =~= fragments_html(a) + fragments_html(b));
    }
}

/// A malformed tag line — one starting with `@` but with no space after
/// its token — contributes nothing: the surrounding lines produce
/// exactly the fragments they would produce without it.
pub proof fn lemma_malformed_line_dropped(
    before: Seq<Seq<char>>,
    bad: Seq<char>,
    after: Seq<Seq<char>>,
    found_param: bool,
    ret: Seq<char>,
)
    requires
        bad.len() > 0,
        bad[0] == '@',
        first_space(bad, 0) is None,
    ensures
        lines_fragments(before + seq![bad] + after, found_param, ret) == lines_fragments(
            before + after,
            found_param,
            ret,
        ),
    decreases before.len(),
{
    if before.len() == 0 {
        assert(before + seq![bad] + after =~= seq![bad] + after);
        assert((seq![bad] + after)[0] == bad);
        assert((seq![bad] + after).drop_first() =~= after);
        assert(line_fragments(bad, found_param, ret).0 =~= Seq::<Fragment>::empty());
        assert(lines_fragments(seq![bad] + after, found_param, ret) =~= lines_fragments(
            after,
            found_param,
            ret,
        ));
        assert(before + after =~= after);
    } else {
        let h = before[0];
        let lf = line_fragments(h, found_param, ret);
        assert((before + seq![bad] + after)[0] == h);
        assert((before + seq![bad] + after).drop_first() =~= before.drop_first() + seq![bad]
            + after);
        assert((before + after)[0] == h);
        assert((before + after).drop_first() =~= before.drop_first() + after);
        lemma_malformed_line_dropped(before.drop_first(), bad, after, lf.1, ret);
    }
}

/// The number of "Params" headings among the fragments.
pub open spec fn params_headings(fs: Seq<Fragment>) -> int
    decreases fs.len(),
{
    if fs.len() == 0 {
        0
    } else {
        (if fs[0] is ParamsHeading {
            1int
        } else {
            0int
        }) + params_headings(fs.drop_first())
    }
}

/// The heading count distributes over concatenation.
proof fn lemma_params_headings_app(a: Seq<Fragment>, b: Seq<Fragment>)
    ensures
        params_headings(a + b) == params_headings(a) + params_headings(b),
    decreases a.len(),
{
    if a.len() == 0 {
        assert(a + b =~= b);
    } else {
        assert((a + b)[0] == a[0]);
        assert((a + b).drop_first() =~= a.drop_first() + b);
        lemma_params_headings_app(a.drop_first(), b);
    }
}

proof fn lemma_params_headings_one(f: Fragment)
    ensures
        params_headings(seq![f]) == if f is ParamsHeading {
            1int
        } else {
            0int
        },
{
    assert(seq![f].drop_first() =~= Seq::<Fragment>::empty());
    assert(params_headings(Seq::<Fragment>::empty()) == 0);
}

/// A well-formed `@param` line: it starts with `@`, has a space after
/// its token, and its token is `@param`.
pub open spec fn is_param_line(line: Seq<char>) -> bool {
    &&& line.len() > 0
    &&& line[0] == '@'
    &&& match first_space(line, 0) {
        Some(sp) => line.subrange(0, sp) == "@param"@,
        None => false,
    }
}

/// Whether any line of the sequence is a well-formed `@param` line.
pub open spec fn any_param_line(lines: Seq<Seq<char>>) -> bool
    decreases lines.len(),
{
    if lines.len() == 0 {
        false
    } else {
        is_param_line(lines[0]) || any_param_line(lines.drop_first())
    }
}

proof fn lemma_line_fragment_headings(line: Seq<char>, found_param: bool, ret: Seq<char>)
    ensures
        params_headings(line_fragments(line, found_param, ret).0) == if !found_param
            && is_param_line(line) {
            1int
        } else {
            0int
        },
        line_fragments(line, found_param, ret).1 == (found_param || is_param_line(line)),
{
    reveal_strlit("@brief");
    reveal_strlit("@note");
    reveal_strlit("@param");
    reveal_strlit("@ret");
    reveal_strlit("@return");
    reveal_strlit("@retval");
    reveal_strlit("@related");
    assert("@brief"@ != "@param"@ && "@note"@ != "@param"@ && "@ret"@ != "@param"@ && "@return"@
        != "@param"@ && "@retval"@ != "@param"@ && "@related"@ != "@param"@) by {
        assert("@brief"@[1] == 'b' && "@param"@[1] == 'p');
        assert("@note"@[1] == 'n');
        assert("@ret"@[1] == 'r');
        assert("@return"@[1] == 'r');
        assert("@retval"@[1] == 'r');
        assert("@related"@[1] == 'r');
    }
    let lf = line_fragments(line, found_param, ret);
    assert(params_headings(Seq::<Fragment>::empty()) == 0);
    if line.len() == 0 || line[0] != '@' {
    } else {
        match first_space(line, 0) {
            None => {},
            Some(sp) => {
                crate::scan::lemma_first_space_bounds(line, 0);
                let token = line.subrange(0, sp);
                let info = line.subrange(sp + 1, line.len() as int);
                if token == "@brief"@ || token == "@note"@ {
                    lemma_params_headings_one(Fragment::Para(html_of_markdown(info)));
                } else if token == "@param"@ {
                    if !found_param {
                        lemma_params_headings_one(Fragment::ParamsHeading);
                    }
                    match first_space(info, 0) {
                        None => {},
                        Some(sp2) => {
                            let heading: Seq<Fragment> = if !found_param {
                                seq![Fragment::ParamsHeading]
                            } else {
                                Seq::empty()
                            };
                            let entry = Fragment::ParamEntry(
                                info.subrange(0, sp2),
                                html_of_markdown(info.subrange(sp2 + 1, info.len() as int)),
                            );
                            lemma_params_headings_one(entry);
                            lemma_params_headings_app(heading, seq![entry]);
                        },
                    }
                } else if token == "@ret"@ || token == "@return"@ || token == "@retval"@ {
                    lemma_params_headings_one(Fragment::RetSection(ret, html_of_markdown(info)));
                } else if token == "@related"@ {
                    lemma_params_headings_one(
                        Fragment::RelatedList(split_spaces_from(info, 0)),
                    );
                } else {
                }
            },
        }
    }
}

/// With the heading not yet emitted, the fragments of a sequence of
/// lines hold the "Params" heading exactly once when some line is a
/// well-formed `@param` line and not at all otherwise; with it already
/// emitted, they never hold it again.
pub proof fn lemma_params_heading_once(lines: Seq<Seq<char>>, found_param: bool, ret: Seq<char>)
    ensures
        params_headings(lines_fragments(lines, found_param, ret)) == if found_param {
            0int
        } else if any_param_line(lines) {
            1int
        } else {
            0int
        },
    decreases lines.len(),
{
    if lines.len() == 0 {
        assert(params_headings(Seq::<Fragment>::empty()) == 0);
    } else {
        let h = lines[0];
        let lf = line_fragments(h, found_param, ret);
        lemma_line_fragment_headings(h, found_param, ret);
        lemma_params_headings_app(lf.0, lines_fragments(lines.drop_first(), lf.1, ret));
        lemma_params_heading_once(lines.drop_first(), lf.1, ret);
    }
}

/// The fixed page header with the page title substituted.
pub open spec fn page_header(name: Seq<char>) -> Seq<char> {
    "<!DOCTYPE html><html lang=\"en\"><head><meta charset=\"UTF-8\"><meta http-equiv=\"X-UA-Compatible\" content=\"IE=edge\"><meta name=\"viewport\" content=\"width=device-width, initial-scale=1.0\"><link rel=\"stylesheet\" href=\"style.css\"><title>"@
        + name + "</title></head><body>"@
}

/// The fixed page footer, exactly as the tool emits it.
pub open spec fn page_footer() -> Seq<char> {
    "</body></htm>"@
}

/// The whole page for one documented declaration: header with the
/// function name as title, an `<h1>` with the name, a "Syntax" section
/// with the raw declaration, the fragments of the comment body in the
/// order their tags appear, and the footer.
pub open spec fn page_html(
    name: Seq<char>,
    declaration: Seq<char>,
    ret: Seq<char>,
    comment: Seq<char>,
) -> Seq<char> {
    page_header(name) + "<h1>"@ + name + "</h1><h2>Syntax</h2><code>"@ + declaration + "</code>"@
        + fragments_html(comment_fragments(comment, ret)) + page_footer()
}

/// Appends one "Related" entry per space-separated token of `info`
/// from position `pos` on.
fn append_related_from(data: &mut String, info: &str, pos: usize)
    requires
        pos <= info@.len(),
    ensures
        final(data)@ == old(data)@ + related_items(split_spaces_from(info@, pos as int)),
    decreases info@.len() - pos,
{
    let n: usize = info.unicode_len();
    match find_space(info, pos) {
        None => {
            let tok = info.substring_char(pos, n);
            data.append("<li><a href=\"./");
            data.append(tok);
            data.append(".html\">");
            data.append(tok);
            data.append("</a></li>");
            proof {
                assert(split_spaces_from(info@, pos as int) =~= seq![tok@]);
                assert(seq![tok@].drop_first() =~= Seq::<Seq<char>>::empty());
                assert(related_items(Seq::<Seq<char>>::empty()) == Seq::<char>::empty());
                assert(related_items(seq![tok@]) =~= related_item(tok@));
                assert(final(data)@ =~= old(data)@ + related_items(
                    split_spaces_from(info@, pos as int),
                ));
            }
        },
        Some(sp) => {
            let tok = info.substring_char(pos, sp);
            data.append("<li><a href=\"./");
            data.append(tok);
            data.append(".html\">");
            data.append(tok);
            data.append("</a></li>");
            proof {
                assert(data@ =~= old(data)@ + related_item(tok@));
            }
            append_related_from(data, info, sp + 1);
            proof {
                let toks = split_spaces_from(info@, pos as int);
                assert(toks == seq![tok@] + split_spaces_from(info@, sp + 1));
                assert(toks[0] == tok@);
                assert(toks.drop_first() =~= split_spaces_from(info@, sp + 1));
                assert(final(data)@ =~= old(data)@ + related_items(toks));
            }
        },
    }
}

/// Processes one comment line: appends the HTML of the fragments it
/// contributes and hands back the params-heading flag after it.
fn handle_line(data: &mut String, line: &str, found_param: bool, return_type: &str) -> (fp: bool)
    ensures
        final(data)@ == old(data)@ + fragments_html(
            line_fragments(line@, found_param, return_type@).0,
        ),
        fp == line_fragments(line@, found_param, return_type@).1,
{
    let ghost lf = line_fragments(line@, found_param, return_type@);
    if line.unicode_len() == 0 || line.get_char(0) != '@' {
        proof {
            assert(final(data)@ =~= old(data)@ + fragments_html(lf.0));
        }
        return found_param;
    }
    match find_space(line, 0) {
        None => {
            proof {
                assert(final(data)@ =~= old(data)@ + fragments_html(lf.0));
            }
            found_param
        },
        Some(sp) => {
            let token = line.substring_char(0, sp);
            let info = line.substring_char(sp + 1, line.unicode_len());
            if str_eq(token, "@brief") || str_eq(token, "@note") {
                let html = markdown_to_html(info);
                data.append("<p>");
                data.append(html.as_str());
                data.append("</p>");
                proof {
                    lemma_fragments_html_one(Fragment::Para(html_of_markdown(info@)));
                    assert(final(data)@ =~= old(data)@ + fragments_html(lf.0));
                }
                found_param
            } else if str_eq(token, "@param") {
                if !found_param {
                    data.append("<h2>Params</h2>");
                }
                let ghost mid = data@;
                proof {
                    let heading: Seq<Fragment> = if !found_param {
                        seq![Fragment::ParamsHeading]
                    } else {
                        Seq::empty()
                    };
                    if !found_param {
                        lemma_fragments_html_one(Fragment::ParamsHeading);
                    }
                    assert(mid =~= old(data)@ + fragments_html(heading));
                }
                match find_space(info, 0) {
                    None => {
                        proof {
                            assert(final(data)@ =~= old(data)@ + fragments_html(lf.0));
                        }
                        true
                    },
                    Some(sp2) => {
                        let pname = info.substring_char(0, sp2);
                        let desc = info.substring_char(sp2 + 1, info.unicode_len());
                        let html = markdown_to_html(desc);
                        data.append("<dt>");
                        data.append(pname);
                        data.append("</dt><dd>");
                        data.append(html.as_str());
                        data.append("</dd>");
                        proof {
                            let heading: Seq<Fragment> = if !found_param {
                                seq![Fragment::ParamsHeading]
                            } else {
                                Seq::empty()
                            };
                            let entry = Fragment::ParamEntry(
                                pname@,
                                html_of_markdown(desc@),
                            );
                            lemma_fragments_html_one(entry);
                            lemma_fragments_html_app(heading, seq![entry]);
                            assert(lf.0 =~= heading + seq![entry]);
                            assert(final(data)@ =~= old(data)@ + fragments_html(lf.0));
                        }
                        true
                    },
                }
            } else if str_eq(token, "@ret") || str_eq(token, "@return") || str_eq(
                token,
                "@retval",
            ) {
                let html = markdown_to_html(info);
                data.append("<h2>Return Value</h2><code>");
                data.append(return_type);
                data.append("</code><p>");
                data.append(html.as_str());
                data.append("</p>");
                proof {
                    lemma_fragments_html_one(
                        Fragment::RetSection(return_type@, html_of_markdown(info@)),
                    );
                    assert(final(data)@ =~= old(data)@ + fragments_html(lf.0));
                }
                found_param
            } else if str_eq(token, "@related") {
                data.append("<h2>Related</h2><ul>");
                append_related_from(data, info, 0);
                data.append("</ul>");
                proof {
                    lemma_fragments_html_one(
                        Fragment::RelatedList(split_spaces_from(info@, 0)),
                    );
                    assert(final(data)@ =~= old(data)@ + fragments_html(lf.0));
                }
                found_param
            } else {
                proof {
                    assert(final(data)@ =~= old(data)@ + fragments_html(lf.0));
                }
                found_param
            }
        },
    }
}

/// Renders the whole page for one documented declaration.
pub fn render_page(name: &str, declaration: &str, return_type: &str, comment: &str) -> (r: String)
    ensures
        r@ == page_html(name@, declaration@, return_type@, comment@),
{
    let mut data = String::new();
    data.append(
        "<!DOCTYPE html><html lang=\"en\"><head><meta charset=\"UTF-8\"><meta http-equiv=\"X-UA-Compatible\" content=\"IE=edge\"><meta name=\"viewport\" content=\"width=device-width, initial-scale=1.0\"><link rel=\"stylesheet\" href=\"style.css\"><title>",
    );
    data.append(name);
    data.append("</title></head><body>");
    data.append("<h1>");
    data.append(name);
    data.append("</h1><h2>Syntax</h2><code>");
    data.append(declaration);
    data.append("</code>");
    let ghost prefix = page_header(name@) + "<h1>"@ + name@ + "</h1><h2>Syntax</h2><code>"@
        + declaration@ + "</code>"@;
    proof {
        assert(data@ =~= prefix);
    }
    let n: usize = comment.unicode_len();
    let mut pos: usize = 0;
    let mut fp = false;
    while pos < n
        invariant
            pos <= n,
            n == comment@.len(),
            data@ + fragments_html(
                lines_fragments(split_lines_from(comment@, pos as int), fp, return_type@),
            ) == prefix + fragments_html(comment_fragments(comment@, return_type@)),
        decreases n - pos,
    {
        let e = find_line_break(comment, pos);
        let stripped_end = if e > pos && comment.get_char(e - 1) == '\r' {
            e - 1
        } else {
            e
        };
        let line = comment.substring_char(pos, stripped_end);
        proof {
            assert(line@ =~= strip_cr(comment@.subrange(pos as int, e as int)));
        }
        let ghost rest = split_lines_from(
            comment@,
            if e == n {
                e as int
            } else {
                e + 1
            },
        );
        let ghost lf = line_fragments(line@, fp, return_type@);
        proof {
            assert(split_lines_from(comment@, pos as int) == seq![line@] + rest);
            assert((seq![line@] + rest)[0] == line@);
            assert((seq![line@] + rest).drop_first() =~= rest);
            assert(lines_fragments(split_lines_from(comment@, pos as int), fp, return_type@)
                == lf.0 + lines_fragments(rest, lf.1, return_type@));
            lemma_fragments_html_app(lf.0, lines_fragments(rest, lf.1, return_type@));
        }
        let fp2 = handle_line(&mut data, line, fp, return_type);
        fp = fp2;
        pos = if e == n {
            e
        } else {
            e + 1
        };
    }
    proof {
        assert(split_lines_from(comment@, pos as int) =~= Seq::<Seq<char>>::empty());
        assert(fragments_html(lines_fragments(split_lines_from(comment@, pos as int), fp, return_type@))
            =~= Seq::<char>::empty());
        assert(data@ =~= prefix + fragments_html(comment_fragments(comment@, return_type@)));
    }
    data.append("</body></htm>");
    proof {
        assert(data@ =~= page_html(name@, declaration@, return_type@, comment@));
    }
    data
}

} // verus!
