//! Index writer: renders the per-input-file index document, a heading
//! followed by one link entry per successfully generated page.

use vstd::prelude::*;
use vstd::string::StrSliceExecFns;
use vstd::string::StringExecFns;

verus! {

/// The views of a list of page names.
pub open spec fn name_views(names: Seq<String>) -> Seq<Seq<char>> {
    names.map_values(|s: String| s@)
}

/// One index entry: a link to the page of the named function.
pub open spec fn index_entry(name: Seq<char>) -> Seq<char> {
    "<li><a href=\""@ + name + ".html\">"@ + name + "</a></li>"@
}

/// The index entries for the names from position `idx` on, in order.
pub open spec fn index_entries_from(names: Seq<Seq<char>>, idx: int) -> Seq<char>
    decreases names.len() - idx
        when 0 <= idx
{
    if idx >= names.len() {
        Seq::empty()
    } else {
        index_entry(names[idx]) + index_entries_from(names, idx + 1)
    }
}

/// The whole index document for one input file: its heading and one
/// entry per page name, in order.
pub open spec fn index_html(file_name: Seq<char>, names: Seq<Seq<char>>) -> Seq<char> {
    "<h1>Functions for "@ + file_name + "</h1>"@ + index_entries_from(names, 0)
}

/// Renders the index document for the input file and the names of the
/// pages generated from it.
pub fn render_index(file_name: &str, names: &Vec<String>) -> (r: String)
    ensures
        r@ == index_html(file_name@, name_views(names@)),
{
    let mut data = String::new();
    data.append("<h1>Functions for ");
    data.append(file_name);
    data.append("</h1>");
    let mut idx: usize = 0;
    while idx < names.len()
        invariant
            idx <= names@.len(),
            data@ + index_entries_from(name_views(names@), idx as int) == index_html(
                file_name@,
                name_views(names@),
            ),
        decreases names@.len() - idx,
    {
        let name = names[idx].as_str();
        data.append("<li><a href=\"");
        data.append(name);
        data.append(".html\">");
        data.append(name);
        data.append("</a></li>");
        proof {
            let nv = name_views(names@);
            assert(nv[idx as int] == names@[idx as int]@);
            assert(data@ + index_entries_from(nv, idx + 1) =~= index_html(file_name@, nv));
        }
        idx = idx + 1;
    }
    data
}

} // verus!
