use sdoc::index::render_index;
use sdoc::pipeline::process_file;
use sdoc::render::render_page;

#[test]
fn one_page_per_renderable_pair() {
    let text = "/*\n@brief a\n*/\nint good(void);\n/*\n@brief b\n*/\nnoparens;\n/*\n@brief c\n*/\nchar *also_good(int x);\n";
    let out = process_file("input.h", text);
    assert_eq!(out.pages.len(), 2);
    assert_eq!(out.pages[0].name, "good");
    assert_eq!(out.pages[1].name, "also_good");
    assert_eq!(
        out.index,
        "<h1>Functions for input.h</h1><li><a href=\"good.html\">good</a></li><li><a href=\"also_good.html\">also_good</a></li>"
    );
}

#[test]
fn pages_match_standalone_rendering() {
    let text = "/*\n@brief Adds\n@param a left\n@param b right\n@ret the sum\n*/\nint add(int a, int b);\n";
    let out = process_file("math.h", text);
    assert_eq!(out.pages.len(), 1);
    let expected = render_page(
        "add",
        "int add(int a, int b)",
        "int",
        "@brief Adds\n@param a left\n@param b right\n@ret the sum",
    );
    assert_eq!(out.pages[0].html, expected);
}

#[test]
fn empty_input_yields_empty_index() {
    let out = process_file("empty.h", "nothing matches in here\n");
    assert_eq!(out.pages.len(), 0);
    assert_eq!(out.index, "<h1>Functions for empty.h</h1>");
}

#[test]
fn rerun_yields_identical_output() {
    let text = "/*\n@brief a *b* c\n@related x y\n*/\nlong spin(int n);\n";
    let first = process_file("s.h", text);
    let second = process_file("s.h", text);
    assert_eq!(first.pages.len(), second.pages.len());
    for (p, q) in first.pages.iter().zip(second.pages.iter()) {
        assert_eq!(p.name, q.name);
        assert_eq!(p.html, q.html);
    }
    assert_eq!(first.index, second.index);
}

#[test]
fn declaration_without_return_type_is_skipped() {
    let text = "/*\n@brief x\n*/\nanon(int a);\n";
    let out = process_file("t.h", text);
    assert_eq!(out.pages.len(), 0);
    assert_eq!(out.index, "<h1>Functions for t.h</h1>");
}

#[test]
fn index_lists_given_names() {
    let names = vec!["alpha".to_string(), "beta".to_string()];
    let index = render_index("lib.h", &names);
    assert_eq!(
        index,
        "<h1>Functions for lib.h</h1><li><a href=\"alpha.html\">alpha</a></li><li><a href=\"beta.html\">beta</a></li>"
    );
}
