use sdoc::render::render_page;

fn whole_page(name: &str, declaration: &str, body: &str) -> String {
    format!(
        "<!DOCTYPE html><html lang=\"en\"><head><meta charset=\"UTF-8\"><meta http-equiv=\"X-UA-Compatible\" content=\"IE=edge\"><meta name=\"viewport\" content=\"width=device-width, initial-scale=1.0\"><link rel=\"stylesheet\" href=\"style.css\"><title>{}</title></head><body><h1>{}</h1><h2>Syntax</h2><code>{}</code>{}</body></htm>",
        name, name, declaration, body
    )
}

#[test]
fn renders_sections_in_order() {
    let comment = "@brief Hello\n@param x the value\n@ret the result";
    let page = render_page("add", "int add(int x)", "int", comment);
    let body = format!(
        "<p>{}</p><h2>Params</h2><dt>x</dt><dd>{}</dd><h2>Return Value</h2><code>int</code><p>{}</p>",
        markdown::to_html("Hello"),
        markdown::to_html("the value"),
        markdown::to_html("the result")
    );
    assert_eq!(page, whole_page("add", "int add(int x)", &body));
}

#[test]
fn params_heading_appears_once() {
    let comment = "@param x first one\n@param y second one";
    let page = render_page("f", "int f(int x, int y)", "int", comment);
    let body = format!(
        "<h2>Params</h2><dt>x</dt><dd>{}</dd><dt>y</dt><dd>{}</dd>",
        markdown::to_html("first one"),
        markdown::to_html("second one")
    );
    assert_eq!(page, whole_page("f", "int f(int x, int y)", &body));
}

#[test]
fn related_list_links_each_token() {
    let comment = "@related foo bar";
    let page = render_page("f", "int f(void)", "int", comment);
    let body = "<h2>Related</h2><ul><li><a href=\"./foo.html\">foo</a></li><li><a href=\"./bar.html\">bar</a></li></ul>";
    assert_eq!(page, whole_page("f", "int f(void)", body));
}

#[test]
fn malformed_tag_line_is_skipped() {
    let comment = "@brief Hello\n@note\nplain filler\n@param x val";
    let page = render_page("f", "int f(int x)", "int", comment);
    let body = format!(
        "<p>{}</p><h2>Params</h2><dt>x</dt><dd>{}</dd>",
        markdown::to_html("Hello"),
        markdown::to_html("val")
    );
    assert_eq!(page, whole_page("f", "int f(int x)", &body));
}

#[test]
fn malformed_param_still_emits_heading() {
    // `@param x` has no description: the heading is emitted, the entry
    // is not.
    let page = render_page("f", "int f(int x)", "int", "@param x");
    assert_eq!(page, whole_page("f", "int f(int x)", "<h2>Params</h2>"));
}

#[test]
fn unknown_tag_is_ignored() {
    let page = render_page("f", "int f(void)", "int", "@mystery something");
    assert_eq!(page, whole_page("f", "int f(void)", ""));
}

#[test]
fn each_return_tag_emits_a_section() {
    let comment = "@ret one\n@retval two";
    let page = render_page("f", "char *f(void)", "char *", comment);
    let body = format!(
        "<h2>Return Value</h2><code>char *</code><p>{}</p><h2>Return Value</h2><code>char *</code><p>{}</p>",
        markdown::to_html("one"),
        markdown::to_html("two")
    );
    assert_eq!(page, whole_page("f", "char *f(void)", &body));
}

#[test]
fn markup_is_transformed() {
    let page = render_page("f", "int f(void)", "int", "@brief some *emphasis* here");
    assert!(page.contains("<em>emphasis</em>"));
    assert!(!page.contains("*emphasis*"));
}

#[test]
fn carriage_returns_are_stripped_from_lines() {
    let comment = "@brief Hello\r\n@note Bye";
    let page = render_page("f", "int f(void)", "int", comment);
    let body = format!(
        "<p>{}</p><p>{}</p>",
        markdown::to_html("Hello"),
        markdown::to_html("Bye")
    );
    assert_eq!(page, whole_page("f", "int f(void)", &body));
}
