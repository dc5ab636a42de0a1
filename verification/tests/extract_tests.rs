use sdoc::extract::extract_blocks;
use sdoc::signature::fn_name;
use sdoc::signature::ret_type;

#[test]
fn extracts_single_block() {
    let text = "/*\n@brief Adds two numbers\n*/\nint add(int a, int b);\n";
    let blocks = extract_blocks(text);
    assert_eq!(blocks.len(), 1);
    assert_eq!(blocks[0].comment, "@brief Adds two numbers");
    assert_eq!(blocks[0].declaration, "int add(int a, int b)");
}

#[test]
fn extracts_blocks_in_order() {
    let text = "/*\n@brief first\n*/\nint one(void);\njunk\n/*\n@brief second\n@note more\n*/\nchar *two(int x);\n";
    let blocks = extract_blocks(text);
    assert_eq!(blocks.len(), 2);
    assert_eq!(blocks[0].comment, "@brief first");
    assert_eq!(blocks[0].declaration, "int one(void)");
    assert_eq!(blocks[1].comment, "@brief second\n@note more");
    assert_eq!(blocks[1].declaration, "char *two(int x)");
}

#[test]
fn trims_comment_body() {
    let text = "/*\n@brief padded\n\n\n*/\nint f(void);\n";
    let blocks = extract_blocks(text);
    assert_eq!(blocks.len(), 1);
    assert_eq!(blocks[0].comment, "@brief padded");
}

#[test]
fn no_blocks_in_plain_text() {
    let blocks = extract_blocks("int foo(void);\nno comments here\n");
    assert_eq!(blocks.len(), 0);
}

#[test]
fn comment_must_open_with_at_line() {
    // The line after `/*` must start with `@`.
    let blocks = extract_blocks("/*\nbrief without at\n*/\nint f(void);\n");
    assert_eq!(blocks.len(), 0);
}

#[test]
fn opener_must_be_followed_by_line_feed() {
    let blocks = extract_blocks("/* \n@brief x\n*/\nint f(void);\n");
    assert_eq!(blocks.len(), 0);
}

#[test]
fn close_must_end_a_line() {
    // `*/` at end of text without a line feed closes nothing.
    let blocks = extract_blocks("/*\n@brief x\n*/");
    assert_eq!(blocks.len(), 0);
}

#[test]
fn declaration_must_hold_semicolon() {
    let text = "/*\n@brief x\n*/\nno semicolon here\n/*\n@brief y\n*/\nint f(void);\n";
    let blocks = extract_blocks(text);
    assert_eq!(blocks.len(), 1);
    assert_eq!(blocks[0].comment, "@brief y");
    assert_eq!(blocks[0].declaration, "int f(void)");
}

#[test]
fn declaration_runs_to_last_semicolon() {
    let text = "/*\n@brief x\n*/\nint f(void); int g(void);\n";
    let blocks = extract_blocks(text);
    assert_eq!(blocks.len(), 1);
    assert_eq!(blocks[0].declaration, "int f(void); int g(void)");
}

#[test]
fn close_may_share_its_line_end() {
    // `*/` need only be followed by a line feed, not stand alone.
    let text = "/*\n@brief x */\nint f(void);\n";
    let blocks = extract_blocks(text);
    assert_eq!(blocks.len(), 1);
    assert_eq!(blocks[0].comment, "@brief x");
}

#[test]
fn name_of_simple_declaration() {
    assert_eq!(fn_name("int add(int a, int b)"), Some("add".to_string()));
}

#[test]
fn ret_type_of_simple_declaration() {
    assert_eq!(ret_type("int add(int a, int b)"), Some("int".to_string()));
}

#[test]
fn name_of_pointer_declaration() {
    assert_eq!(fn_name("char *make_name(void)"), Some("make_name".to_string()));
}

#[test]
fn ret_type_keeps_pointer_marker() {
    assert_eq!(ret_type("char *make_name(void)"), Some("char *".to_string()));
}

#[test]
fn ret_type_keeps_double_pointer() {
    assert_eq!(ret_type("char **split(char c)"), Some("char **".to_string()));
    assert_eq!(fn_name("char **split(char c)"), Some("split".to_string()));
}

#[test]
fn no_parenthesis_means_no_name() {
    assert_eq!(fn_name("int x"), None);
    assert_eq!(ret_type("int x"), None);
}

#[test]
fn parenthesis_needs_name_before_it() {
    assert_eq!(fn_name("foo (x)"), None);
}

#[test]
fn missing_return_type_is_rejected() {
    assert_eq!(fn_name("add(int a)"), Some("add".to_string()));
    assert_eq!(ret_type("add(int a)"), None);
}
