use codegen::code_writer::{CodeFile, CodeFileOptions};

fn options(indent: &str, line_break: &str) -> CodeFileOptions {
    CodeFileOptions { line_break: line_break.to_string(), indent: indent.to_string() }
}

#[test]
fn new_file_is_empty() {
    let file = CodeFile::new(&options("    ", "\n"));
    assert_eq!(file.build_string(), "");
}

#[test]
fn lines_are_indented_by_open_blocks() {
    let mut file = CodeFile::new(&options("  ", "\n"));
    file.begin_indent("a {");
    file.begin_indent("b {");
    file.line("c");
    file.end_indent("}");
    file.blank_line();
    file.end_indent("}");
    assert_eq!(file.build_string(), "a {\n  b {\n    c\n  }\n\n}\n");
}

#[test]
fn blank_line_is_not_indented() {
    let mut file = CodeFile::new(&options("\t", "\r\n"));
    file.begin_indent("{");
    file.blank_line();
    file.line("x");
    assert_eq!(file.build_string(), "{\r\n\r\n\tx\r\n");
}

#[test]
fn open_blocks_are_counted() {
    let mut file = CodeFile::new(&options("  ", "\n"));
    assert_eq!(file.open_blocks(), 0);
    file.begin_indent("{");
    file.begin_indent("{");
    assert_eq!(file.open_blocks(), 2);
    file.end_indent("}");
    assert_eq!(file.open_blocks(), 1);
    file.line("x");
    file.blank_line();
    assert_eq!(file.open_blocks(), 1);
    file.end_indent("}");
    assert_eq!(file.open_blocks(), 0);
    assert_eq!(file.build_string(), "{\n  {\n  }\n  x\n\n}\n");
}
