use langfront::input::{line_is_blank, line_opens_block};

#[test]
fn line_that_ends_with_a_brace_opens_a_block() {
    assert!(line_opens_block("fcn f() -> Bool {"));
    assert!(line_opens_block("fcn f() -> Bool {\n"));
    assert!(line_opens_block("{ \t \r\n"));
    assert!(line_opens_block("{\u{a0}\u{2003}\u{3000}"));
    assert!(line_opens_block("{"));
}

#[test]
fn other_lines_open_no_block() {
    assert!(!line_opens_block(""));
    assert!(!line_opens_block("\n"));
    assert!(!line_opens_block("{ }\n"));
    assert!(!line_opens_block("{ x"));
    assert!(!line_opens_block("var x :: Bool = True\n"));
    assert!(!line_opens_block("{\u{200b}"));
    assert!(!line_opens_block("}"));
}

#[test]
fn line_of_white_space_is_blank() {
    assert!(line_is_blank(""));
    assert!(line_is_blank("\n"));
    assert!(line_is_blank("  \t\r\n"));
    assert!(line_is_blank("\u{85}\u{1680}\u{2028}\u{2029}\u{202f}\u{205f}"));
}

#[test]
fn other_lines_are_not_blank() {
    assert!(!line_is_blank("x"));
    assert!(!line_is_blank("  }  \n"));
    assert!(!line_is_blank("\u{200b}"));
    assert!(!line_is_blank("\u{feff}\n"));
}

#[test]
fn white_space_is_what_trimming_takes_away() {
    let mut code = 0u32;
    while code <= 0x10ffff {
        if let Some(c) = char::from_u32(code) {
            let line = c.to_string();
            assert_eq!(line_is_blank(&line), line.trim_end() == "", "U+{:04X}", code);
            let after = format!("{{{}", c);
            assert_eq!(line_opens_block(&after), after.trim_end().ends_with('{'), "U+{:04X}", code);
        }
        code += 1;
    }
}
