use clang_support::{parse_search_paths_output, trim_text};

#[test]
fn synthetic_block_yields_paths_in_order() {
    let text = "#include <...> search starts here:\n /usr/include/foo\n /usr/local/include (framework directory)\nEnd of search list.\n";
    assert_eq!(
        parse_search_paths_output(text),
        Some(vec!["/usr/include/foo".to_string(), "/usr/local/include".to_string()])
    );
}

#[test]
fn realistic_diagnostics_are_parsed() {
    let text = "clang version 14.0.6\n#include \"...\" search starts here:\n#include <...> search starts here:\n /usr/lib/llvm-14/lib/clang/14.0.6/include\n /usr/local/include\n /usr/include\nEnd of search list.\n# 1 \"<stdin>\"\n";
    assert_eq!(
        parse_search_paths_output(text),
        Some(vec![
            "/usr/lib/llvm-14/lib/clang/14.0.6/include".to_string(),
            "/usr/local/include".to_string(),
            "/usr/include".to_string(),
        ])
    );
}

#[test]
fn missing_start_line_gives_none() {
    assert_eq!(parse_search_paths_output(" /usr/include\nEnd of search list.\n"), None);
}

#[test]
fn missing_end_line_gives_none() {
    assert_eq!(parse_search_paths_output("#include <...> search starts here:\n /usr/include\n"), None);
}

#[test]
fn end_line_before_start_line_gives_none() {
    assert_eq!(
        parse_search_paths_output("End of search list.\n#include <...> search starts here:\n /a\n"),
        None
    );
}

#[test]
fn empty_list_gives_no_paths() {
    assert_eq!(
        parse_search_paths_output("#include <...> search starts here:\nEnd of search list."),
        Some(vec![])
    );
}

#[test]
fn duplicates_and_case_are_kept() {
    let text = "#include <...> search starts here:\n /Usr/Include\n /usr/include\n /Usr/Include\nEnd of search list.";
    assert_eq!(
        parse_search_paths_output(text),
        Some(vec!["/Usr/Include".to_string(), "/usr/include".to_string(), "/Usr/Include".to_string()])
    );
}

#[test]
fn crlf_line_endings_are_handled() {
    let text = "#include <...> search starts here:\r\n C:\\include \r\n\r\n D:\\sdk (framework directory)\r\nEnd of search list.\r\n";
    assert_eq!(
        parse_search_paths_output(text),
        Some(vec!["C:\\include".to_string(), "D:\\sdk".to_string()])
    );
}

#[test]
fn whitespace_only_line_gives_empty_path() {
    let text = "#include <...> search starts here:\n   \n /a\nEnd of search list.";
    assert_eq!(parse_search_paths_output(text), Some(vec!["".to_string(), "/a".to_string()]));
}

#[test]
fn framework_note_is_removed_inside_a_line() {
    let text = "#include <...> search starts here:\n /a(framework directory)/b\nEnd of search list.";
    assert_eq!(parse_search_paths_output(text), Some(vec!["/a/b".to_string()]));
}

#[test]
fn trim_text_removes_surrounding_whitespace() {
    assert_eq!(trim_text("  /usr/bin\n"), "/usr/bin");
    assert_eq!(trim_text("\u{3000}x y\t"), "x y");
    assert_eq!(trim_text(" \n "), "");
}
