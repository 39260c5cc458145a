use clang_support::{parse_version_number, parse_version_output, CXVersion};

fn version(major: i32, minor: i32, subminor: i32) -> Option<CXVersion> {
    Some(CXVersion { Major: major, Minor: minor, Subminor: subminor })
}

#[test]
fn release_banner_reads_three_numbers() {
    assert_eq!(
        parse_version_output("clang version 3.8.0 (tags/RELEASE_380/final)"),
        version(3, 8, 0)
    );
}

#[test]
fn missing_minor_gives_none() {
    assert_eq!(parse_version_output("clang version 10svn"), None);
}

#[test]
fn missing_subminor_defaults_to_zero() {
    assert_eq!(parse_version_output("clang version 7.1"), version(7, 1, 0));
}

#[test]
fn general_banner_reads_exact_numbers() {
    let banner = "Ubuntu clang version 14.0.6\nTarget: x86_64-pc-linux-gnu\n";
    assert_eq!(parse_version_output(banner), version(14, 0, 6));
    assert_eq!(parse_version_output("version 123.45.6789 trailing"), version(123, 45, 6789));
}

#[test]
fn trailing_suffixes_are_ignored() {
    assert_eq!(parse_version_output("clang version 8rc1.0rc2.1git"), version(8, 0, 1));
    assert_eq!(parse_version_output("clang version 5.0.1.4"), version(5, 0, 1));
}

#[test]
fn unparsable_subminor_defaults_to_zero() {
    assert_eq!(parse_version_output("clang version 6.2.x"), version(6, 2, 0));
}

#[test]
fn banner_without_marker_gives_none() {
    assert_eq!(parse_version_output("clang 3.8.0"), None);
    assert_eq!(parse_version_output(""), None);
}

#[test]
fn marker_without_token_gives_none() {
    assert_eq!(parse_version_output("clang version    \n "), None);
}

#[test]
fn first_marker_is_used() {
    assert_eq!(
        parse_version_output("Apple LLVM version 9.1.0 (clang version 5.0.0)"),
        version(9, 1, 0)
    );
}

#[test]
fn leading_whitespace_before_token_is_skipped() {
    assert_eq!(parse_version_output("clang version \t 4.0.1"), version(4, 0, 1));
}

#[test]
fn version_number_ignores_trailing_characters() {
    assert_eq!(parse_version_number("8rc1"), Some(8));
    assert_eq!(parse_version_number("0042"), Some(42));
    assert_eq!(parse_version_number("rc1"), None);
    assert_eq!(parse_version_number(""), None);
}

#[test]
fn version_number_must_fit_in_c_int() {
    assert_eq!(parse_version_number("2147483647"), Some(2147483647));
    assert_eq!(parse_version_number("2147483648"), None);
    assert_eq!(parse_version_number("99999999999999999999x"), None);
}
