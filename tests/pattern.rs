use clang_support::{find, join, select_executable};

fn names(v: &[&str]) -> Vec<String> {
    v.iter().map(|s| s.to_string()).collect()
}

#[test]
fn unversioned_name_wins() {
    assert_eq!(find(&names(&["clang-9", "clang", "clang-10"]), ""), Some("clang".to_string()));
}

#[test]
fn least_versioned_name_is_picked() {
    assert_eq!(find(&names(&["clang-9", "ls", "clang-10", "clang-3.8"]), ""), Some("clang-10".to_string()));
}

#[test]
fn names_without_digit_do_not_match() {
    assert_eq!(find(&names(&["clang-cpp", "clang-", "clangd", "xclang"]), ""), None);
    assert_eq!(find(&names(&[]), ""), None);
}

#[test]
fn executable_suffix_is_required() {
    assert_eq!(find(&names(&["clang", "clang-11"]), ".exe"), None);
    assert_eq!(find(&names(&["clang-11.exe", "clang"]), ".exe"), Some("clang-11.exe".to_string()));
    assert_eq!(find(&names(&["clang-11.exe", "clang.exe"]), ".exe"), Some("clang.exe".to_string()));
}

#[test]
fn join_inserts_separator_once() {
    assert_eq!(join("/usr/bin", "clang", '/'), "/usr/bin/clang");
    assert_eq!(join("/usr/bin/", "clang", '/'), "/usr/bin/clang");
    assert_eq!(join("", "clang", '/'), "clang");
    assert_eq!(join("C:\\llvm", "clang.exe", '\\'), "C:\\llvm\\clang.exe");
}

#[test]
fn first_directory_with_a_match_wins() {
    let dirs = names(&["/opt/a", "/opt/b", "/opt/c"]);
    let listings = vec![names(&["gcc"]), names(&["clang-12"]), names(&["clang"])];
    assert_eq!(select_executable(&dirs, &listings, "", '/'), Some("/opt/b/clang-12".to_string()));
}

#[test]
fn no_match_anywhere_gives_none() {
    let dirs = names(&["/opt/a", "/opt/b"]);
    let listings = vec![names(&["gcc", "clangd"]), names(&[])];
    assert_eq!(select_executable(&dirs, &listings, "", '/'), None);
    assert_eq!(select_executable(&names(&[]), &vec![], "", '/'), None);
}
