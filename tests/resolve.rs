use clang_support::{
    candidate_directories, parse_search_paths, parse_version, run_clang, run_llvm_config, Clang,
    ClangError, CXVersion, DirectoryLister, Environment, ProcessRunner,
};

const BANNER: &str = "clang version 3.8.0 (tags/RELEASE_380/final)\nTarget: x86_64\n";
const C_DIAG: &str = "#include <...> search starts here:\n /usr/include\nEnd of search list.\n";
const CPP_DIAG: &str =
    "#include <...> search starts here:\n /usr/include/c++/v1\n /usr/include\nEnd of search list.\n";

struct FakeHost {
    programs: Vec<(String, Vec<String>, String, String)>,
    directories: Vec<(String, Vec<String>)>,
}

impl FakeHost {
    fn new() -> FakeHost {
        FakeHost { programs: vec![], directories: vec![] }
    }

    fn program(mut self, exe: &str, args: &[&str], stdout: &str, stderr: &str) -> FakeHost {
        self.programs.push((
            exe.to_string(),
            args.iter().map(|a| a.to_string()).collect(),
            stdout.to_string(),
            stderr.to_string(),
        ));
        self
    }

    fn clang(self, exe: &str) -> FakeHost {
        self.program(exe, &["--version"], BANNER, "")
            .program(exe, &["-E", "-x", "c", "-", "-v"], "", C_DIAG)
            .program(exe, &["-E", "-x", "c++", "-", "-v"], "", CPP_DIAG)
    }

    fn directory(mut self, dir: &str, entries: &[&str]) -> FakeHost {
        self.directories.push((dir.to_string(), entries.iter().map(|e| e.to_string()).collect()));
        self
    }
}

impl ProcessRunner for FakeHost {
    fn run(&self, executable: &str, arguments: &[&str]) -> Result<(String, String), String> {
        for (exe, args, out, err) in &self.programs {
            if exe == executable && args.iter().map(|a| a.as_str()).eq(arguments.iter().copied()) {
                return Ok((out.clone(), err.clone()));
            }
        }
        Err(format!("could not run executable: `{}`", executable))
    }
}

impl DirectoryLister for FakeHost {
    fn list_directory(&self, directory: &str) -> Vec<String> {
        for (dir, entries) in &self.directories {
            if dir == directory {
                return entries.clone();
            }
        }
        vec![]
    }
}

fn env(clang_path: Option<&str>, path: &[&str]) -> Environment {
    Environment {
        clang_path: clang_path.map(|p| p.to_string()),
        llvm_config_path: None,
        search_path: path.iter().map(|p| p.to_string()).collect(),
        exe_suffix: String::new(),
        separator: '/',
        is_macos: false,
    }
}

fn strings(v: &[&str]) -> Vec<String> {
    v.iter().map(|s| s.to_string()).collect()
}

#[test]
fn override_path_is_used_verbatim() {
    let host = FakeHost::new()
        .clang("/custom/my-clang")
        .clang("/usr/bin/clang")
        .directory("/usr/bin", &["clang"]);
    let found = Clang::find(&host, &env(Some("/custom/my-clang"), &["/usr/bin"]), None)
        .unwrap()
        .unwrap();
    assert_eq!(found.path, "/custom/my-clang");
    assert_eq!(found.version, Some(CXVersion { Major: 3, Minor: 8, Subminor: 0 }));
}

#[test]
fn override_path_skips_search_even_when_nothing_is_installed() {
    let host = FakeHost::new().clang("/only/here");
    let found = Clang::find(&host, &env(Some("/only/here"), &[]), None).unwrap().unwrap();
    assert_eq!(found.path, "/only/here");
}

#[test]
fn no_candidate_gives_none() {
    let host = FakeHost::new().directory("/usr/bin", &["gcc", "clangd"]).directory("/bin", &["ls"]);
    assert_eq!(Clang::find(&host, &env(None, &["/usr/bin", "/bin"]), Some("/hint")).unwrap().map(|c| c.path), None);
}

#[test]
fn found_executable_is_described() {
    let host = FakeHost::new()
        .clang("/usr/bin/clang-14")
        .directory("/bin", &["ls"])
        .directory("/usr/bin", &["clang-14", "clang-format"]);
    let found = Clang::find(&host, &env(None, &["/bin", "/usr/bin"]), None).unwrap().unwrap();
    assert_eq!(found.path, "/usr/bin/clang-14");
    assert_eq!(found.version, Some(CXVersion { Major: 3, Minor: 8, Subminor: 0 }));
    assert_eq!(found.c_search_paths, strings(&["/usr/include"]));
    assert_eq!(found.cpp_search_paths, strings(&["/usr/include/c++/v1", "/usr/include"]));
    assert_eq!(found.objc_search_paths, strings(&["/usr/include/c++/v1", "/usr/include"]));
}

#[test]
fn hint_comes_before_llvm_config_and_path() {
    let host = FakeHost::new()
        .clang("/hint/clang")
        .program("llvm-config", &["--bindir"], "/llvm/bin\n", "")
        .directory("/hint", &["clang"])
        .directory("/llvm/bin", &["clang"])
        .directory("/usr/bin", &["clang"]);
    let found = Clang::find(&host, &env(None, &["/usr/bin"]), Some("/hint")).unwrap().unwrap();
    assert_eq!(found.path, "/hint/clang");
}

#[test]
fn llvm_config_directory_comes_before_path() {
    let host = FakeHost::new()
        .clang("/llvm/bin/clang")
        .program("llvm-config", &["--bindir"], "/llvm/bin\n", "")
        .directory("/llvm/bin", &["clang"])
        .directory("/usr/bin", &["clang"]);
    let found = Clang::find(&host, &env(None, &["/usr/bin"]), None).unwrap().unwrap();
    assert_eq!(found.path, "/llvm/bin/clang");
}

#[test]
fn search_is_repeatable() {
    let host = FakeHost::new()
        .clang("/usr/bin/clang")
        .directory("/usr/bin", &["clang-9", "clang"]);
    let e = env(None, &["/usr/bin"]);
    let first = Clang::find(&host, &e, None).unwrap().unwrap();
    let second = Clang::find(&host, &e, None).unwrap().unwrap();
    assert_eq!(first.path, second.path);
    assert_eq!(first.version, second.version);
    assert_eq!(first.c_search_paths, second.c_search_paths);
    assert_eq!(first.cpp_search_paths, second.cpp_search_paths);
    assert_eq!(first.objc_search_paths, second.objc_search_paths);
}

#[test]
fn unparsable_version_is_not_fatal() {
    let host = FakeHost::new()
        .program("/x/clang", &["--version"], "some compiler 1.0", "")
        .program("/x/clang", &["-E", "-x", "c", "-", "-v"], "", C_DIAG)
        .program("/x/clang", &["-E", "-x", "c++", "-", "-v"], "", CPP_DIAG);
    let found = Clang::new(&host, "/x/clang".to_string()).unwrap();
    assert_eq!(found.version, None);
    assert_eq!(found.c_search_paths, strings(&["/usr/include"]));
}

#[test]
fn missing_search_list_is_an_error() {
    let host = FakeHost::new()
        .program("/x/clang", &["--version"], BANNER, "")
        .program("/x/clang", &["-E", "-x", "c", "-", "-v"], "", "no list here")
        .program("/x/clang", &["-E", "-x", "c++", "-", "-v"], "", CPP_DIAG);
    assert_eq!(
        Clang::new(&host, "/x/clang".to_string()).map(|c| c.path),
        Err(ClangError::MissingSearchList { language: "c".to_string() })
    );
    assert_eq!(
        parse_search_paths(&host, "/x/clang", "c"),
        Err(ClangError::MissingSearchList { language: "c".to_string() })
    );
}

#[test]
fn launch_failure_is_an_error() {
    let host = FakeHost::new();
    assert_eq!(
        Clang::new(&host, "/missing/clang".to_string()).map(|c| c.path),
        Err(ClangError::Launch { executable: "/missing/clang".to_string() })
    );
    assert_eq!(
        run_clang(&host, "/missing/clang", &["--version"]),
        Err(ClangError::Launch { executable: "/missing/clang".to_string() })
    );
    assert_eq!(
        parse_version(&host, "/missing/clang"),
        Err(ClangError::Launch { executable: "/missing/clang".to_string() })
    );
}

#[test]
fn parse_version_reads_standard_output() {
    let host = FakeHost::new().clang("/c");
    assert_eq!(parse_version(&host, "/c"), Ok(Some(CXVersion { Major: 3, Minor: 8, Subminor: 0 })));
}

#[test]
fn llvm_config_path_from_environment_is_run() {
    let host = FakeHost::new().program("/opt/llvm-config", &["--bindir"], "/opt/bin\n", "");
    let mut e = env(None, &[]);
    assert_eq!(
        run_llvm_config(&host, &e, &["--bindir"]),
        Err(ClangError::Launch { executable: "llvm-config".to_string() })
    );
    e.llvm_config_path = Some("/opt/llvm-config".to_string());
    assert_eq!(run_llvm_config(&host, &e, &["--bindir"]), Ok("/opt/bin\n".to_string()));
}

#[test]
fn candidate_directories_keep_search_order() {
    let dirs = candidate_directories(
        Some("/hint"),
        Some("/llvm/bin\n".to_string()),
        Some("  /xcode/bin \n".to_string()),
        &strings(&["/usr/bin", "/bin"]),
    );
    assert_eq!(dirs, strings(&["/hint", "/llvm/bin", "/xcode/bin", "/usr/bin", "/bin"]));
    let dirs = candidate_directories(None, None, None, &strings(&["/bin"]));
    assert_eq!(dirs, strings(&["/bin"]));
}

fn pair(out: &str, err: &str) -> (String, String) {
    (out.to_string(), err.to_string())
}

#[test]
fn describe_builds_from_given_outputs() {
    let block = "#include <...> search starts here:\n /usr/include/foo\n /usr/local/include (framework directory)\nEnd of search list.\n";
    let c = Clang::describe(
        "/usr/bin/clang".to_string(),
        &pair("clang version 3.8.0 (tags/RELEASE_380/final)", "ignored"),
        &pair("version 9.9.9", block),
        &pair("", block),
        &pair("", block),
    )
    .unwrap();
    let paths = strings(&["/usr/include/foo", "/usr/local/include"]);
    assert_eq!(c.path, "/usr/bin/clang");
    assert_eq!(c.version, Some(CXVersion { Major: 3, Minor: 8, Subminor: 0 }));
    assert_eq!(c.c_search_paths, paths);
    assert_eq!(c.cpp_search_paths, paths);
    assert_eq!(c.objc_search_paths, paths);
}

#[test]
fn describe_reads_version_from_stdout_only() {
    let empty = "#include <...> search starts here:\nEnd of search list.\n";
    let c = Clang::describe(
        "/x".to_string(),
        &pair("no banner", "clang version 1.2.3"),
        &pair("", empty),
        &pair("", empty),
        &pair("", empty),
    )
    .unwrap();
    assert_eq!(c.version, None);
    assert!(c.c_search_paths.is_empty());
}

#[test]
fn describe_names_first_failing_language() {
    let block = "#include <...> search starts here:\nEnd of search list.\n";
    let r = Clang::describe("/x".to_string(), &pair("", ""), &pair("", block), &pair(block, "none"), &pair("", block));
    assert_eq!(r.map(|c| c.path), Err(ClangError::MissingSearchList { language: "c++".to_string() }));
    let r = Clang::describe("/x".to_string(), &pair("", ""), &pair(block, ""), &pair("", "none"), &pair("", block));
    assert_eq!(r.map(|c| c.path), Err(ClangError::MissingSearchList { language: "c".to_string() }));
}
