//! The `clang` executable that a search of the host finds, with its version
//! and header search paths.

use vstd::prelude::*;

use crate::pattern::{first_match, listing_texts, select_executable};
use crate::search_paths::{parse_search_paths_output, search_paths_of, texts};
use crate::text::{chars_of, string_from_chars, sub_vec, trim, trim_bounds};
use crate::version::{parse_version_output, version_of, CXVersion};

verus! {

/// Starts programs for the search: a host supplies the real one, a test a
/// stand-in with canned output.
pub trait ProcessRunner {
    /// Runs `executable` with `arguments` until it ends, and returns what it
    /// wrote to standard output and standard error, as text (invalid byte
    /// sequences replaced), whatever its exit status; or a message where the
    /// program could not be started.
    fn run(&self, executable: &str, arguments: &[&str]) -> (r: Result<(String, String), String>)
        ensures
            self.ran(executable@, arg_texts(arguments@), outcome(&r)),
    ;

    /// A run of `executable` with `arguments` gave `out`: the two texts it
    /// wrote, or `Err(())` where it could not be started. Generic code sees
    /// only what `run` records here; an implementation that keeps no record
    /// leaves it true.
    closed spec fn ran(
        &self,
        executable: Seq<char>,
        arguments: Seq<Seq<char>>,
        out: Result<(Seq<char>, Seq<char>), ()>,
    ) -> bool {
        true
    }
}

/// Lists the names of the entries of a directory (none where it cannot be read).
pub trait DirectoryLister {
    fn list_directory(&self, directory: &str) -> (r: Vec<String>)
        ensures
            self.lists(directory@, texts(r@)),
    ;

    /// A listing of `directory` gave `entries`. Generic code sees only what
    /// `list_directory` records here; an implementation that keeps no record
    /// leaves it true.
    closed spec fn lists(&self, directory: Seq<char>, entries: Seq<Seq<char>>) -> bool {
        true
    }
}

/// The text of each argument.
pub open spec fn arg_texts(arguments: Seq<&str>) -> Seq<Seq<char>> {
    arguments.map_values(|a: &str| a@)
}

/// What a run gave, as text.
pub open spec fn outcome(r: &Result<(String, String), String>) -> Result<(Seq<char>, Seq<char>), ()> {
    match r {
        Ok(o) => Ok((o.0@, o.1@)),
        Err(_) => Err(()),
    }
}

/// The arguments that make `clang` print its version banner.
pub open spec fn version_args() -> Seq<Seq<char>> {
    seq!["--version"@]
}

/// The arguments that make `clang` report its search paths for `language`.
pub open spec fn search_args(language: Seq<char>) -> Seq<Seq<char>> {
    seq!["-E"@, "-x"@, language, "-"@, "-v"@]
}

/// The two texts of a program's output.
pub open spec fn out_texts(o: &(String, String)) -> (Seq<char>, Seq<char>) {
    (o.0@, o.1@)
}

/// `c` describes the executable at `path` from the standard output of its
/// version run and the standard error of its C, C++ and Objective-C runs.
pub open spec fn describes(
    c: Clang,
    path: Seq<char>,
    version_out: (Seq<char>, Seq<char>),
    c_out: (Seq<char>, Seq<char>),
    cpp_out: (Seq<char>, Seq<char>),
    objc_out: (Seq<char>, Seq<char>),
) -> bool {
    &&& c.path@ == path
    &&& c.version == version_of(version_out.0)
    &&& search_paths_of(c_out.1) == Some(texts(c.c_search_paths@))
    &&& search_paths_of(cpp_out.1) == Some(texts(c.cpp_search_paths@))
    &&& search_paths_of(objc_out.1) == Some(texts(c.objc_search_paths@))
}

/// The first language, in the order C, C++, Objective-C (asked as C++), whose
/// diagnostics lack the list of search paths.
pub open spec fn missing_list(
    c_out: (Seq<char>, Seq<char>),
    cpp_out: (Seq<char>, Seq<char>),
    objc_out: (Seq<char>, Seq<char>),
) -> Option<Seq<char>> {
    if search_paths_of(c_out.1) is None {
        Some("c"@)
    } else if search_paths_of(cpp_out.1) is None {
        Some("c++"@)
    } else if search_paths_of(objc_out.1) is None {
        Some("c++"@)
    } else {
        None
    }
}

/// `c` describes the executable at `path` from runs of it that `runner` made:
/// its version run and its C, C++ and (again C++) Objective-C runs.
pub open spec fn described_by_runs<R: ProcessRunner>(runner: &R, path: Seq<char>, c: Clang) -> bool {
    exists|
        v: (Seq<char>, Seq<char>),
        co: (Seq<char>, Seq<char>),
        po: (Seq<char>, Seq<char>),
        qo: (Seq<char>, Seq<char>),
    |
        runner.ran(path, version_args(), Ok(v)) && runner.ran(path, search_args("c"@), Ok(co))
            && runner.ran(path, search_args("c++"@), Ok(po)) && runner.ran(
            path,
            search_args("c++"@),
            Ok(qo),
        ) && #[trigger] describes(c, path, v, co, po, qo)
}

/// What the search reads from the process environment and the platform.
#[derive(Clone, Debug)]
pub struct Environment {
    /// The executable that `CLANG_PATH` names, if it is set.
    pub clang_path: Option<String>,
    /// The `llvm-config` that `LLVM_CONFIG_PATH` names, if it is set.
    pub llvm_config_path: Option<String>,
    /// The directories of `PATH`, in order.
    pub search_path: Vec<String>,
    /// The platform's suffix of executable files (empty but on Windows).
    pub exe_suffix: String,
    /// The platform's path separator.
    pub separator: char,
    /// Whether the host runs macOS, where `xcodebuild` is asked too.
    pub is_macos: bool,
}

/// Why a `clang` executable that was found could not be described.
#[derive(Clone, Debug, PartialEq, Eq)]
pub enum ClangError {
    /// The executable could not be started.
    Launch { executable: String },
    /// The diagnostic output for the language lacked the list of search paths.
    MissingSearchList { language: String },
}

/// A `clang` executable.
#[derive(Clone, Debug)]
pub struct Clang {
    /// The path to this `clang` executable.
    pub path: String,
    /// The version of this `clang` executable if it could be parsed.
    pub version: Option<CXVersion>,
    /// The directories searched by this `clang` executable for C headers.
    pub c_search_paths: Vec<String>,
    /// The directories searched by this `clang` executable for C++ headers.
    pub cpp_search_paths: Vec<String>,
    /// The directories searched by this `clang` executable for Objective-C headers.
    pub objc_search_paths: Vec<String>,
}

/// The one-element list of `o`'s value, or the empty list.
pub open spec fn listed(o: Option<Seq<char>>) -> Seq<Seq<char>> {
    match o {
        Some(x) => seq![x],
        None => Seq::empty(),
    }
}

/// The trimmed text of a program's output, if there is output.
pub open spec fn trimmed(o: Option<String>) -> Option<Seq<char>> {
    match o {
        Some(x) => Some(trim(x@)),
        None => None,
    }
}

/// `s` with whitespace trimmed from both ends.
pub fn trim_text(s: &str) -> (r: String)
    ensures
        r@ == trim(s@),
{
    let v = chars_of(s);
    let (a, b) = trim_bounds(&v, 0, v.len());
    assert(v@.subrange(0, v@.len() as int) =~= v@);
    string_from_chars(&sub_vec(&v, a, b))
}

/// The directories to search, in order: the caller's hint, the directory that
/// `llvm-config --bindir` reported, the one that `xcodebuild -find clang`
/// reported (each output trimmed), then those of `PATH`.
pub fn candidate_directories(
    hint: Option<&str>,
    bindir: Option<String>,
    xcode: Option<String>,
    search_path: &Vec<String>,
) -> (r: Vec<String>)
    ensures
        texts(r@) == listed(
            match hint {
                Some(h) => Some(h@),
                None => None,
            },
        ) + listed(trimmed(bindir)) + listed(trimmed(xcode)) + texts(search_path@),
{
    let ghost h = match hint {
        Some(h) => Some(h@),
        None => None::<Seq<char>>,
    };
    let mut dirs: Vec<String> = Vec::new();
    match hint {
        Some(h) => dirs.push(h.to_owned()),
        None => {},
    }
    assert(texts(dirs@) =~= listed(h));
    match &bindir {
        Some(b) => dirs.push(trim_text(b.as_str())),
        None => {},
    }
    assert(texts(dirs@) =~= listed(h) + listed(trimmed(bindir)));
    match &xcode {
        Some(x) => dirs.push(trim_text(x.as_str())),
        None => {},
    }
    let ghost head = listed(h) + listed(trimmed(bindir)) + listed(trimmed(xcode));
    assert(texts(dirs@) =~= head);
    let mut i: usize = 0;
    while i < search_path.len()
        invariant
            i <= search_path.len(),
            texts(dirs@) == head + texts(search_path@).take(i as int),
        decreases search_path.len() - i,
    {
        let d = search_path[i].clone();
        assert(d@ == texts(search_path@)[i as int]);
        let ghost before = texts(dirs@);
        dirs.push(d);
        assert(texts(dirs@) =~= before.push(d@));
        i += 1;
        assert(texts(dirs@) =~= head + texts(search_path@).take(i as int));
    }
    assert(texts(search_path@).take(i as int) =~= texts(search_path@));
    dirs
}


/// The `llvm-config` that the search runs.
pub open spec fn llvm_config_of(env: &Environment) -> Seq<char> {
    match env.llvm_config_path {
        Some(p) => p@,
        None => "llvm-config"@,
    }
}

/// Runs a program, mapping a failure to start it to [`ClangError::Launch`].
fn run<R: ProcessRunner>(runner: &R, executable: &str, arguments: &[&str]) -> (r: Result<
    (String, String),
    ClangError,
>)
    ensures
        match r {
            Ok(o) => runner.ran(executable@, arg_texts(arguments@), Ok((o.0@, o.1@))),
            Err(e) => {
                &&& runner.ran(executable@, arg_texts(arguments@), Err(()))
                &&& e matches ClangError::Launch { executable: x } && x@ == executable@
            },
        },
{
    match runner.run(executable, arguments) {
        Ok(output) => Ok(output),
        Err(_) => Err(ClangError::Launch { executable: executable.to_owned() }),
    }
}

/// Runs `clang`, returning the `stdout` and `stderr` output.
pub fn run_clang<R: ProcessRunner>(runner: &R, path: &str, arguments: &[&str]) -> (r: Result<
    (String, String),
    ClangError,
>)
    ensures
        match r {
            Ok(o) => runner.ran(path@, arg_texts(arguments@), Ok((o.0@, o.1@))),
            Err(e) => {
                &&& runner.ran(path@, arg_texts(arguments@), Err(()))
                &&& e matches ClangError::Launch { executable: x } && x@ == path@
            },
        },
{
    run(runner, path, arguments)
}

/// Runs `llvm-config` (the one that the environment names, else the one on
/// `PATH`), returning the `stdout` output if it could be started.
pub fn run_llvm_config<R: ProcessRunner>(
    runner: &R,
    env: &Environment,
    arguments: &[&str],
) -> (r: Result<String, ClangError>)
    ensures
        r matches Ok(out) ==> exists|o: (Seq<char>, Seq<char>)|
            #[trigger] runner.ran(llvm_config_of(env), arg_texts(arguments@), Ok(o)) && o.0
                == out@,
        r matches Err(e) ==> runner.ran(llvm_config_of(env), arg_texts(arguments@), Err(())),
        r matches Err(e) ==> e matches ClangError::Launch { executable: x } && x@
            == llvm_config_of(env),
{
    let executable: &str = match &env.llvm_config_path {
        Some(p) => p.as_str(),
        None => "llvm-config",
    };
    assert(executable@ == llvm_config_of(env));
    match run(runner, executable, arguments) {
        Ok((stdout, stderr)) => {
            let ghost o = (stdout@, stderr@);
            assert(runner.ran(llvm_config_of(env), arg_texts(arguments@), Ok(o)));
            Ok(stdout)
        },
        Err(e) => Err(e),
    }
}

/// Parses the version from the standard output of `clang --version`; none
/// where the banner holds no version.
pub fn parse_version<R: ProcessRunner>(runner: &R, path: &str) -> (r: Result<
    Option<CXVersion>,
    ClangError,
>)
    ensures
        match r {
            Ok(v) => exists|o: (Seq<char>, Seq<char>)|
                #[trigger] runner.ran(path@, version_args(), Ok(o)) && v == version_of(o.0),
            Err(e) => {
                &&& runner.ran(path@, version_args(), Err(()))
                &&& e matches ClangError::Launch { executable: x } && x@ == path@
            },
        },
{
    let args: [&str; 1] = ["--version"];
    assert(arg_texts(args@) =~= version_args());
    match run_clang(runner, path, &args) {
        Ok((stdout, stderr)) => {
            assert(runner.ran(path@, version_args(), Ok((stdout@, stderr@))));
            Ok(parse_version_output(stdout.as_str()))
        },
        Err(e) => Err(e),
    }
}

/// Parses the search paths from the standard error of
/// `clang -E -x <language> - -v`.
pub fn parse_search_paths<R: ProcessRunner>(runner: &R, path: &str, language: &str) -> (r: Result<
    Vec<String>,
    ClangError,
>)
    ensures
        match r {
            Ok(paths) => exists|o: (Seq<char>, Seq<char>)|
                #[trigger] runner.ran(path@, search_args(language@), Ok(o)) && search_paths_of(o.1)
                    == Some(texts(paths@)),
            Err(ClangError::Launch { executable: x }) => x@ == path@ && runner.ran(
                path@,
                search_args(language@),
                Err(()),
            ),
            Err(ClangError::MissingSearchList { language: l }) => l@ == language@ && exists|
                o: (Seq<char>, Seq<char>),
            |
                #[trigger] runner.ran(path@, search_args(language@), Ok(o)) && search_paths_of(
                    o.1,
                ) is None,
        },
{
    let args: [&str; 5] = ["-E", "-x", language, "-", "-v"];
    assert(arg_texts(args@) =~= search_args(language@));
    match run_clang(runner, path, &args) {
        Ok((stdout, stderr)) => {
            assert(runner.ran(path@, search_args(language@), Ok((stdout@, stderr@))));
            match parse_search_paths_output(stderr.as_str()) {
                Some(paths) => Ok(paths),
                None => Err(ClangError::MissingSearchList { language: language.to_owned() }),
            }
        },
        Err(e) => Err(e),
    }
}

impl Clang {
    /// Builds the description of the executable at `path` from what its runs
    /// printed: the version from the standard output of the version run, and
    /// each list from the standard error of the C, C++ and Objective-C (asked
    /// as C++) runs. Fails, naming the first such language, where one of
    /// those lacks the list of search paths.
    pub fn describe(
        path: String,
        version_out: &(String, String),
        c_out: &(String, String),
        cpp_out: &(String, String),
        objc_out: &(String, String),
    ) -> (r: Result<Clang, ClangError>)
        ensures
            match r {
                Ok(c) => {
                    &&& missing_list(out_texts(c_out), out_texts(cpp_out), out_texts(objc_out))
                        is None
                    &&& describes(
                        c,
                        path@,
                        out_texts(version_out),
                        out_texts(c_out),
                        out_texts(cpp_out),
                        out_texts(objc_out),
                    )
                },
                Err(e) => e matches ClangError::MissingSearchList { language: l } && missing_list(
                    out_texts(c_out),
                    out_texts(cpp_out),
                    out_texts(objc_out),
                ) == Some(l@),
            },
    {
        let version = parse_version_output(version_out.0.as_str());
        let c_search_paths = match parse_search_paths_output(c_out.1.as_str()) {
            Some(p) => p,
            None => return Err(ClangError::MissingSearchList { language: "c".to_owned() }),
        };
        let cpp_search_paths = match parse_search_paths_output(cpp_out.1.as_str()) {
            Some(p) => p,
            None => return Err(ClangError::MissingSearchList { language: "c++".to_owned() }),
        };
        let objc_search_paths = match parse_search_paths_output(objc_out.1.as_str()) {
            Some(p) => p,
            None => return Err(ClangError::MissingSearchList { language: "c++".to_owned() }),
        };
        Ok(Clang { path, version, c_search_paths, cpp_search_paths, objc_search_paths })
    }

    /// Describes the `clang` executable at `path`: runs it for its version,
    /// and for the search paths of C, of C++ and (with a second C++ query) of
    /// Objective-C, then builds the description with [`Clang::describe`].
    pub fn new<R: ProcessRunner>(runner: &R, path: String) -> (r: Result<Clang, ClangError>)
        ensures
            match r {
                Ok(c) => described_by_runs(runner, path@, c),
                Err(e) => failure_explained(runner, path@, e),
            },
    {
        let ghost p = path@;
        let version_args_exec: [&str; 1] = ["--version"];
        let c_args: [&str; 5] = ["-E", "-x", "c", "-", "-v"];
        let cpp_args: [&str; 5] = ["-E", "-x", "c++", "-", "-v"];
        proof {
            reveal_strlit("c");
            reveal_strlit("c++");
        }
        assert(arg_texts(version_args_exec@) =~= version_args());
        assert(arg_texts(c_args@) =~= search_args("c"@));
        assert(arg_texts(cpp_args@) =~= search_args("c++"@));
        let version_out = match run_clang(runner, path.as_str(), &version_args_exec) {
            Ok(o) => o,
            Err(e) => return Err(e),
        };
        let c_out = match run_clang(runner, path.as_str(), &c_args) {
            Ok(o) => o,
            Err(e) => return Err(e),
        };
        let cpp_out = match run_clang(runner, path.as_str(), &cpp_args) {
            Ok(o) => o,
            Err(e) => return Err(e),
        };
        let objc_out = match run_clang(runner, path.as_str(), &cpp_args) {
            Ok(o) => o,
            Err(e) => return Err(e),
        };
        let r = Clang::describe(path, &version_out, &c_out, &cpp_out, &objc_out);
        proof {
            match &r {
                Ok(c) => {
                    assert(describes(
                        *c,
                        p,
                        out_texts(&version_out),
                        out_texts(&c_out),
                        out_texts(&cpp_out),
                        out_texts(&objc_out),
                    ));
                },
                Err(_) => {
                    assert(missing_list(out_texts(&c_out), out_texts(&cpp_out), out_texts(&objc_out))
                        is Some);
                },
            }
        }
        r
    }

    /// Returns a `clang` executable if one can be found.
    ///
    /// Where the environment names one (`CLANG_PATH`), that one is described
    /// and nothing is searched. Otherwise the directories are searched in the
    /// order of [`candidate_directories`]: the `path` hint, the output of
    /// `llvm-config --bindir`, on macOS that of `xcodebuild -find clang`, then
    /// those of `PATH`; the first whose listing holds a `clang` executable (see
    /// [`select_executable`]) gives the one described. `Ok(None)` where none does.
    pub fn find<H: ProcessRunner + DirectoryLister>(
        host: &H,
        env: &Environment,
        path: Option<&str>,
    ) -> (r: Result<Option<Clang>, ClangError>)
        ensures
            env.clang_path matches Some(p) ==> match r {
                Ok(Some(c)) => described_by_runs(host, p@, c),
                Ok(None) => false,
                Err(e) => failure_explained(host, p@, e),
            },
            env.clang_path is None ==> match r {
                Ok(Some(c)) => {
                    &&& described_by_runs(host, c.path@, c)
                    &&& exists|dirs: Seq<Seq<char>>, ls: Seq<Seq<Seq<char>>>|
                        #[trigger] searched(host, dirs, ls) && search_order(host, env, hint_of(path), dirs)
                        && first_match(
                            dirs,
                            ls,
                            env.exe_suffix@,
                            env.separator,
                            0,
                        ) == Some(c.path@)
                },
                Ok(None) => exists|dirs: Seq<Seq<char>>, ls: Seq<Seq<Seq<char>>>|
                    #[trigger] searched(host, dirs, ls) && search_order(host, env, hint_of(path), dirs)
                        && first_match(
                        dirs,
                        ls,
                        env.exe_suffix@,
                        env.separator,
                        0,
                    ) is None,
                Err(e) => exists|dirs: Seq<Seq<char>>, ls: Seq<Seq<Seq<char>>>|
                    #[trigger] searched(host, dirs, ls) && search_order(host, env, hint_of(path), dirs)
                        && first_match(
                        dirs,
                        ls,
                        env.exe_suffix@,
                        env.separator,
                        0,
                    ) is Some && failure_explained(
                        host,
                        first_match(dirs, ls, env.exe_suffix@, env.separator, 0)->0,
                        e,
                    ),
            },
    {
        match &env.clang_path {
            Some(p) => {
                return match Clang::new(host, p.clone()) {
                    Ok(c) => Ok(Some(c)),
                    Err(e) => Err(e),
                };
            },
            None => {},
        }
        let bindir_args: [&str; 1] = ["--bindir"];
        let xcode_args: [&str; 2] = ["-find", "clang"];
        assert(arg_texts(bindir_args@) =~= bindir_args_spec());
        assert(arg_texts(xcode_args@) =~= xcode_args_spec());
        let ghost mut b: Result<(Seq<char>, Seq<char>), ()> = Err(());
        let bindir = match run_llvm_config(host, env, &bindir_args) {
            Ok(out) => {
                proof {
                    let o = choose|o: (Seq<char>, Seq<char>)|
                        #[trigger] host.ran(llvm_config_of(env), bindir_args_spec(), Ok(o)) && o.0
                            == out@;
                    b = Ok(o);
                }
                Some(out)
            },
            Err(_) => None,
        };
        let ghost mut x: Result<(Seq<char>, Seq<char>), ()> = Err(());
        let xcode = if env.is_macos {
            match run(host, "xcodebuild", &xcode_args) {
                Ok((out, err)) => {
                    proof {
                        x = Ok((out@, err@));
                    }
                    Some(out)
                },
                Err(_) => None,
            }
        } else {
            None
        };
        assert(trimmed(bindir) == ok_trimmed(b));
        assert(trimmed(xcode) == ok_trimmed(x));
        let dirs = candidate_directories(path, bindir, xcode, &env.search_path);
        let mut listings: Vec<Vec<String>> = Vec::new();
        let mut i: usize = 0;
        while i < dirs.len()
            invariant
                i <= dirs.len(),
                listings.len() == i,
                forall|j: int|
                    0 <= j < i ==> host.lists(
                        #[trigger] texts(dirs@)[j],
                        listing_texts(listings@)[j],
                    ),
            decreases dirs.len() - i,
        {
            let entries = host.list_directory(dirs[i].as_str());
            assert(texts(dirs@)[i as int] == dirs@[i as int]@);
            let ghost before = listings@;
            listings.push(entries);
            assert(forall|j: int| 0 <= j < i ==> listings@[j] == before[j]);
            assert(listing_texts(listings@)[i as int] == texts(entries@));
            i += 1;
        }
        let ghost ds = texts(dirs@);
        let ghost ls = listing_texts(listings@);
        assert(searched(host, ds, ls));
        assert(ds == candidates_of(
            hint_of(path),
            b,
            x,
            env,
        ));
        assert(search_order(
            host,
            env,
            hint_of(path),
            ds,
        ));
        match select_executable(&dirs, &listings, env.exe_suffix.as_str(), env.separator) {
            Some(p) => match Clang::new(host, p) {
                Ok(c) => Ok(Some(c)),
                Err(e) => Err(e),
            },
            None => Ok(None),
        }
    }
}

/// Why describing the executable at `path` failed: one of its runs could not
/// be started, or the diagnostics of its C, C++ and Objective-C runs lack a
/// list of search paths, first for the language named.
pub open spec fn failure_explained<R: ProcessRunner>(runner: &R, path: Seq<char>, e: ClangError) -> bool {
    match e {
        ClangError::Launch { executable: x } => x@ == path && (runner.ran(
            path,
            version_args(),
            Err(()),
        ) || runner.ran(path, search_args("c"@), Err(())) || runner.ran(
            path,
            search_args("c++"@),
            Err(()),
        )),
        ClangError::MissingSearchList { language: l } => exists|
            co: (Seq<char>, Seq<char>),
            po: (Seq<char>, Seq<char>),
            qo: (Seq<char>, Seq<char>),
        |
            runner.ran(path, search_args("c"@), Ok(co)) && runner.ran(
                path,
                search_args("c++"@),
                Ok(po),
            ) && runner.ran(path, search_args("c++"@), Ok(qo)) && #[trigger] missing_list(
                co,
                po,
                qo,
            ) == Some(l@),
    }
}

/// The text of the caller's hint, if there is one.
pub open spec fn hint_of(path: Option<&str>) -> Option<Seq<char>> {
    match path {
        Some(h) => Some(h@),
        None => None,
    }
}

/// The arguments that make `llvm-config` report its binary directory.
pub open spec fn bindir_args_spec() -> Seq<Seq<char>> {
    seq!["--bindir"@]
}

/// The arguments that make `xcodebuild` report where `clang` is.
pub open spec fn xcode_args_spec() -> Seq<Seq<char>> {
    seq!["-find"@, "clang"@]
}

/// The trimmed standard output of a run that could be started.
pub open spec fn ok_trimmed(o: Result<(Seq<char>, Seq<char>), ()>) -> Option<Seq<char>> {
    match o {
        Ok(out) => Some(trim(out.0)),
        Err(_) => None,
    }
}

/// The directories searched, given the hint and what the `llvm-config` and
/// `xcodebuild` runs gave.
pub open spec fn candidates_of(
    hint: Option<Seq<char>>,
    bindir: Result<(Seq<char>, Seq<char>), ()>,
    xcode: Result<(Seq<char>, Seq<char>), ()>,
    env: &Environment,
) -> Seq<Seq<char>> {
    listed(hint) + listed(ok_trimmed(bindir)) + listed(ok_trimmed(xcode)) + texts(env.search_path@)
}

/// `dirs` are the directories that a search with `hint` goes through, from
/// the runs of `llvm-config` and (on macOS only) `xcodebuild` that `runner` made.
pub open spec fn search_order<R: ProcessRunner>(
    runner: &R,
    env: &Environment,
    hint: Option<Seq<char>>,
    dirs: Seq<Seq<char>>,
) -> bool {
    exists|b: Result<(Seq<char>, Seq<char>), ()>, x: Result<(Seq<char>, Seq<char>), ()>|
        runner.ran(llvm_config_of(env), bindir_args_spec(), b) && (if env.is_macos {
            runner.ran("xcodebuild"@, xcode_args_spec(), x)
        } else {
            x is Err
        }) && dirs == #[trigger] candidates_of(hint, b, x, env)
}

/// `host` listed each of `dirs` and gave the listing at the same index of `ls`.
pub open spec fn searched<H: DirectoryLister>(
    host: &H,
    dirs: Seq<Seq<char>>,
    ls: Seq<Seq<Seq<char>>>,
) -> bool {
    &&& dirs.len() == ls.len()
    &&& forall|i: int| 0 <= i < dirs.len() ==> host.lists(#[trigger] dirs[i], ls[i])
}

/// `runner` prints the same for the same run every time.
pub open spec fn runs_repeatably<R: ProcessRunner>(runner: &R) -> bool {
    forall|x: Seq<char>, a: Seq<Seq<char>>, o1: Result<(Seq<char>, Seq<char>), ()>, o2: Result<(Seq<char>, Seq<char>), ()>|
        #[trigger] runner.ran(x, a, o1) && #[trigger] runner.ran(x, a, o2) ==> o1 == o2
}

/// `host` lists the same entries for the same directory every time.
pub open spec fn lists_repeatably<H: DirectoryLister>(host: &H) -> bool {
    forall|d: Seq<char>, e1: Seq<Seq<char>>, e2: Seq<Seq<char>>|
        #[trigger] host.lists(d, e1) && #[trigger] host.lists(d, e2) ==> e1 == e2
}

/// Two descriptions of one executable, made from runs of a host that prints
/// the same for the same run, agree on the version and every search path.
pub proof fn lemma_described_alike<R: ProcessRunner>(runner: &R, path: Seq<char>, c1: Clang, c2: Clang)
    requires
        runs_repeatably(runner),
        described_by_runs(runner, path, c1),
        described_by_runs(runner, path, c2),
    ensures
        c1.path@ == c2.path@,
        c1.version == c2.version,
        texts(c1.c_search_paths@) == texts(c2.c_search_paths@),
        texts(c1.cpp_search_paths@) == texts(c2.cpp_search_paths@),
        texts(c1.objc_search_paths@) == texts(c2.objc_search_paths@),
{
    let (v1, co1, po1, qo1) = choose|
        v: (Seq<char>, Seq<char>),
        co: (Seq<char>, Seq<char>),
        po: (Seq<char>, Seq<char>),
        qo: (Seq<char>, Seq<char>),
    |
        runner.ran(path, version_args(), Ok(v)) && runner.ran(path, search_args("c"@), Ok(co))
            && runner.ran(path, search_args("c++"@), Ok(po)) && runner.ran(
            path,
            search_args("c++"@),
            Ok(qo),
        ) && #[trigger] describes(c1, path, v, co, po, qo);
    let (v2, co2, po2, qo2) = choose|
        v: (Seq<char>, Seq<char>),
        co: (Seq<char>, Seq<char>),
        po: (Seq<char>, Seq<char>),
        qo: (Seq<char>, Seq<char>),
    |
        runner.ran(path, version_args(), Ok(v)) && runner.ran(path, search_args("c"@), Ok(co))
            && runner.ran(path, search_args("c++"@), Ok(po)) && runner.ran(
            path,
            search_args("c++"@),
            Ok(qo),
        ) && #[trigger] describes(c2, path, v, co, po, qo);
    assert(Ok::<(Seq<char>, Seq<char>), ()>(v1) == Ok::<(Seq<char>, Seq<char>), ()>(v2));
    assert(Ok::<(Seq<char>, Seq<char>), ()>(co1) == Ok::<(Seq<char>, Seq<char>), ()>(co2));
    assert(Ok::<(Seq<char>, Seq<char>), ()>(po1) == Ok::<(Seq<char>, Seq<char>), ()>(po2));
    assert(Ok::<(Seq<char>, Seq<char>), ()>(qo1) == Ok::<(Seq<char>, Seq<char>), ()>(qo2));
    assert(Ok::<(Seq<char>, Seq<char>), ()>(po1) == Ok::<(Seq<char>, Seq<char>), ()>(qo2));
}

/// Two searches with the same environment and hint, on a host that prints
/// the same output for the same run and lists the same entries for the same
/// directory every time, go through the same directories, settle on the same
/// executable and describe it alike: path, version and every search path.
pub proof fn lemma_search_repeatable<H: ProcessRunner + DirectoryLister>(
    host: &H,
    env: &Environment,
    hint: Option<Seq<char>>,
    dirs1: Seq<Seq<char>>,
    ls1: Seq<Seq<Seq<char>>>,
    dirs2: Seq<Seq<char>>,
    ls2: Seq<Seq<Seq<char>>>,
    c1: Clang,
    c2: Clang,
)
    requires
        runs_repeatably(host),
        lists_repeatably(host),
        search_order(host, env, hint, dirs1),
        search_order(host, env, hint, dirs2),
        searched(host, dirs1, ls1),
        searched(host, dirs2, ls2),
        first_match(dirs1, ls1, env.exe_suffix@, env.separator, 0) == Some(c1.path@),
        first_match(dirs2, ls2, env.exe_suffix@, env.separator, 0) == Some(c2.path@),
        described_by_runs(host, c1.path@, c1),
        described_by_runs(host, c2.path@, c2),
    ensures
        dirs1 == dirs2,
        c1.path@ == c2.path@,
        c1.version == c2.version,
        texts(c1.c_search_paths@) == texts(c2.c_search_paths@),
        texts(c1.cpp_search_paths@) == texts(c2.cpp_search_paths@),
        texts(c1.objc_search_paths@) == texts(c2.objc_search_paths@),
{
    let (b1, x1) = choose|b: Result<(Seq<char>, Seq<char>), ()>, x: Result<(Seq<char>, Seq<char>), ()>|
        host.ran(llvm_config_of(env), bindir_args_spec(), b) && (if env.is_macos {
            host.ran("xcodebuild"@, xcode_args_spec(), x)
        } else {
            x is Err
        }) && dirs1 == #[trigger] candidates_of(hint, b, x, env);
    let (b2, x2) = choose|b: Result<(Seq<char>, Seq<char>), ()>, x: Result<(Seq<char>, Seq<char>), ()>|
        host.ran(llvm_config_of(env), bindir_args_spec(), b) && (if env.is_macos {
            host.ran("xcodebuild"@, xcode_args_spec(), x)
        } else {
            x is Err
        }) && dirs2 == #[trigger] candidates_of(hint, b, x, env);
    assert(b1 == b2);
    if env.is_macos {
        assert(x1 == x2);
    } else {
        assert(ok_trimmed(x1) == ok_trimmed(x2));
    }
    assert(dirs1 == dirs2);
    assert forall|i: int| 0 <= i < dirs1.len() implies ls1[i] == ls2[i] by {
        assert(host.lists(dirs1[i], ls1[i]));
        assert(host.lists(dirs1[i], ls2[i]));
    }
    assert(ls1 =~= ls2);
    lemma_described_alike(host, c1.path@, c1, c2);
}

} // verus!
