//! Discovery of an installed `clang` executable: where it is, the version it
//! reports, and the header search paths it reports for each source language.

pub mod text;
pub mod version;
pub mod search_paths;
pub mod pattern;
pub mod clang;

pub use clang::{
    candidate_directories, parse_search_paths, parse_version, run_clang, run_llvm_config,
    trim_text, Clang, ClangError, DirectoryLister, Environment, ProcessRunner,
};
pub use pattern::{find, join, select_executable};
pub use search_paths::parse_search_paths_output;
pub use version::{parse_version_number, parse_version_output, CXVersion};
