//! Which source files of a Rust package lack the test file that mirrors them
//! (`src/<path>/<name>.rs` -> `tests/<path>/<name>_tests.rs`), and the
//! workspace checks that run this and other tools over a repository.

// Text, paths and the orders things are sorted by.
pub mod text;
pub mod failure;
pub mod path;
pub mod order;

// The mirror rule and the classification of a source file's items.
pub mod test_file_resolver;
pub mod syntax;
pub mod behaviourless_impl_detector;
pub mod trivial_constructor_detector;
pub mod humble_adapter_detector;
pub mod definition_analyzer;

// From the command line and cargo's metadata to the packages analysed.
pub mod args;
pub mod config;
pub mod target_root_collector;
pub mod package_context;
pub mod manifest_resolver;

// The analysis of a package and its report.
pub mod missing_test_gap;
pub mod analysis_report;
pub mod analyzer;
pub mod package_analysis;
pub mod gap_order;
pub mod console;
pub mod report_printer;
pub mod runner;

// The workspace checks and the tools they delegate to.
pub mod process;
pub mod crap;
pub mod gates;
