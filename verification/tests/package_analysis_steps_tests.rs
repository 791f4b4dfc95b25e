use twin4rust::package_analysis::{PackageAnalysis, Request};
use twin4rust::syntax::source_items;
use twin4rust::package_context::PackageContext;

fn package(name: &str, roots: &[&str]) -> PackageContext {
    PackageContext {
        name: String::from(name),
        manifest_dir: String::from("/w/node"),
        source_roots: roots.iter().map(|r| r.to_string()).collect(),
    }
}

#[test]
fn request_of_a_package_without_roots_is_done_at_once() {
    // Arrange
    let analysis = PackageAnalysis::new(package("node", &[]));

    // Act
    let request = analysis.request();

    // Assert
    assert_eq!(request, Request::Done);
}

#[test]
fn request_walks_the_roots_in_order() {
    // Arrange
    let mut analysis = PackageAnalysis::new(package("node", &["/w/node/src", "/w/node/tools"]));

    // Act
    let first = analysis.request();
    analysis.answer_listing(Vec::new());
    let second = analysis.request();
    analysis.answer_listing(Vec::new());
    let third = analysis.request();

    // Assert
    assert_eq!(first, Request::ListRoot(String::from("/w/node/src")));
    assert_eq!(second, Request::ListRoot(String::from("/w/node/tools")));
    assert_eq!(third, Request::Done);
}

#[test]
fn a_file_with_behaviour_is_read_then_its_mirror_probed() {
    // Arrange
    let mut analysis = PackageAnalysis::new(package("node", &["/w/node/src"]));
    analysis.answer_listing(vec![String::from("/w/node/src/raft_node.rs")]);

    // Act
    let read = analysis.request();
    analysis.answer_source(Ok(String::from("pub fn step() {}")));
    let probe = analysis.request();
    analysis.answer_probe(false);
    let done = analysis.request();
    let report = analysis.finish().expect("report");

    // Assert
    assert_eq!(read, Request::ReadSource(String::from("/w/node/src/raft_node.rs")));
    assert_eq!(probe, Request::ProbeTest(String::from("/w/node/tests/raft_node_tests.rs")));
    assert_eq!(done, Request::Done);
    assert_eq!(report.missing.len(), 1);
    assert_eq!(report.missing[0].relative_source_file, "src/raft_node.rs");
    assert_eq!(report.missing[0].expected_test_file, "tests/raft_node_tests.rs");
}

#[test]
fn an_existing_mirror_records_no_gap() {
    // Arrange
    let mut analysis = PackageAnalysis::new(package("node", &["/w/node/src"]));
    analysis.answer_listing(vec![String::from("/w/node/src/raft_node.rs")]);
    analysis.answer_source(Ok(String::from("pub fn step() {}")));

    // Act
    analysis.answer_probe(true);
    let report = analysis.finish().expect("report");

    // Assert
    assert!(report.is_empty());
}

#[test]
fn a_source_that_cannot_be_read_ends_the_analysis_with_an_error() {
    // Arrange
    let mut analysis = PackageAnalysis::new(package("node", &["/w/node/src"]));
    analysis.answer_listing(vec![
        String::from("/w/node/src/a.rs"),
        String::from("/w/node/src/b.rs"),
    ]);

    // Act
    analysis.answer_source(Err(String::from("permission denied")));
    let request = analysis.request();
    let result = analysis.finish();

    // Assert
    assert_eq!(request, Request::Done);
    let failure = result.err().expect("an unreadable source is an error");
    assert_eq!(failure.message, "failed to read source file /w/node/src/a.rs");
    assert_eq!(failure.cause, Some(String::from("permission denied")));
}

#[test]
fn a_source_that_does_not_parse_ends_the_analysis_with_an_error() {
    // Arrange
    let mut analysis = PackageAnalysis::new(package("node", &["/w/node/src"]));
    analysis.answer_listing(vec![String::from("/w/node/src/a.rs")]);

    // Act
    analysis.answer_source(Ok(String::from("pub fn broken( {")));

    // Assert
    assert_eq!(analysis.request(), Request::Done);
    assert!(analysis.finish().is_err());
}

#[test]
fn the_src_files_of_a_validation_package_are_never_read() {
    // Arrange
    let mut analysis = PackageAnalysis::new(PackageContext {
        name: String::from("demo-validation"),
        manifest_dir: String::from("/w/demo"),
        source_roots: vec![String::from("/w/demo/src"), String::from("/w/demo/tools")],
    });
    analysis.answer_listing(vec![String::from("/w/demo/src/a.rs")]);

    // Act
    let next = analysis.request();

    // Assert
    assert_eq!(next, Request::ListRoot(String::from("/w/demo/tools")));
}

#[test]
fn gaps_are_reported_in_source_order_whatever_the_walk_order() {
    // Arrange
    let mut analysis = PackageAnalysis::new(package("node", &["/w/node/src"]));
    analysis.answer_listing(vec![
        String::from("/w/node/src/z.rs"),
        String::from("/w/node/src/a.rs"),
    ]);
    for _ in 0..2 {
        analysis.answer_source(Ok(String::from("pub fn f() {}")));
        analysis.answer_probe(false);
    }

    // Act
    let report = analysis.finish().expect("report");

    // Assert
    assert_eq!(report.missing[0].relative_source_file, "src/a.rs");
    assert_eq!(report.missing[1].relative_source_file, "src/z.rs");
}

#[test]
fn a_source_that_does_not_parse_reports_the_context_line_caused_by_the_parser() {
    // Arrange
    let mut analysis = PackageAnalysis::new(package("node", &["/w/node/src"]));
    analysis.answer_listing(vec![String::from("/w/node/src/a.rs")]);

    // Act
    analysis.answer_source(Ok(String::from("pub fn broken( {")));

    // Assert
    let failure = analysis.finish().err().expect("unparsable source is an error");
    assert_eq!(failure.message, "failed to parse Rust source");
    assert_eq!(failure.cause, source_items("pub fn broken( {").err());
    assert!(failure.cause.is_some());
}
