use twin4rust::crap::crap_report_parser::CrapReportParser;
use twin4rust::gates::crap_gate::CrapGate;

fn report_with_coverage(coverage: &str) -> String {
    format!(
        "{{\n  \"total_functions\": 1,\n  \"crappy_functions\": 1,\n  \"crappy_percent\": 100.0,\n  \"functions\": [\n    {{\"name\":\"f\",\"relative_file\":\"src/a.rs\",\"line\":3,\"complexity\":9,\"coverage\":{},\"crap_score\":90.0,\"verdict\":\"Crappy\"}}\n  ]\n}}",
        coverage
    )
}

fn described(coverage: &str) -> String {
    let report = CrapReportParser::new()
        .parse(&report_with_coverage(coverage))
        .expect("parses");
    report.functions[0].describe()
}

#[test]
fn describe_writes_every_figure_of_the_function() {
    // Arrange & Act
    let line = described("0.5");

    // Assert
    assert_eq!(line, "src/a.rs:3 f complexity 9 coverage 50% crap 90.0 [Crappy]");
}

#[test]
fn describe_rounds_the_coverage_half_up() {
    // Arrange & Act & Assert
    assert!(described("0.666").contains("coverage 67%"));
    assert!(described("0.664").contains("coverage 66%"));
    assert!(described("0.125").contains("coverage 13%"));
}

#[test]
fn describe_with_full_coverage_reads_a_hundred_percent() {
    // Arrange & Act & Assert
    assert!(described("1.0").contains("coverage 100%"));
    assert!(described("1").contains("coverage 100%"));
}

#[test]
fn describe_with_an_exponent_keeps_the_fraction_as_written() {
    // Arrange & Act & Assert
    assert!(described("1e-7").contains("coverage 1e-7 crap"));
}

#[test]
fn summary_carries_the_share_the_report_gave() {
    // Arrange
    let report = CrapReportParser::new()
        .parse(&report_with_coverage("0.0"))
        .expect("parses");

    // Act
    let summary = report.summary();

    // Assert
    assert_eq!(summary, "1/1 functions crappy (100.0%)");
}

#[test]
fn parse_with_a_missing_member_returns_a_parse_error() {
    // Arrange
    let stdout = "{\n  \"total_functions\": 1,\n  \"crappy_percent\": 0.0,\n  \"functions\": []\n}";

    // Act
    let result = CrapReportParser::new().parse(stdout);

    // Assert
    assert!(result.is_err_and(|error| error.starts_with("could not parse crap4rust JSON: ")
        && error.contains("crappy_functions")));
}

#[test]
fn parse_with_a_fractional_count_returns_a_parse_error() {
    // Arrange
    let stdout = "{\n  \"total_functions\": 1.5,\n  \"crappy_functions\": 0,\n  \"crappy_percent\": 0.0,\n  \"functions\": []\n}";

    // Act
    let result = CrapReportParser::new().parse(stdout);

    // Assert
    assert!(result.is_err_and(|error| error.starts_with("could not parse crap4rust JSON: ")));
}

#[test]
fn parse_with_a_function_missing_its_verdict_returns_a_parse_error() {
    // Arrange
    let stdout = "{\n  \"total_functions\": 1,\n  \"crappy_functions\": 0,\n  \"crappy_percent\": 0.0,\n  \"functions\": [{\"name\":\"f\",\"relative_file\":\"src/a.rs\",\"line\":3,\"complexity\":1,\"coverage\":1.0,\"crap_score\":1.0}]\n}";

    // Act
    let result = CrapReportParser::new().parse(stdout);

    // Assert
    assert!(result.is_err_and(|error| error.contains("verdict")));
}

#[test]
fn parse_anchors_on_the_last_brace_at_column_zero() {
    // Arrange
    let stdout = "{\nnot a report\n{\n  \"total_functions\": 4,\n  \"crappy_functions\": 0,\n  \"crappy_percent\": 0.0,\n  \"functions\": []\n}";

    // Act
    let report = CrapReportParser::new().parse(stdout).expect("the last object parses");

    // Assert
    assert_eq!(report.total_functions, 4);
}

#[test]
fn parse_with_an_indented_brace_only_finds_no_report() {
    // Arrange
    let stdout = "  {\n  \"total_functions\": 4\n  }";

    // Act
    let result = CrapReportParser::new().parse(stdout);

    // Assert
    assert_eq!(
        result.err(),
        Some(String::from("could not find a JSON report in crap4rust's output"))
    );
}

#[test]
fn report_text_joins_the_lines_from_the_brace() {
    // Arrange
    let stdout = "noise\r\n{\r\n\"a\": 1\r\n}\r\n";

    // Act
    let text = CrapReportParser::report_text(stdout);

    // Assert
    assert_eq!(text, Some(String::from("{\n\"a\": 1\n}")));
}

#[test]
fn tail_of_a_short_output_keeps_every_line() {
    // Arrange
    let stdout = "one\ntwo\nthree\n";

    // Act
    let tail = CrapGate::tail(stdout);

    // Assert
    assert_eq!(tail, "one\ntwo\nthree");
}

#[test]
fn tail_of_a_long_output_keeps_the_last_thirty_lines() {
    // Arrange
    let stdout = (1..=31).map(|i| format!("l{}", i)).collect::<Vec<_>>().join("\n");

    // Act
    let tail = CrapGate::tail(&stdout);

    // Assert
    assert!(tail.starts_with("l2\nl3\n"));
    assert!(tail.ends_with("l31"));
    assert_eq!(tail.lines().count(), 30);
}
