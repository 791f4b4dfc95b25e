use twin4rust::analysis_report::AnalysisReport;
use twin4rust::missing_test_gap::MissingTestGap;
use twin4rust::report_printer::ReportPrinter;

fn gap(package: &str, source: &str, test: &str) -> MissingTestGap {
    MissingTestGap {
        package_name: String::from(package),
        relative_source_file: String::from(source),
        expected_test_file: String::from(test),
    }
}

#[test]
fn report_lines_with_no_gap_says_every_expectation_is_met() {
    // Arrange
    let reports = vec![AnalysisReport::new("pkg".to_string(), vec![])];

    // Act
    let lines = ReportPrinter::new().report_lines(&reports);

    // Assert
    assert_eq!(
        lines,
        vec![
            "twin4rust report",
            "",
            "All mirrored test-gap expectations are satisfied.",
        ]
    );
}

#[test]
fn report_lines_with_no_report_says_every_expectation_is_met() {
    // Arrange
    let reports: Vec<AnalysisReport> = Vec::new();

    // Act
    let lines = ReportPrinter::new().report_lines(&reports);

    // Assert
    assert_eq!(lines.len(), 3);
    assert_eq!(lines[2], "All mirrored test-gap expectations are satisfied.");
}

#[test]
fn report_lines_lists_every_gap_sorted_and_sums_up() {
    // Arrange
    let reports = vec![
        AnalysisReport::new(
            "node".to_string(),
            vec![
                gap("node", "src/state/raft_state.rs", "tests/state/raft_state_tests.rs"),
                gap("node", "src/raft_node.rs", "tests/raft_node_tests.rs"),
            ],
        ),
        AnalysisReport::new("clean".to_string(), vec![]),
    ];

    // Act
    let lines = ReportPrinter::new().report_lines(&reports);

    // Assert
    assert_eq!(
        lines,
        vec![
            "twin4rust report",
            "",
            "Files without a matching mirrored test file:",
            "- node: src/raft_node.rs -> tests/raft_node_tests.rs",
            "- node: src/state/raft_state.rs -> tests/state/raft_state_tests.rs",
            "",
            "summary: packages_with_gaps=1 missing_files=2",
        ]
    );
}

#[test]
fn report_lines_orders_by_package_before_source_file() {
    // Arrange
    let reports = vec![
        AnalysisReport::new("zeta".to_string(), vec![gap("zeta", "src/a.rs", "tests/a_tests.rs")]),
        AnalysisReport::new("alpha".to_string(), vec![gap("alpha", "src/z.rs", "tests/z_tests.rs")]),
    ];

    // Act
    let lines = ReportPrinter::new().report_lines(&reports);

    // Assert
    assert_eq!(lines[3], "- alpha: src/z.rs -> tests/z_tests.rs");
    assert_eq!(lines[4], "- zeta: src/a.rs -> tests/a_tests.rs");
    assert_eq!(lines[6], "summary: packages_with_gaps=2 missing_files=2");
}

#[test]
fn print_with_gaps_returns() {
    // Arrange
    let reports = vec![AnalysisReport::new(
        "pkg".to_string(),
        vec![gap("pkg", "src/a.rs", "tests/a_tests.rs")],
    )];

    // Act
    ReportPrinter::new().print(&reports);

    // Assert
    assert_eq!(reports[0].missing_count(), 1);
}

#[test]
fn report_lines_do_not_depend_on_the_order_gaps_came_in() {
    // Arrange
    let first = vec![AnalysisReport::new(
        "node".to_string(),
        vec![
            gap("node", "src/b.rs", "tests/b_tests.rs"),
            gap("node", "src/a.rs", "tests/a_tests.rs"),
        ],
    )];
    let second = vec![AnalysisReport::new(
        "node".to_string(),
        vec![
            gap("node", "src/a.rs", "tests/a_tests.rs"),
            gap("node", "src/b.rs", "tests/b_tests.rs"),
        ],
    )];

    // Act
    let from_first = ReportPrinter::new().report_lines(&first);
    let from_second = ReportPrinter::new().report_lines(&second);

    // Assert
    assert_eq!(from_first, from_second);
}
