use twin4rust::args::Args;

fn strings(raw: &[&str]) -> Vec<String> {
    raw.iter().map(|s| s.to_string()).collect()
}

#[test]
fn without_cargo_subcommand_drops_the_name_cargo_inserts() {
    // Arrange
    let raw = strings(&["cargo-twin4rust", "twin4rust", "--package", "foo"]);

    // Act
    let forwarded = Args::without_cargo_subcommand(raw);

    // Assert
    assert_eq!(forwarded, vec!["cargo-twin4rust", "--package", "foo"]);
}

#[test]
fn without_cargo_subcommand_handles_being_given_nothing() {
    // Arrange
    let raw: Vec<String> = Vec::new();

    // Act
    let forwarded = Args::without_cargo_subcommand(raw);

    // Assert
    assert!(forwarded.is_empty());
}

#[test]
fn without_cargo_subcommand_keeps_a_package_that_happens_to_be_named_twin4rust() {
    // Arrange
    let raw = strings(&["cargo-twin4rust", "--package", "twin4rust"]);

    // Act
    let forwarded = Args::without_cargo_subcommand(raw);

    // Assert: the package name still follows its flag
    assert_eq!(forwarded, vec!["cargo-twin4rust", "--package", "twin4rust"]);
}

#[test]
fn without_cargo_subcommand_leaves_a_direct_invocation_untouched() {
    // Arrange
    let raw = strings(&["cargo-twin4rust", "--package", "foo"]);

    // Act
    let forwarded = Args::without_cargo_subcommand(raw);

    // Assert
    assert_eq!(forwarded, vec!["cargo-twin4rust", "--package", "foo"]);
}

#[test]
fn without_cargo_subcommand_with_only_the_binary_returns_it() {
    // Arrange
    let raw = strings(&["cargo-twin4rust"]);

    // Act
    let forwarded = Args::without_cargo_subcommand(raw);

    // Assert
    assert_eq!(forwarded, vec!["cargo-twin4rust"]);
}

#[test]
fn without_cargo_subcommand_drops_only_the_second_argument() {
    // Arrange
    let raw = strings(&["cargo-twin4rust", "twin4rust", "twin4rust"]);

    // Act
    let forwarded = Args::without_cargo_subcommand(raw);

    // Assert
    assert_eq!(forwarded, vec!["cargo-twin4rust", "twin4rust"]);
}
