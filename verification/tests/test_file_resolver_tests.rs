use twin4rust::test_file_resolver::TestFileResolver;

fn resolver() -> TestFileResolver {
    TestFileResolver::new()
}

fn manifest_dir() -> String {
    String::from("/home/user/project")
}

// `base` with `rest` appended below it, as `Path::join` writes it.
fn join(base: &str, rest: &str) -> String {
    format!("{}/{}", base, rest)
}

#[test]
fn lib_file_returns_none() {
    // Arrange
    let manifest = manifest_dir();
    let source = join(&manifest, "src/lib.rs");

    // Act
    let result = resolver().expected_test_file(&manifest, &source);

    // Assert
    assert!(result.is_none());
}

#[test]
fn main_file_returns_none() {
    // Arrange
    let manifest = manifest_dir();
    let source = join(&manifest, "src/main.rs");

    // Act
    let result = resolver().expected_test_file(&manifest, &source);

    // Assert
    assert!(result.is_none());
}

#[test]
fn mod_file_returns_none() {
    // Arrange
    let manifest = manifest_dir();
    let source = join(&manifest, "src/feature/mod.rs");

    // Act
    let result = resolver().expected_test_file(&manifest, &source);

    // Assert
    assert!(result.is_none());
}

#[test]
fn flat_source_file_maps_to_tests_root() {
    // Arrange
    let manifest = manifest_dir();
    let source = join(&manifest, "src/helper.rs");

    // Act
    let result = resolver().expected_test_file(&manifest, &source);

    // Assert
    assert_eq!(result, Some(join(&manifest, "tests/helper_tests.rs")));
}

#[test]
fn nested_source_file_preserves_directory() {
    // Arrange
    let manifest = manifest_dir();
    let source = join(&manifest, "src/implementations/raft/client.rs");

    // Act
    let result = resolver().expected_test_file(&manifest, &source);

    // Assert
    assert_eq!(
        result,
        Some(join(&manifest, "tests/implementations/raft/client_tests.rs"))
    );
}

#[test]
fn deeply_nested_source_preserves_full_path() {
    // Arrange
    let manifest = manifest_dir();
    let source = join(&manifest, "src/a/b/c/d/e.rs");

    // Act
    let result = resolver().expected_test_file(&manifest, &source);

    // Assert
    assert_eq!(result, Some(join(&manifest, "tests/a/b/c/d/e_tests.rs")));
}

#[test]
fn source_outside_src_returns_none() {
    // Arrange
    let manifest = manifest_dir();
    let source = join(&manifest, "build.rs");

    // Act
    let result = resolver().expected_test_file(&manifest, &source);

    // Assert
    assert!(result.is_none());
}

#[test]
fn source_in_other_directory_returns_none() {
    // Arrange
    let manifest = manifest_dir();
    let source = String::from("/tmp/other.rs");

    // Act
    let result = resolver().expected_test_file(&manifest, &source);

    // Assert
    assert!(result.is_none());
}

#[test]
fn source_file_with_double_extension_maps_to_tests() {
    // Arrange
    let manifest = manifest_dir();
    let source = join(&manifest, "src/data.rs.bak");

    // Act — file_stem() returns "data.rs"
    let result = resolver().expected_test_file(&manifest, &source);

    // Assert
    assert_eq!(result, Some(join(&manifest, "tests/data.rs_tests.rs")));
}

#[test]
fn source_below_a_relative_manifest_dir_maps_to_tests() {
    // Arrange
    let manifest = String::from("project");
    let source = join(&manifest, "src/state/raft_state.rs");

    // Act
    let result = resolver().expected_test_file(&manifest, &source);

    // Assert
    assert_eq!(result, Some(String::from("project/tests/state/raft_state_tests.rs")));
}

#[test]
fn source_written_with_backslashes_is_one_component_and_expects_no_test() {
    // Arrange
    let manifest = String::from("C:\\work\\node");
    let source = String::from("C:\\work\\node\\src\\raft_node.rs");

    // Act
    let result = resolver().expected_test_file(&manifest, &source);

    // Assert
    assert_eq!(result, None);
}

#[test]
fn source_named_lib_below_a_subdirectory_returns_none() {
    // Arrange
    let manifest = manifest_dir();
    let source = join(&manifest, "src/feature/lib.rs");

    // Act
    let result = resolver().expected_test_file(&manifest, &source);

    // Assert
    assert!(result.is_none());
}

#[test]
fn src_directory_itself_returns_none() {
    // Arrange
    let manifest = manifest_dir();
    let source = join(&manifest, "src");

    // Act
    let result = resolver().expected_test_file(&manifest, &source);

    // Assert
    assert!(result.is_none());
}

#[test]
fn source_below_a_current_directory_the_manifest_does_not_name_returns_none() {
    // Arrange & Act
    let result = resolver().expected_test_file("p", "./p/src/a.rs");

    // Assert
    assert!(result.is_none());
}
