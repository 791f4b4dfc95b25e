use twin4rust::target_root_collector::{same_path, Target, TargetRootCollector};

fn bench_target(src_path: &str) -> Target {
    Target {
        kind: vec![String::from("bench")],
        src_path: String::from(src_path),
    }
}

fn bin_target(src_path: &str) -> Target {
    Target {
        kind: vec![String::from("bin")],
        src_path: String::from(src_path),
    }
}

fn custom_build_target(src_path: &str) -> Target {
    Target {
        kind: vec![String::from("custom-build")],
        src_path: String::from(src_path),
    }
}

fn example_target(src_path: &str) -> Target {
    Target {
        kind: vec![String::from("example")],
        src_path: String::from(src_path),
    }
}

fn lib_target(src_path: &str) -> Target {
    Target {
        kind: vec![String::from("lib")],
        src_path: String::from(src_path),
    }
}

fn test_target(src_path: &str) -> Target {
    Target {
        kind: vec![String::from("test")],
        src_path: String::from(src_path),
    }
}

#[test]
fn collect_from_targets_bench_is_skipped() {
    // Arrange
    let target = bench_target("/project/benches/bench.rs");

    // Act
    let mut collector = TargetRootCollector::new();
    collector.collect_from_targets(&[target]);

    // Assert
    let roots = collector.into_roots();
    assert!(roots.is_empty());
}

#[test]
fn collect_from_targets_bin_adds_parent() {
    // Arrange
    let target = bin_target("/project/src/main.rs");

    // Act
    let mut collector = TargetRootCollector::new();
    collector.collect_from_targets(&[target]);

    // Assert
    let roots = collector.into_roots();
    assert_eq!(roots, vec![String::from("/project/src")]);
}

#[test]
fn collect_from_targets_custom_build_is_skipped() {
    // Arrange
    let target = custom_build_target("/project/build.rs");

    // Act
    let mut collector = TargetRootCollector::new();
    collector.collect_from_targets(&[target]);

    // Assert
    let roots = collector.into_roots();
    assert!(roots.is_empty());
}

#[test]
fn collect_from_targets_distinct_roots() {
    // Arrange
    let primary = lib_target("/project/src/lib.rs");
    let secondary = lib_target("/project/other/mod.rs");

    // Act
    let mut collector = TargetRootCollector::new();
    collector.collect_from_targets(&[primary, secondary]);

    // Assert
    let mut roots = collector.into_roots();
    roots.sort();
    assert_eq!(
        roots,
        vec![
            String::from("/project/other"),
            String::from("/project/src"),
        ]
    );
}

#[test]
fn collect_from_targets_example_is_skipped() {
    // Arrange
    let target = example_target("/project/examples/demo.rs");

    // Act
    let mut collector = TargetRootCollector::new();
    collector.collect_from_targets(&[target]);

    // Assert
    let roots = collector.into_roots();
    assert!(roots.is_empty());
}

#[test]
fn collect_from_targets_lib_adds_parent() {
    // Arrange
    let target = lib_target("/project/src/lib.rs");

    // Act
    let mut collector = TargetRootCollector::new();
    collector.collect_from_targets(&[target]);

    // Assert
    let roots = collector.into_roots();
    assert_eq!(roots, vec![String::from("/project/src")]);
}

#[test]
fn collect_from_targets_multiple_deduplicates() {
    // Arrange
    let lib = lib_target("/project/src/lib.rs");
    let bin = bin_target("/project/src/main.rs");
    let helper = lib_target("/project/src/helper.rs");

    // Act
    let mut collector = TargetRootCollector::new();
    collector.collect_from_targets(&[lib, bin, helper]);

    // Assert
    let roots = collector.into_roots();
    assert_eq!(roots, vec![String::from("/project/src")]);
}

#[test]
fn collect_from_targets_test_is_skipped() {
    // Arrange
    let target = test_target("/project/tests/integration.rs");

    // Act
    let mut collector = TargetRootCollector::new();
    collector.collect_from_targets(&[target]);

    // Assert
    let roots = collector.into_roots();
    assert!(roots.is_empty());
}

#[test]
fn ensure_fallback_empty_adds_src() {
    // Arrange
    let manifest_dir = String::from("/project");

    // Act
    let mut collector = TargetRootCollector::new();
    collector.ensure_fallback(&manifest_dir);

    // Assert
    let roots = collector.into_roots();
    assert_eq!(roots, vec![String::from("/project/src")]);
}

#[test]
fn ensure_fallback_non_empty_does_not_add() {
    // Arrange
    let target = lib_target("/project/src/lib.rs");
    let manifest_dir = String::from("/project");
    let mut collector = TargetRootCollector::new();
    collector.collect_from_targets(&[target]);

    // Act
    collector.ensure_fallback(&manifest_dir);

    // Assert
    let roots = collector.into_roots();
    assert_eq!(roots, vec![String::from("/project/src")]);
}

// A root nested inside another is redundant: SourceWalker recurses, so every
// file under it is already reached through the outer root. Left in, each of
// those files is walked, read and parsed twice, and reported twice.
#[test]
fn into_roots_drops_a_root_nested_inside_another() {
    // Arrange
    let library = lib_target("/p/src/lib.rs");
    let nested_binary = bin_target("/p/src/bin/board_ctl.rs");

    // Act
    let mut collector = TargetRootCollector::new();
    collector.collect_from_targets(&[library, nested_binary]);

    // Assert
    assert_eq!(collector.into_roots(), vec![String::from("/p/src")]);
}

#[test]
fn into_roots_drops_a_root_nested_several_levels_deep() {
    // Arrange
    let library = lib_target("/p/src/lib.rs");
    let deep_binary = bin_target("/p/src/tools/cli/entry.rs");

    // Act
    let mut collector = TargetRootCollector::new();
    collector.collect_from_targets(&[library, deep_binary]);

    // Assert
    assert_eq!(collector.into_roots(), vec![String::from("/p/src")]);
}

#[test]
fn into_roots_keeps_a_root_that_only_shares_a_name_prefix() {
    // Arrange
    let library = lib_target("/p/src/lib.rs");
    let lookalike = bin_target("/p/src_generated/entry.rs");

    // Act
    let mut collector = TargetRootCollector::new();
    collector.collect_from_targets(&[library, lookalike]);

    // Assert
    assert_eq!(
        collector.into_roots(),
        vec![String::from("/p/src"), String::from("/p/src_generated")]
    );
}

#[test]
fn into_roots_keeps_sibling_roots_that_do_not_nest() {
    // Arrange
    let library = lib_target("/p/src/lib.rs");
    let outside_binary = bin_target("/p/tools/probe.rs");

    // Act
    let mut collector = TargetRootCollector::new();
    collector.collect_from_targets(&[library, outside_binary]);

    // Assert
    assert_eq!(
        collector.into_roots(),
        vec![String::from("/p/src"), String::from("/p/tools")]
    );
}

#[test]
fn into_roots_returns_sorted_roots() {
    // Arrange
    let primary = lib_target("/z/src/lib.rs");
    let secondary = lib_target("/a/src/lib.rs");

    // Act
    let mut collector = TargetRootCollector::new();
    collector.collect_from_targets(&[primary, secondary]);

    // Assert
    let roots = collector.into_roots();
    let mut sorted = roots.clone();
    sorted.sort();
    assert_eq!(roots, sorted);
}

#[test]
fn target_root_collector_tests_is_production_target_lib_returns_true() {
    // Arrange & Act
    let result = TargetRootCollector::is_production_target(&lib_target("/p/src/lib.rs"));

    // Assert
    assert!(result);
}

#[test]
fn target_root_collector_tests_is_production_target_test_returns_false() {
    // Arrange & Act
    let result = TargetRootCollector::is_production_target(&test_target("/p/tests/t.rs"));

    // Assert
    assert!(!result);
}

#[test]
fn new_is_empty() {
    // Arrange
    let collector = TargetRootCollector::new();

    // Act
    let roots = collector.into_roots();

    // Assert
    assert!(roots.is_empty());
}

#[test]
fn same_path_ignores_empty_and_current_directory_components() {
    assert!(same_path("/work/node/./src/", "/work/node/src"));
    assert!(!same_path("/work/node/src", "work/node/src"));
}

#[test]
fn same_path_reads_a_backslash_as_part_of_a_component() {
    assert!(!same_path("work\\node", "work/node"));
    assert!(same_path("work\\node", "work\\node"));
}
