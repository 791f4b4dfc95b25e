//! The decisions taken for each source file of a package: whether it is read
//! at all, whether it is in scope, which test file it is expected to have,
//! and the gap reported when that file is missing. Walking the source roots,
//! reading the files and looking for the test files is left to the caller,
//! which hands each result back.
use vstd::prelude::*;
use crate::failure::Failure;
use crate::analysis_report::AnalysisReport;
use crate::definition_analyzer::{
    DefinitionAnalyzer, definition_only_file, import_only_file, parse_failure_view,
};
use crate::gap_order::{gaps_sorted, sort_gaps};
use crate::manifest_resolver::{ManifestResolver, relative_file_spec, validation_suffix};
use crate::missing_test_gap::MissingTestGap;
use crate::package_context::PackageContext;
use crate::syntax::rust_items;
use crate::test_file_resolver::{TestFileResolver, expected_test_spec};
use crate::path::{components, strip_prefix_spec, path_join, src_dir};
use crate::text::{chars_of, chars_are, starts_with_chars, ends_with_chars, has_char};

verus! {

/// `src/`, the prefix of a package's production sources.
pub open spec fn src_prefix() -> Seq<char> {
    seq!['s', 'r', 'c', '/']
}

/// `src/bin/`, where cargo looks for a package's extra binaries.
pub open spec fn bin_prefix() -> Seq<char> {
    seq!['s', 'r', 'c', '/', 'b', 'i', 'n', '/']
}

/// `/mod.rs`, the end of a module's directory file.
pub open spec fn mod_suffix() -> Seq<char> {
    seq!['/', 'm', 'o', 'd', '.', 'r', 's']
}

/// Whether the source at `relative_source` belongs to the `src/` tree of a
/// validation package, which is never asked for mirrored tests.
pub open spec fn ignored_package_source(package_name: Seq<char>, relative_source: Seq<char>) -> bool {
    validation_suffix().is_suffix_of(package_name) && src_prefix().is_prefix_of(relative_source)
}

/// Whether `relative_source` is an entry point: `src/lib.rs`, `src/main.rs`,
/// `build.rs`, or a file directly under `src/bin/`.
pub open spec fn is_entry_point_spec(relative_source: Seq<char>) -> bool {
    relative_source == seq!['s', 'r', 'c', '/', 'l', 'i', 'b', '.', 'r', 's'] || relative_source
        == seq!['s', 'r', 'c', '/', 'm', 'a', 'i', 'n', '.', 'r', 's'] || relative_source == seq![
        'b',
        'u',
        'i',
        'l',
        'd',
        '.',
        'r',
        's',
    ] || (bin_prefix().is_prefix_of(relative_source) && !relative_source.skip(
        bin_prefix().len() as int,
    ).contains('/'))
}

/// Whether a source file is left out by its place alone or, for a `mod.rs`,
/// because it only imports; `None` when the `mod.rs` does not parse.
pub open spec fn ignored_source_file(relative_source: Seq<char>, source: Seq<char>) -> Option<bool> {
    if is_entry_point_spec(relative_source) {
        Some(true)
    } else if mod_suffix().is_suffix_of(relative_source) {
        match rust_items(source) {
            Ok(items) => Some(import_only_file(items)),
            Err(_) => None,
        }
    } else {
        Some(false)
    }
}

/// What the analysis of the file at `source_path`, whose text is `source`,
/// asks for: `Some(Some(t))` when the test file `t` is expected of it,
/// `Some(None)` when none is, `None` when the source does not parse where it
/// had to be read as Rust.
pub open spec fn source_expectation(
    package_name: Seq<char>,
    manifest_dir: Seq<char>,
    source_path: Seq<char>,
    source: Seq<char>,
) -> Option<Option<Seq<char>>> {
    let rel = relative_file_spec(manifest_dir, source_path);
    if ignored_package_source(package_name, rel) {
        Some(None)
    } else {
        match ignored_source_file(rel, source) {
            None => None,
            Some(true) => Some(None),
            Some(false) => match rust_items(source) {
                Err(_) => None,
                Ok(items) => if definition_only_file(items) {
                    Some(None)
                } else {
                    Some(expected_test_spec(manifest_dir, source_path))
                },
            },
        }
    }
}

/// Entry points are never asked for a test, whatever they hold: their text
/// is not even read as Rust.
pub proof fn entry_points_are_skipped(
    package_name: Seq<char>,
    manifest_dir: Seq<char>,
    source_path: Seq<char>,
    source: Seq<char>,
)
    requires
        is_entry_point_spec(relative_file_spec(manifest_dir, source_path)),
    ensures
        source_expectation(package_name, manifest_dir, source_path, source) == Some(
            None::<Seq<char>>,
        ),
{
}

/// A module inside a binary's own directory under `src/bin/` is no entry
/// point, and stays in scope.
pub proof fn bin_modules_are_not_entry_points(rest: Seq<char>)
    requires
        rest.contains('/'),
    ensures
        !is_entry_point_spec(bin_prefix() + rest),
{
    let rel = bin_prefix() + rest;
    assert(rel[4] == 'b');
    assert(rel[0] == 's');
    assert(rel.skip(bin_prefix().len() as int) =~= rest);
    assert(bin_prefix().is_prefix_of(rel)) by {
        assert(rel.subrange(0, bin_prefix().len() as int) =~= bin_prefix());
    }
}

/// The `src/` tree of a validation package is never asked for a test,
/// whatever it holds.
pub proof fn validation_sources_are_skipped(
    package_name: Seq<char>,
    manifest_dir: Seq<char>,
    source_path: Seq<char>,
    source: Seq<char>,
)
    requires
        validation_suffix().is_suffix_of(package_name),
        src_prefix().is_prefix_of(relative_file_spec(manifest_dir, source_path)),
    ensures
        source_expectation(package_name, manifest_dir, source_path, source) == Some(
            None::<Seq<char>>,
        ),
{
}

/// A `mod.rs` is never asked for a test, whether it carries behaviour or
/// not.
pub proof fn mod_files_are_never_asked_for_a_test(
    package_name: Seq<char>,
    manifest_dir: Seq<char>,
    source_path: Seq<char>,
    source: Seq<char>,
)
    requires
        components(source_path).len() > 0,
        components(source_path).last() == seq!['m', 'o', 'd', '.', 'r', 's'],
    ensures
        !(source_expectation(package_name, manifest_dir, source_path, source) matches Some(
            Some(_),
        )),
{
    let p = components(source_path);
    match strip_prefix_spec(source_path, path_join(manifest_dir, src_dir())) {
        Some(rel) => {
            let b = components(path_join(manifest_dir, src_dir()));
            assert(rel == p.skip(b.len() as int));
            if rel.len() > 0 {
                assert(rel.last() == p.last());
            }
        },
        None => {},
    }
    assert(expected_test_spec(manifest_dir, source_path) is None);
}

/// Whenever a file is asked for a test, the test asked for is its mirror.
pub proof fn expectations_follow_the_mirror_rule(
    package_name: Seq<char>,
    manifest_dir: Seq<char>,
    source_path: Seq<char>,
    source: Seq<char>,
    test: Seq<char>,
)
    requires
        source_expectation(package_name, manifest_dir, source_path, source) == Some(Some(test)),
    ensures
        expected_test_spec(manifest_dir, source_path) == Some(test),
{
}

#[derive(Default)]
pub struct Analyzer {
    definition_analyzer: DefinitionAnalyzer,
    test_file_resolver: TestFileResolver,
}

impl Analyzer {
    pub fn new() -> Self {
        Analyzer {
            definition_analyzer: DefinitionAnalyzer::new(),
            test_file_resolver: TestFileResolver::new(),
        }
    }

    /// Whether the file at `source_path` has to be read at all: it is not,
    /// when it lies in the `src/` tree of a validation package.
    pub fn reads_source(&self, package: &PackageContext, source_path: &str) -> (r: bool)
        ensures
            r == !ignored_package_source(
                package.name@,
                relative_file_spec(package.manifest_dir@, source_path@),
            ),
    {
        let relative_source = ManifestResolver::relative_file(
            package.manifest_dir.as_str(),
            source_path,
        );
        !self.should_ignore_package_source(package, relative_source.as_str())
    }

    /// The test file expected of the file at `source_path`, whose text is
    /// `source`: `None` when the file is left out of scope, or when the
    /// mirror rule expects nothing of it; an error when the source does not
    /// parse where it has to be read as Rust.
    pub fn check_source_file(
        &self,
        package: &PackageContext,
        source_path: &str,
        source: &str,
    ) -> (r: Result<Option<String>, Failure>)
        ensures
            ({
                let expected = source_expectation(
                    package.name@,
                    package.manifest_dir@,
                    source_path@,
                    source@,
                );
                match r {
                    Ok(Some(t)) => expected == Some(Some(t@)),
                    Ok(None) => expected == Some(None::<Seq<char>>),
                    Err(e) => expected is None && e@ == parse_failure_view(source@),
                }
            }),
    {
        let relative_source = ManifestResolver::relative_file(
            package.manifest_dir.as_str(),
            source_path,
        );
        if self.should_ignore_package_source(package, relative_source.as_str()) {
            return Ok(None);
        }
        match self.should_ignore_source_file(relative_source.as_str(), source) {
            Err(e) => return Err(e),
            Ok(true) => return Ok(None),
            Ok(false) => {},
        }
        match self.definition_analyzer.is_definition_only_source(source) {
            Err(e) => return Err(e),
            Ok(true) => return Ok(None),
            Ok(false) => {},
        }
        Ok(self.test_file_resolver.expected_test_file(package.manifest_dir.as_str(), source_path))
    }

    /// The gap reported for the file at `source_path` whose expected test
    /// file `expected_test` does not exist: both paths relative to the
    /// package's manifest directory.
    pub fn missing_gap(
        &self,
        package: &PackageContext,
        source_path: &str,
        expected_test: &str,
    ) -> (r: MissingTestGap)
        ensures
            r.package_name@ == package.name@,
            r.relative_source_file@ == relative_file_spec(package.manifest_dir@, source_path@),
            r.expected_test_file@ == relative_file_spec(package.manifest_dir@, expected_test@),
    {
        MissingTestGap {
            package_name: package.name.clone(),
            relative_source_file: ManifestResolver::relative_file(
                package.manifest_dir.as_str(),
                source_path,
            ),
            expected_test_file: ManifestResolver::relative_file(
                package.manifest_dir.as_str(),
                expected_test,
            ),
        }
    }

    /// The report of a package from the gaps found in it, ordered by package
    /// and then by source file.
    pub fn package_report(&self, package: &PackageContext, missing: Vec<MissingTestGap>) -> (r:
        AnalysisReport)
        ensures
            r.package_name@ == package.name@,
            r.missing@.to_multiset() == missing@.to_multiset(),
            gaps_sorted(r.missing@, false),
    {
        let sorted = sort_gaps(missing, false);
        AnalysisReport::new(package.name.clone(), sorted)
    }

    /// Whether the source at `relative_source` lies in the `src/` tree of a
    /// validation package.
    pub fn should_ignore_package_source(&self, package: &PackageContext, relative_source: &str) -> (r:
        bool)
        ensures
            r == ignored_package_source(package.name@, relative_source@),
    {
        let name = chars_of(package.name.as_str());
        let suffix = chars_of("-validation");
        let rel = chars_of(relative_source);
        let prefix = chars_of("src/");
        proof {
            reveal_strlit("-validation");
            reveal_strlit("src/");
            assert(suffix@ =~= validation_suffix());
            assert(prefix@ =~= src_prefix());
        }
        ends_with_chars(name.as_slice(), suffix.as_slice()) && starts_with_chars(
            rel.as_slice(),
            prefix.as_slice(),
        )
    }

    /// Whether the source at `relative_source` is left out before its items
    /// are looked at: an entry point, or a `mod.rs` that only imports. An
    /// error when such a `mod.rs` does not parse.
    pub fn should_ignore_source_file(&self, relative_source: &str, source: &str) -> (r: Result<
        bool,
        Failure,
    >)
        ensures
            match r {
                Ok(b) => ignored_source_file(relative_source@, source@) == Some(b),
                Err(e) => ignored_source_file(relative_source@, source@) is None && e@
                    == parse_failure_view(source@),
            },
    {
        if Self::is_entry_point(relative_source) {
            return Ok(true);
        }
        let rel = chars_of(relative_source);
        let suffix = chars_of("/mod.rs");
        proof {
            reveal_strlit("/mod.rs");
            assert(suffix@ =~= mod_suffix());
        }
        if ends_with_chars(rel.as_slice(), suffix.as_slice()) {
            return self.definition_analyzer.mod_file_is_import_only(source);
        }
        Ok(false)
    }

    /// Whether `relative_source` is an entry point: `src/lib.rs`,
    /// `src/main.rs`, `build.rs`, or a file directly under `src/bin/`, the
    /// binaries cargo finds by itself. A file deeper under `src/bin/` is a
    /// module of one of them, and stays in scope.
    pub fn is_entry_point(relative_source: &str) -> (r: bool)
        ensures
            r == is_entry_point_spec(relative_source@),
    {
        let rel = chars_of(relative_source);
        proof {
            reveal_strlit("src/lib.rs");
            reveal_strlit("src/main.rs");
            reveal_strlit("build.rs");
            reveal_strlit("src/bin/");
            assert("src/lib.rs"@ =~= seq!['s', 'r', 'c', '/', 'l', 'i', 'b', '.', 'r', 's']);
            assert("src/main.rs"@ =~= seq!['s', 'r', 'c', '/', 'm', 'a', 'i', 'n', '.', 'r', 's']);
            assert("build.rs"@ =~= seq!['b', 'u', 'i', 'l', 'd', '.', 'r', 's']);
            assert("src/bin/"@ =~= bin_prefix());
        }
        if chars_are(rel.as_slice(), "src/lib.rs") || chars_are(rel.as_slice(), "src/main.rs")
            || chars_are(rel.as_slice(), "build.rs") {
            return true;
        }
        let prefix = chars_of("src/bin/");
        if !starts_with_chars(rel.as_slice(), prefix.as_slice()) {
            return false;
        }
        let mut rel = rel;
        let rest = rel.split_off(prefix.len());
        !has_char(rest.as_slice(), '/')
    }
}

} // verus!
