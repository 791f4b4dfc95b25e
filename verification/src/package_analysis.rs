//! The analysis of one package as a conversation with the caller, who owns
//! the file system: the analysis asks for the files below a source root, for
//! the text of a source file, or whether a test file exists, and decides
//! from each answer what to ask next, until it is done.
use vstd::prelude::*;
use crate::analysis_report::AnalysisReport;
use crate::analyzer::{Analyzer, ignored_package_source, source_expectation};
use crate::definition_analyzer::parse_failure_view;
use crate::failure::{Failure, FailureView};
use crate::gap_order::gaps_sorted;
use crate::manifest_resolver::relative_file_spec;
use crate::missing_test_gap::MissingTestGap;
use crate::package_context::PackageContext;
use crate::text::{chars_of, push_str, string_of, texts};

verus! {

/// What the analysis asks of the caller next.
#[derive(Debug, PartialEq, Eq)]
pub enum Request {
    /// The `.rs` files below this source root, in the order they are
    /// walked; none when the root does not exist.
    ListRoot(String),
    /// The text of this source file.
    ReadSource(String),
    /// Whether this test file exists.
    ProbeTest(String),
    /// Nothing more: the analysis is over.
    Done,
}

/// A request read as text.
pub enum RequestView {
    ListRoot(Seq<char>),
    ReadSource(Seq<char>),
    ProbeTest(Seq<char>),
    Done,
}

/// What the analysis is waiting for.
enum Waiting {
    /// Nothing: the files of the current root are all considered.
    Idle,
    /// The text of this source file.
    Source(String),
    /// Whether the test file expected of a source file exists: the source
    /// file, then the test file.
    Test(String, String),
}

/// What the analysis is waiting for, read as text.
pub enum WaitingView {
    Idle,
    Source(Seq<char>),
    Test(Seq<char>, Seq<char>),
}

/// A gap read as text: package, source file, expected test file.
pub open spec fn gap_view(gap: MissingTestGap) -> (Seq<char>, Seq<char>, Seq<char>) {
    (gap.package_name@, gap.relative_source_file@, gap.expected_test_file@)
}

/// The state of an analysis: how many source roots were listed, the files
/// of the last one and how many of them were considered, what it waits for,
/// the gaps found so far, and the error that ended it, if one did.
pub struct AnalysisView {
    pub next_root: nat,
    pub files: Seq<Seq<char>>,
    pub next_file: nat,
    pub waiting: WaitingView,
    pub missing: Seq<MissingTestGap>,
    pub failure: Option<FailureView>,
}

/// Whether the file at `path` is read at all.
pub open spec fn reads(package: PackageContext, path: Seq<char>) -> bool {
    !ignored_package_source(package.name@, relative_file_spec(package.manifest_dir@, path))
}

/// The state once the files not read are passed over: the next file that is
/// read is waited for, or nothing when none is left.
pub open spec fn settle(package: PackageContext, s: AnalysisView) -> AnalysisView
    decreases s.files.len() - s.next_file,
{
    if s.next_file >= s.files.len() {
        AnalysisView {
            next_root: s.next_root,
            files: s.files,
            next_file: s.next_file,
            waiting: WaitingView::Idle,
            missing: s.missing,
            failure: s.failure,
        }
    } else if reads(package, s.files[s.next_file as int]) {
        AnalysisView {
            next_root: s.next_root,
            files: s.files,
            next_file: s.next_file + 1,
            waiting: WaitingView::Source(s.files[s.next_file as int]),
            missing: s.missing,
            failure: s.failure,
        }
    } else {
        settle(
            package,
            AnalysisView {
                next_root: s.next_root,
                files: s.files,
                next_file: s.next_file + 1,
                waiting: s.waiting,
                missing: s.missing,
                failure: s.failure,
            },
        )
    }
}

/// What the analysis in state `s` asks for.
pub open spec fn request_of(package: PackageContext, s: AnalysisView) -> RequestView {
    if s.failure is Some {
        RequestView::Done
    } else {
        match s.waiting {
            WaitingView::Source(p) => RequestView::ReadSource(p),
            WaitingView::Test(_, t) => RequestView::ProbeTest(t),
            WaitingView::Idle => if s.next_root < package.source_roots@.len() {
                RequestView::ListRoot(package.source_roots@[s.next_root as int]@)
            } else {
                RequestView::Done
            },
        }
    }
}

/// The state after the files of the next root were listed.
pub open spec fn after_listing(package: PackageContext, s: AnalysisView, files: Seq<Seq<char>>) -> AnalysisView {
    settle(
        package,
        AnalysisView {
            next_root: s.next_root + 1,
            files: files,
            next_file: 0,
            waiting: WaitingView::Idle,
            missing: s.missing,
            failure: s.failure,
        },
    )
}

/// The state after the source file waited for turned out to be expected to
/// have no test.
pub open spec fn after_no_expectation(package: PackageContext, s: AnalysisView) -> AnalysisView {
    settle(
        package,
        AnalysisView {
            next_root: s.next_root,
            files: s.files,
            next_file: s.next_file,
            waiting: WaitingView::Idle,
            missing: s.missing,
            failure: s.failure,
        },
    )
}

/// The state once the source file `source` is known to be expected to have
/// the test file `test`.
pub open spec fn after_expectation(s: AnalysisView, source: Seq<char>, test: Seq<char>) -> AnalysisView {
    AnalysisView {
        next_root: s.next_root,
        files: s.files,
        next_file: s.next_file,
        waiting: WaitingView::Test(source, test),
        missing: s.missing,
        failure: s.failure,
    }
}

/// The state once the analysis failed with `error`.
pub open spec fn after_failure(s: AnalysisView, error: FailureView) -> AnalysisView {
    AnalysisView {
        next_root: s.next_root,
        files: s.files,
        next_file: s.next_file,
        waiting: s.waiting,
        missing: s.missing,
        failure: Some(error),
    }
}

/// Whether `next` is the state after the probe of the test file `test`
/// expected of `source`: a gap naming both, relative to the package's
/// manifest directory, is recorded when the test file does not exist.
pub open spec fn probed(
    package: PackageContext,
    s: AnalysisView,
    source: Seq<char>,
    test: Seq<char>,
    exists: bool,
    next: AnalysisView,
) -> bool {
    if exists {
        next == after_no_expectation(package, s)
    } else {
        exists|gap: MissingTestGap|
            #![trigger gap_view(gap)]
            gap_view(gap) == (
                package.name@,
                relative_file_spec(package.manifest_dir@, source),
                relative_file_spec(package.manifest_dir@, test),
            ) && next == after_no_expectation(
                package,
                AnalysisView {
                    next_root: s.next_root,
                    files: s.files,
                    next_file: s.next_file,
                    waiting: s.waiting,
                    missing: s.missing.push(gap),
                    failure: s.failure,
                },
            )
    }
}

/// The error of an analysis that could not read the source file `path`,
/// caused by the error `cause` the caller met reading it.
pub open spec fn read_failure(path: Seq<char>, cause: Seq<char>) -> FailureView {
    FailureView { message: "failed to read source file "@ + path, cause: Some(cause) }
}

/// How much of the listed files is left to work through: two for each file
/// not yet considered, two for a source file waited for, one for a test file.
pub open spec fn files_left(s: AnalysisView) -> int {
    2 * (s.files.len() - s.next_file) + match s.waiting {
        WaitingView::Idle => 0int,
        WaitingView::Source(_) => 2int,
        WaitingView::Test(_, _) => 1int,
    }
}

/// Passing over the files not read changes neither the roots listed nor
/// the files, and leaves no more work than the files not yet considered.
proof fn lemma_settle_bounds(package: PackageContext, s: AnalysisView)
    requires
        s.next_file <= s.files.len(),
    ensures
        settle(package, s).next_root == s.next_root,
        settle(package, s).files == s.files,
        settle(package, s).next_file <= s.files.len(),
        settle(package, s).failure == s.failure,
        files_left(settle(package, s)) <= 2 * (s.files.len() - s.next_file),
    decreases s.files.len() - s.next_file,
{
    if s.next_file < s.files.len() && !reads(package, s.files[s.next_file as int]) {
        lemma_settle_bounds(
            package,
            AnalysisView {
                next_root: s.next_root,
                files: s.files,
                next_file: s.next_file + 1,
                waiting: s.waiting,
                missing: s.missing,
                failure: s.failure,
            },
        );
    }
}

/// Every answer moves the analysis forward, so that it is done after
/// finitely many: listing a root leaves one root fewer to list, and any
/// other answer either ends the analysis or leaves less of the listed files
/// to work through, the roots listed unchanged.
pub proof fn answers_move_the_analysis_forward(
    package: PackageContext,
    s: AnalysisView,
    files: Seq<Seq<char>>,
    test: Seq<char>,
    exists: bool,
    error: FailureView,
    next: AnalysisView,
)
    requires
        s.next_file <= s.files.len(),
        s.failure is None,
    ensures
        after_listing(package, s, files).next_root == s.next_root + 1,
        s.waiting is Source ==> files_left(after_no_expectation(package, s)) < files_left(s)
            && after_no_expectation(package, s).next_root == s.next_root,
        s.waiting is Source ==> files_left(after_expectation(s, s.waiting->Source_0, test))
            < files_left(s),
        s.waiting is Test && probed(package, s, s.waiting->Test_0, s.waiting->Test_1, exists, next)
            ==> files_left(next) < files_left(s) && next.next_root == s.next_root,
        request_of(package, after_failure(s, error)) is Done,
{
    lemma_settle_bounds(
        package,
        AnalysisView {
            next_root: s.next_root + 1,
            files: files,
            next_file: 0,
            waiting: WaitingView::Idle,
            missing: s.missing,
            failure: s.failure,
        },
    );
    let idle = AnalysisView {
        next_root: s.next_root,
        files: s.files,
        next_file: s.next_file,
        waiting: WaitingView::Idle,
        missing: s.missing,
        failure: s.failure,
    };
    lemma_settle_bounds(package, idle);
    if s.waiting is Test && probed(package, s, s.waiting->Test_0, s.waiting->Test_1, exists, next) {
        if !exists {
            let gap = choose|gap: MissingTestGap|
                #![trigger gap_view(gap)]
                gap_view(gap) == (
                    package.name@,
                    relative_file_spec(package.manifest_dir@, s.waiting->Test_0),
                    relative_file_spec(package.manifest_dir@, s.waiting->Test_1),
                ) && next == after_no_expectation(
                    package,
                    AnalysisView {
                        next_root: s.next_root,
                        files: s.files,
                        next_file: s.next_file,
                        waiting: s.waiting,
                        missing: s.missing.push(gap),
                        failure: s.failure,
                    },
                );
            lemma_settle_bounds(
                package,
                AnalysisView {
                    next_root: s.next_root,
                    files: s.files,
                    next_file: s.next_file,
                    waiting: WaitingView::Idle,
                    missing: s.missing.push(gap),
                    failure: s.failure,
                },
            );
        }
    }
}

/// A file system as the analysis sees it: the `.rs` files below a source
/// root (none when it does not exist), the text of a source file (or the
/// error met reading it), and whether a test file exists.
pub struct FileSystemView {
    pub listing: spec_fn(Seq<char>) -> Seq<Seq<char>>,
    pub text_of: spec_fn(Seq<char>) -> Result<Seq<char>, Seq<char>>,
    pub present: spec_fn(Seq<char>) -> bool,
}

/// What a whole analysis comes to: the error that ends it, if one does, and
/// the gaps found, as text, in the order their source files are considered.
pub struct RunOutcome {
    pub failure: Option<FailureView>,
    pub gaps: Seq<(Seq<char>, Seq<char>, Seq<char>)>,
}

/// The gap of the source file `source` whose test file `test` is missing,
/// as text: the package, then both files relative to its manifest directory.
pub open spec fn gap_text(package: PackageContext, source: Seq<char>, test: Seq<char>) -> (
    Seq<char>,
    Seq<char>,
    Seq<char>,
) {
    (
        package.name@,
        relative_file_spec(package.manifest_dir@, source),
        relative_file_spec(package.manifest_dir@, test),
    )
}

/// The outcome `rest` of the later files, preceded by the probe of the test
/// file `test` expected of `source`.
pub open spec fn probe_outcome(
    package: PackageContext,
    fs: FileSystemView,
    source: Seq<char>,
    test: Seq<char>,
    rest: RunOutcome,
) -> RunOutcome {
    if (fs.present)(test) {
        rest
    } else {
        RunOutcome { failure: rest.failure, gaps: seq![gap_text(package, source, test)] + rest.gaps }
    }
}

/// The outcome `rest` of the later files, preceded by the reading of the
/// source file `path`: an error there ends the analysis.
pub open spec fn read_outcome(
    package: PackageContext,
    fs: FileSystemView,
    path: Seq<char>,
    rest: RunOutcome,
) -> RunOutcome {
    match (fs.text_of)(path) {
        Err(cause) => RunOutcome { failure: Some(read_failure(path, cause)), gaps: Seq::empty() },
        Ok(text) => match source_expectation(package.name@, package.manifest_dir@, path, text) {
            None => RunOutcome { failure: Some(parse_failure_view(text)), gaps: Seq::empty() },
            Some(None) => rest,
            Some(Some(test)) => probe_outcome(package, fs, path, test, rest),
        },
    }
}

/// The outcome of considering `files` in order.
pub open spec fn files_outcome(package: PackageContext, fs: FileSystemView, files: Seq<Seq<char>>) -> RunOutcome
    decreases files.len(),
{
    if files.len() == 0 {
        RunOutcome { failure: None, gaps: Seq::empty() }
    } else {
        let rest = files_outcome(package, fs, files.drop_first());
        if reads(package, files[0]) {
            read_outcome(package, fs, files[0], rest)
        } else {
            rest
        }
    }
}

/// The files below the source roots of `package` from the one at `root` on,
/// root after root.
pub open spec fn files_from(package: PackageContext, fs: FileSystemView, root: nat) -> Seq<Seq<char>>
    decreases package.source_roots@.len() - root,
{
    if root >= package.source_roots@.len() {
        Seq::empty()
    } else {
        (fs.listing)(package.source_roots@[root as int]@) + files_from(package, fs, root + 1)
    }
}

/// What an analysis of `package` over `fs` comes to.
pub open spec fn expected_outcome(package: PackageContext, fs: FileSystemView) -> RunOutcome {
    files_outcome(package, fs, files_from(package, fs, 0))
}

/// The gaps recorded in state `s`, as text.
pub open spec fn found_gaps(s: AnalysisView) -> Seq<(Seq<char>, Seq<char>, Seq<char>)> {
    s.missing.map_values(|g: MissingTestGap| gap_view(g))
}

/// What the analysis in state `s` comes to once `fs` answers the rest.
pub open spec fn outcome_from(package: PackageContext, fs: FileSystemView, s: AnalysisView) -> RunOutcome {
    let rest = files_outcome(
        package,
        fs,
        s.files.skip(s.next_file as int) + files_from(package, fs, s.next_root),
    );
    let pending = match s.waiting {
        WaitingView::Idle => rest,
        WaitingView::Source(p) => read_outcome(package, fs, p, rest),
        WaitingView::Test(p, t) => probe_outcome(package, fs, p, t, rest),
    };
    match s.failure {
        Some(e) => RunOutcome { failure: Some(e), gaps: found_gaps(s) },
        None => RunOutcome { failure: pending.failure, gaps: found_gaps(s) + pending.gaps },
    }
}

/// Whether `next` is the state after `fs` answered what the analysis in
/// state `s` asks for, as the answering methods of `PackageAnalysis` state.
pub open spec fn answered(package: PackageContext, fs: FileSystemView, s: AnalysisView, next: AnalysisView) -> bool {
    match request_of(package, s) {
        RequestView::ListRoot(root) => next == after_listing(package, s, (fs.listing)(root)),
        RequestView::ReadSource(path) => match (fs.text_of)(path) {
            Err(cause) => next == after_failure(s, read_failure(path, cause)),
            Ok(text) => match source_expectation(package.name@, package.manifest_dir@, path, text) {
                None => next == after_failure(s, parse_failure_view(text)),
                Some(None) => next == after_no_expectation(package, s),
                Some(Some(test)) => next == after_expectation(s, path, test),
            },
        },
        RequestView::ProbeTest(test) => probed(
            package,
            s,
            s.waiting->Test_0,
            test,
            (fs.present)(test),
            next,
        ),
        RequestView::Done => false,
    }
}

/// The state in which an analysis starts.
pub open spec fn start() -> AnalysisView {
    AnalysisView {
        next_root: 0,
        files: Seq::empty(),
        next_file: 0,
        waiting: WaitingView::Idle,
        missing: Seq::empty(),
        failure: None,
    }
}

/// Whether `s` is a state an analysis of `package` can be in.
pub open spec fn reachable_shape(package: PackageContext, s: AnalysisView) -> bool {
    &&& s.next_root <= package.source_roots@.len()
    &&& s.next_file <= s.files.len()
    &&& (s.waiting is Idle ==> s.next_file == s.files.len())
}

/// Passing over the files not read changes nothing of what the analysis
/// comes to.
proof fn lemma_settle_keeps_outcome(package: PackageContext, fs: FileSystemView, s: AnalysisView)
    requires
        s.waiting is Idle,
        s.next_file <= s.files.len(),
    ensures
        outcome_from(package, fs, settle(package, s)) == outcome_from(package, fs, s),
        settle(package, s).next_root == s.next_root,
        settle(package, s).next_file <= settle(package, s).files.len(),
        settle(package, s).waiting is Idle ==> settle(package, s).next_file == settle(package, s).files.len(),
    decreases s.files.len() - s.next_file,
{
    if s.next_file < s.files.len() {
        let later = files_from(package, fs, s.next_root);
        let all = s.files.skip(s.next_file as int) + later;
        assert(all[0] == s.files[s.next_file as int]);
        assert(all.drop_first() =~= s.files.skip(s.next_file + 1int) + later);
        let t = AnalysisView {
            next_root: s.next_root,
            files: s.files,
            next_file: s.next_file + 1,
            waiting: s.waiting,
            missing: s.missing,
            failure: s.failure,
        };
        if !reads(package, s.files[s.next_file as int]) {
            lemma_settle_keeps_outcome(package, fs, t);
        }
    }
}

/// Each answer keeps the state one an analysis can be in, and changes
/// nothing of what the analysis comes to.
proof fn lemma_answer_keeps_outcome(
    package: PackageContext,
    fs: FileSystemView,
    s: AnalysisView,
    next: AnalysisView,
)
    requires
        reachable_shape(package, s),
        answered(package, fs, s, next),
    ensures
        reachable_shape(package, next),
        outcome_from(package, fs, next) == outcome_from(package, fs, s),
{
    let later = files_from(package, fs, s.next_root);
    let rest = files_outcome(package, fs, s.files.skip(s.next_file as int) + later);
    let idle = AnalysisView {
        next_root: s.next_root,
        files: s.files,
        next_file: s.next_file,
        waiting: WaitingView::Idle,
        missing: s.missing,
        failure: s.failure,
    };
    assert(found_gaps(s) + Seq::<(Seq<char>, Seq<char>, Seq<char>)>::empty() =~= found_gaps(s));
    match request_of(package, s) {
        RequestView::ListRoot(root) => {
            let listed = AnalysisView {
                next_root: s.next_root + 1,
                files: (fs.listing)(root),
                next_file: 0,
                waiting: WaitingView::Idle,
                missing: s.missing,
                failure: s.failure,
            };
            assert(s.files.skip(s.next_file as int) + later =~= listed.files.skip(0) + files_from(
                package,
                fs,
                s.next_root + 1,
            ));
            lemma_settle_keeps_outcome(package, fs, listed);
        },
        RequestView::ReadSource(path) => {
            match (fs.text_of)(path) {
                Err(_) => {},
                Ok(text) => match source_expectation(package.name@, package.manifest_dir@, path, text) {
                    None => {},
                    Some(None) => {
                        lemma_settle_keeps_outcome(package, fs, idle);
                    },
                    Some(Some(test)) => {},
                },
            }
        },
        RequestView::ProbeTest(test) => {
            let source = s.waiting->Test_0;
            if (fs.present)(test) {
                lemma_settle_keeps_outcome(package, fs, idle);
            } else {
                let gap = choose|gap: MissingTestGap|
                    #![trigger gap_view(gap)]
                    gap_view(gap) == gap_text(package, source, test) && next == after_no_expectation(
                        package,
                        AnalysisView {
                            next_root: s.next_root,
                            files: s.files,
                            next_file: s.next_file,
                            waiting: s.waiting,
                            missing: s.missing.push(gap),
                            failure: s.failure,
                        },
                    );
                let grown = AnalysisView {
                    next_root: s.next_root,
                    files: s.files,
                    next_file: s.next_file,
                    waiting: WaitingView::Idle,
                    missing: s.missing.push(gap),
                    failure: s.failure,
                };
                assert(found_gaps(grown) =~= found_gaps(s).push(gap_text(package, source, test)));
                assert(found_gaps(grown) + rest.gaps =~= found_gaps(s) + (seq![
                    gap_text(package, source, test),
                ] + rest.gaps));
                lemma_settle_keeps_outcome(package, fs, grown);
            }
        },
        RequestView::Done => {},
    }
}

/// The outcome of every state of a trace of answers from the start is what
/// the whole analysis comes to.
proof fn lemma_outcome_along(package: PackageContext, fs: FileSystemView, trace: Seq<AnalysisView>, k: int)
    requires
        0 <= k < trace.len(),
        trace[0] == start(),
        forall|i: int| 0 < i < trace.len() ==> #[trigger] answered(package, fs, trace[i - 1], trace[i]),
    ensures
        reachable_shape(package, trace[k]),
        outcome_from(package, fs, trace[k]) == expected_outcome(package, fs),
    decreases k,
{
    if k == 0 {
        let s = start();
        assert(s.files.skip(0) + files_from(package, fs, 0) =~= files_from(package, fs, 0));
        assert(found_gaps(s) =~= Seq::<(Seq<char>, Seq<char>, Seq<char>)>::empty());
        let r = expected_outcome(package, fs);
        assert(found_gaps(s) + r.gaps =~= r.gaps);
    } else {
        lemma_outcome_along(package, fs, trace, k - 1);
        assert(answered(package, fs, trace[k - 1], trace[k]));
        lemma_answer_keeps_outcome(package, fs, trace[k - 1], trace[k]);
    }
}

/// An analysis answered from a file system until it asks for nothing more
/// comes to what a walk over that file system gives: it fails exactly when
/// a source file it reads cannot be read or parsed, with the error of the
/// first such file, and otherwise has recorded one gap for each source
/// file, root after root and file after file, whose expected test file is
/// missing, and no other. (`finish` then orders the gaps by source file.)
pub proof fn a_finished_analysis_reports_every_gap(
    package: PackageContext,
    fs: FileSystemView,
    trace: Seq<AnalysisView>,
)
    requires
        trace.len() > 0,
        trace[0] == start(),
        forall|i: int| 0 < i < trace.len() ==> #[trigger] answered(package, fs, trace[i - 1], trace[i]),
        request_of(package, trace.last()) is Done,
    ensures
        trace.last().failure == expected_outcome(package, fs).failure,
        trace.last().failure is None ==> found_gaps(trace.last()) == expected_outcome(package, fs).gaps,
{
    let k = trace.len() - 1;
    lemma_outcome_along(package, fs, trace, k);
    let s = trace[k];
    if s.failure is None {
        assert(s.files.skip(s.next_file as int) + files_from(package, fs, s.next_root) =~= Seq::<
            Seq<char>,
        >::empty());
        assert(found_gaps(s) + Seq::<(Seq<char>, Seq<char>, Seq<char>)>::empty() =~= found_gaps(s));
    }
}

pub struct PackageAnalysis {
    analyzer: Analyzer,
    package: PackageContext,
    next_root: usize,
    files: Vec<String>,
    next_file: usize,
    waiting: Waiting,
    missing: Vec<MissingTestGap>,
    failure: Option<Failure>,
}

impl View for PackageAnalysis {
    type V = AnalysisView;

    /// The state of the analysis.
    closed spec fn view(&self) -> AnalysisView {
        AnalysisView {
            next_root: self.next_root as nat,
            files: texts(self.files@),
            next_file: self.next_file as nat,
            waiting: match self.waiting {
                Waiting::Idle => WaitingView::Idle,
                Waiting::Source(p) => WaitingView::Source(p@),
                Waiting::Test(p, t) => WaitingView::Test(p@, t@),
            },
            missing: self.missing@,
            failure: match self.failure {
                Some(e) => Some(e@),
                None => None,
            },
        }
    }
}

impl PackageAnalysis {
    /// The package analysed.
    pub closed spec fn package(&self) -> PackageContext {
        self.package
    }

    /// Whether the state is one the analysis can be in: no more roots
    /// listed than the package has, no more files considered than listed,
    /// and nothing left to consider when it waits for nothing.
    pub closed spec fn wf(&self) -> bool {
        &&& self.next_root <= self.package.source_roots@.len()
        &&& self.next_file <= self.files@.len()
        &&& (self.waiting is Idle ==> self.next_file == self.files@.len())
    }

    /// An analysis of `package` that has asked nothing yet.
    pub fn new(package: PackageContext) -> (r: Self)
        ensures
            r.wf(),
            r.package() == package,
            r.view() == (AnalysisView {
                next_root: 0,
                files: Seq::empty(),
                next_file: 0,
                waiting: WaitingView::Idle,
                missing: Seq::empty(),
                failure: None,
            }),
    {
        let r = PackageAnalysis {
            analyzer: Analyzer::new(),
            package,
            next_root: 0,
            files: Vec::new(),
            next_file: 0,
            waiting: Waiting::Idle,
            missing: Vec::new(),
            failure: None,
        };
        assert(r.view().files =~= Seq::<Seq<char>>::empty());
        assert(r.view().missing =~= Seq::<MissingTestGap>::empty());
        r
    }

    /// What the analysis asks for now.
    pub fn request(&self) -> (r: Request)
        requires
            self.wf(),
        ensures
            match (r, request_of(self.package(), self.view())) {
                (Request::ListRoot(a), RequestView::ListRoot(b)) => a@ == b,
                (Request::ReadSource(a), RequestView::ReadSource(b)) => a@ == b,
                (Request::ProbeTest(a), RequestView::ProbeTest(b)) => a@ == b,
                (Request::Done, RequestView::Done) => true,
                _ => false,
            },
    {
        if self.failure.is_some() {
            return Request::Done;
        }
        match &self.waiting {
            Waiting::Source(p) => Request::ReadSource(p.clone()),
            Waiting::Test(_, t) => Request::ProbeTest(t.clone()),
            Waiting::Idle => {
                if self.next_root < self.package.source_roots.len() {
                    Request::ListRoot(self.package.source_roots[self.next_root].clone())
                } else {
                    Request::Done
                }
            },
        }
    }

    /// Passes over the files not read, from the next one on.
    fn settle(&mut self)
        requires
            old(self).next_file <= old(self).files@.len(),
        ensures
            final(self).view() == settle(old(self).package(), old(self).view()),
            final(self).package == old(self).package,
            final(self).next_root == old(self).next_root,
            final(self).files@ == old(self).files@,
            final(self).next_file <= final(self).files@.len(),
            final(self).waiting is Idle ==> final(self).next_file == final(self).files@.len(),
        decreases old(self).files@.len() - old(self).next_file,
    {
        if self.next_file >= self.files.len() {
            self.waiting = Waiting::Idle;
            return;
        }
        let path = self.files[self.next_file].clone();
        proof {
            assert(self.view().files[self.next_file as int] == path@);
        }
        let read = self.analyzer.reads_source(&self.package, path.as_str());
        self.next_file = self.next_file + 1;
        if read {
            self.waiting = Waiting::Source(path);
        } else {
            self.settle();
        }
    }

    /// Takes the files listed below the root asked for.
    pub fn answer_listing(&mut self, files: Vec<String>)
        requires
            old(self).wf(),
            request_of(old(self).package(), old(self).view()) is ListRoot,
        ensures
            final(self).wf(),
            final(self).package() == old(self).package(),
            final(self).view() == after_listing(old(self).package(), old(self).view(), texts(files@)),
    {
        assert(self.view().next_root == self.next_root as nat);
        assert(self.next_root < self.package.source_roots.len());
        self.next_root = self.next_root + 1;
        self.files = files;
        self.next_file = 0;
        self.waiting = Waiting::Idle;
        self.settle();
    }

    /// Takes the text of the source file asked for, or the error met reading
    /// it: the error ends the analysis; otherwise the test file expected of
    /// the source, if any, is asked for next.
    pub fn answer_source(&mut self, contents: Result<String, String>)
        requires
            old(self).wf(),
            request_of(old(self).package(), old(self).view()) is ReadSource,
        ensures
            final(self).wf(),
            final(self).package() == old(self).package(),
            ({
                let package = old(self).package();
                let s = old(self).view();
                let source = s.waiting->Source_0;
                match contents {
                    Err(cause) => final(self).view() == after_failure(s, read_failure(source, cause@)),
                    Ok(text) => match source_expectation(
                        package.name@,
                        package.manifest_dir@,
                        source,
                        text@,
                    ) {
                        None => final(self).view() == after_failure(s, parse_failure_view(text@)),
                        Some(None) => final(self).view() == after_no_expectation(package, s),
                        Some(Some(t)) => final(self).view() == after_expectation(s, source, t),
                    },
                }
            }),
    {
        let ghost s = self.view();
        let source = match &self.waiting {
            Waiting::Source(p) => p.clone(),
            _ => return,
        };
        match contents {
            Err(cause) => {
                let mut message = chars_of("failed to read source file ");
                push_str(&mut message, source.as_str());
                let m = string_of(message.as_slice());
                proof {
                    reveal_strlit("failed to read source file ");
                }
                assert(m@ =~= read_failure(source@, cause@).message);
                self.failure = Some(Failure::caused(m, cause));
            },
            Ok(text) => {
                match self.analyzer.check_source_file(&self.package, source.as_str(), text.as_str()) {
                    Err(e) => {
                        self.failure = Some(e);
                    },
                    Ok(None) => {
                        self.waiting = Waiting::Idle;
                        self.settle();
                    },
                    Ok(Some(t)) => {
                        self.waiting = Waiting::Test(source, t);
                    },
                }
            },
        }
    }

    /// Takes whether the test file asked for exists; when it does not, the
    /// gap is recorded.
    pub fn answer_probe(&mut self, exists: bool)
        requires
            old(self).wf(),
            request_of(old(self).package(), old(self).view()) is ProbeTest,
        ensures
            final(self).wf(),
            final(self).package() == old(self).package(),
            ({
                let s = old(self).view();
                probed(
                    old(self).package(),
                    s,
                    s.waiting->Test_0,
                    s.waiting->Test_1,
                    exists,
                    final(self).view(),
                )
            }),
    {
        let ghost s = self.view();
        let (source, test) = match &self.waiting {
            Waiting::Test(p, t) => (p.clone(), t.clone()),
            _ => return,
        };
        if !exists {
            let gap = self.analyzer.missing_gap(&self.package, source.as_str(), test.as_str());
            let ghost g = gap;
            self.missing.push(gap);
            self.waiting = Waiting::Idle;
            self.settle();
            proof {
                let grown = AnalysisView {
                    next_root: s.next_root,
                    files: s.files,
                    next_file: s.next_file,
                    waiting: s.waiting,
                    missing: s.missing.push(g),
                    failure: s.failure,
                };
                assert(gap_view(g) == (
                    self.package.name@,
                    relative_file_spec(self.package.manifest_dir@, source@),
                    relative_file_spec(self.package.manifest_dir@, test@),
                ));
                assert(self.view() == after_no_expectation(self.package, grown));
            }
        } else {
            self.waiting = Waiting::Idle;
            self.settle();
        }
    }

    /// The report of the package once the analysis is done: the gaps found,
    /// ordered by source file; or the error that ended it.
    pub fn finish(self) -> (r: Result<AnalysisReport, Failure>)
        requires
            self.wf(),
            request_of(self.package(), self.view()) is Done,
        ensures
            match self.view().failure {
                Some(e) => r matches Err(m) && m@ == e,
                None => r matches Ok(report) && report.package_name@ == self.package().name@
                    && report.missing@.to_multiset() == self.view().missing.to_multiset()
                    && gaps_sorted(report.missing@, false),
            },
    {
        let PackageAnalysis { analyzer, package, next_root, files, next_file, waiting, missing, failure } = self;
        match failure {
            Some(e) => Err(e),
            None => {
                let report = analyzer.package_report(&package, missing);
                Ok(report)
            },
        }
    }
}

} // verus!
