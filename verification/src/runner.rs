//! How a run of the tool ends: it fails when any package has a gap, so that
//! it drops into continuous integration as it is.
use vstd::prelude::*;
use crate::analysis_report::AnalysisReport;

verus! {

/// Whether some report has a gap.
pub open spec fn any_gap(reports: Seq<AnalysisReport>) -> bool {
    exists|i: int| 0 <= i < reports.len() && #[trigger] reports[i].missing@.len() > 0
}

/// A gap in any package fails the run, wherever that package stands among
/// the reports.
pub proof fn a_gap_anywhere_fails_the_run(reports: Seq<AnalysisReport>, i: int)
    requires
        0 <= i < reports.len(),
        reports[i].missing@.len() > 0,
    ensures
        any_gap(reports),
{
}

/// With no gap in any package, the run passes.
pub proof fn no_gap_passes_the_run(reports: Seq<AnalysisReport>)
    requires
        forall|i: int| 0 <= i < reports.len() ==> (#[trigger] reports[i]).missing@.len() == 0,
    ensures
        !any_gap(reports),
{
}

pub struct Runner;

impl Runner {
    /// The exit code of a run that produced `reports`: 1 when any package
    /// has a gap, 0 when every expected test file exists.
    pub fn exit_code(reports: &[AnalysisReport]) -> (r: i32)
        ensures
            r == (if any_gap(reports@) {
                1i32
            } else {
                0i32
            }),
    {
        let mut i: usize = 0;
        while i < reports.len()
            invariant
                i <= reports.len(),
                forall|k: int| 0 <= k < i ==> (#[trigger] reports@[k]).missing@.len() == 0,
            decreases reports.len() - i,
        {
            if !reports[i].is_empty() {
                return 1;
            }
            i = i + 1;
        }
        0
    }
}

} // verus!
