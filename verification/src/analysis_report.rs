//! What the analysis of one package found.
use vstd::prelude::*;
use crate::missing_test_gap::MissingTestGap;

verus! {

#[derive(Debug, Clone, PartialEq, Eq)]
pub struct AnalysisReport {
    pub package_name: String,
    pub missing: Vec<MissingTestGap>,
}

impl AnalysisReport {
    pub fn new(package_name: String, missing: Vec<MissingTestGap>) -> (r: Self)
        ensures
            r.package_name == package_name,
            r.missing == missing,
    {
        AnalysisReport { package_name, missing }
    }

    /// Whether the package has no gap.
    pub fn is_empty(&self) -> (r: bool)
        ensures
            r == (self.missing@.len() == 0),
    {
        self.missing.len() == 0
    }

    /// How many gaps the package has.
    pub fn missing_count(&self) -> (r: usize)
        ensures
            r == self.missing@.len(),
    {
        self.missing.len()
    }
}

} // verus!
