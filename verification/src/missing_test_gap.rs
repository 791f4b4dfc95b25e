//! A source file whose mirrored test file does not exist.
use vstd::prelude::*;

verus! {

#[derive(Debug, Clone, PartialEq, Eq)]
pub struct MissingTestGap {
    pub package_name: String,
    pub relative_source_file: String,
    pub expected_test_file: String,
}

impl MissingTestGap {
    /// A copy of the gap, field for field.
    pub fn duplicate(&self) -> (r: MissingTestGap)
        ensures
            r == *self,
    {
        MissingTestGap {
            package_name: self.package_name.clone(),
            relative_source_file: self.relative_source_file.clone(),
            expected_test_file: self.expected_test_file.clone(),
        }
    }
}

} // verus!
