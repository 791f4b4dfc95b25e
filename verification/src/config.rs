//! What an invocation asks for: the manifest to read and the packages to
//! analyze.
use vstd::prelude::*;

verus! {

#[derive(Debug, Clone)]
pub struct Config {
    pub manifest_path: Option<String>,
    pub packages: Vec<String>,
}

} // verus!
