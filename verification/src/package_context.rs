//! A package as the analysis sees it: its name, the directory of its
//! manifest, and the roots its sources are walked from.
use vstd::prelude::*;

verus! {

#[derive(Debug, Clone)]
pub struct PackageContext {
    pub name: String,
    pub manifest_dir: String,
    pub source_roots: Vec<String>,
}

} // verus!
