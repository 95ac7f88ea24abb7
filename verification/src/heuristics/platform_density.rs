//! Platform-specific conditional density heuristic; it reports nothing yet.
use vstd::prelude::*;
use crate::cli::Threshold;
use crate::discovery::files::RustFile;
use crate::parsing::extractor::FileStructure;
use crate::types::Finding;

verus! {

pub fn analyze(file: &RustFile, structure: &FileStructure, threshold: &Threshold, counter: &mut usize) -> (r: Option<Finding>)
    ensures
        r is None,
        *final(counter) == *old(counter),
{
    None
}

} // verus!
