//! Deep nesting heuristic — measures maximum control-flow nesting depth per file.
//!
//! Deeply nested code increases cognitive load for LLMs; they skip condition
//! bodies and miss deeply nested blocks.
use vstd::prelude::*;
use crate::cli::Threshold;
use crate::discovery::files::RustFile;
use crate::heuristics::common::{scale_offset, severity_scale_offset};
use crate::parsing::extractor::FileStructure;
use crate::text::{dec, sviews};
use crate::types::{finding_id, kv, kv_num, next_finding_id, Finding, FindingKind};

verus! {

/// The file's nesting exceeds the level's limit.
pub open spec fn fires(structure: FileStructure, threshold: Threshold) -> bool {
    structure.max_nesting_depth > threshold.values().nesting_depth_limit
}

/// The finding for a file whose nesting exceeds the limit, numbered `n`.
pub open spec fn expected(file: RustFile, structure: FileStructure, threshold: Threshold, n: nat, f: Finding) -> bool {
    let depth = structure.max_nesting_depth as nat;
    let limit = threshold.values().nesting_depth_limit as nat;
    f.is(
        finding_id("dn"@, n),
        FindingKind::DeepNesting,
        scale_offset(depth, limit, 2, 4),
        85,
        file.relative_path@,
        Seq::empty(),
        Seq::empty(),
        seq![kv("max_depth"@, dec(depth)), kv("limit"@, dec(limit))],
        Seq::empty(),
        None,
    )
}

pub fn analyze(file: &RustFile, structure: &FileStructure, threshold: &Threshold, counter: &mut usize) -> (r: Option<Finding>)
    requires
        fires(*structure, *threshold) ==> *old(counter) < usize::MAX,
    ensures
        r is Some <==> fires(*structure, *threshold),
        r is None ==> *final(counter) == *old(counter),
        r matches Some(f) ==> *final(counter) == *old(counter) + 1 && expected(
            *file,
            *structure,
            *threshold,
            *final(counter) as nat,
            f,
        ),
{
    let limit = threshold.nesting_depth_limit();
    if structure.max_nesting_depth <= limit {
        return None;
    }
    let depth = structure.max_nesting_depth;
    let severity = severity_scale_offset(depth, limit, 2, 4);
    let id = next_finding_id("dn", counter);
    let mut evidence: Vec<String> = Vec::new();
    evidence.push(kv_num("max_depth", depth));
    evidence.push(kv_num("limit", limit));
    assert(sviews(evidence@) =~= seq![kv("max_depth"@, dec(depth as nat)), kv("limit"@, dec(limit as nat))]);
    Some(Finding::new(id, FindingKind::DeepNesting, severity, 85, file.relative_path.clone(), evidence))
}

} // verus!
