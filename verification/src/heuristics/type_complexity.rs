//! Type complexity heuristic — detects deeply nested generic types.
//!
//! Counts maximum nesting depth of type expressions (e.g.
//! `Option<HashMap<K, Vec<T>>>` = depth 3). Highest false-positive risk, so
//! it only fires at extreme depths.
use vstd::prelude::*;
use crate::cli::Threshold;
use crate::discovery::files::RustFile;
use crate::parsing::extractor::FileStructure;
use crate::text::{dec, sviews};
use crate::types::{finding_id, kv, kv_num, kv_text, next_finding_id, Finding, FindingKind, Severity};

verus! {

/// The count exceeds the level's limit.
pub open spec fn fires(structure: FileStructure, threshold: Threshold) -> bool {
    structure.max_type_depth > threshold.values().type_depth_limit
}

/// Severity for a count of `count` against `limit`.
pub open spec fn severity_for(count: nat, limit: nat) -> Severity {
    if count >= limit + 3 {
        Severity::Critical
    } else if count >= limit + 2 {
        Severity::High
    } else {
        Severity::Medium
    }
}

/// The finding for a file whose count exceeds the limit, numbered `n`.
pub open spec fn expected(file: RustFile, structure: FileStructure, threshold: Threshold, n: nat, f: Finding) -> bool {
    let count = structure.max_type_depth as nat;
    let limit = threshold.values().type_depth_limit as nat;
    f.is(
        finding_id("tc"@, n),
        FindingKind::TypeComplexity,
        severity_for(count, limit),
        50,
        file.relative_path@,
        Seq::empty(),
        Seq::empty(),
        seq![kv("max_type_depth"@, dec(count)), kv("limit"@, dec(limit)), "location: unknown"@],
        Seq::empty(),
        None,
    )
}

pub fn analyze(file: &RustFile, structure: &FileStructure, threshold: &Threshold, counter: &mut usize) -> (r: Option<Finding>)
    requires
        fires(*structure, *threshold) ==> *old(counter) < usize::MAX,
    ensures
        r is Some <==> fires(*structure, *threshold),
        r is None ==> *final(counter) == *old(counter),
        r matches Some(f) ==> *final(counter) == *old(counter) + 1 && expected(
            *file,
            *structure,
            *threshold,
            *final(counter) as nat,
            f,
        ),
{
    let limit = threshold.type_depth_limit();
    let count = structure.max_type_depth;
    if count <= limit {
        return None;
    }
    let severity = if count as u128 >= limit as u128 + 3 {
        Severity::Critical
    } else if count as u128 >= limit as u128 + 2 {
        Severity::High
    } else {
        Severity::Medium
    };
    let id = next_finding_id("tc", counter);
    let mut evidence: Vec<String> = Vec::new();
    evidence.push(kv_num("max_type_depth", count));
    evidence.push(kv_num("limit", limit));
    evidence.push("location: unknown".to_string());
    assert(sviews(evidence@) =~= seq![
        kv("max_type_depth"@, dec(count as nat)),
        kv("limit"@, dec(limit as nat)),
        "location: unknown"@,
    ]);
    Some(Finding::new(id, FindingKind::TypeComplexity, severity, 50, file.relative_path.clone(), evidence))
}

} // verus!
