//! Dangerous pattern heuristic.
//!
//! Detects risky code patterns (unsafe, unwrap, expect, transmute) that force
//! LLMs to consider a broader state space. Confidence is lower for Rust because
//! `.unwrap()` and `unsafe` have legitimate uses in low-level code.
use vstd::prelude::*;
use crate::cli::Threshold;
use crate::discovery::files::RustFile;
use crate::parsing::extractor::FileStructure;
use crate::text::{dec, sviews};
use crate::types::{finding_id, kv, kv_num, kv_text, next_finding_id, Finding, FindingKind, Severity};

verus! {

/// The count exceeds the level's limit.
pub open spec fn fires(structure: FileStructure, threshold: Threshold) -> bool {
    structure.dangerous_pattern_count > threshold.values().dangerous_pattern_limit
}

/// Severity for a count of `count` against `limit`.
pub open spec fn severity_for(count: nat, limit: nat) -> Severity {
    if count >= limit * 3 {
        Severity::Critical
    } else if count >= limit * 2 {
        Severity::High
    } else {
        Severity::Medium
    }
}

/// The finding for a file whose count exceeds the limit, numbered `n`.
pub open spec fn expected(file: RustFile, structure: FileStructure, threshold: Threshold, n: nat, f: Finding) -> bool {
    let count = structure.dangerous_pattern_count as nat;
    let limit = threshold.values().dangerous_pattern_limit as nat;
    f.is(
        finding_id("dp"@, n),
        FindingKind::DangerousPattern,
        severity_for(count, limit),
        60,
        file.relative_path@,
        Seq::empty(),
        Seq::empty(),
        seq![kv("dangerous_pattern_count"@, dec(count)), kv("limit"@, dec(limit)), kv("preview"@, file.relative_path@)],
        Seq::empty(),
        None,
    )
}

pub fn analyze(file: &RustFile, structure: &FileStructure, threshold: &Threshold, counter: &mut usize) -> (r: Option<Finding>)
    requires
        fires(*structure, *threshold) ==> *old(counter) < usize::MAX,
    ensures
        r is Some <==> fires(*structure, *threshold),
        r is None ==> *final(counter) == *old(counter),
        r matches Some(f) ==> *final(counter) == *old(counter) + 1 && expected(
            *file,
            *structure,
            *threshold,
            *final(counter) as nat,
            f,
        ),
{
    let limit = threshold.dangerous_pattern_limit();
    let count = structure.dangerous_pattern_count;
    if count <= limit {
        return None;
    }
    let severity = if count as u128 >= limit as u128 * 3 {
        Severity::Critical
    } else if count as u128 >= limit as u128 * 2 {
        Severity::High
    } else {
        Severity::Medium
    };
    let id = next_finding_id("dp", counter);
    let mut evidence: Vec<String> = Vec::new();
    evidence.push(kv_num("dangerous_pattern_count", count));
    evidence.push(kv_num("limit", limit));
    let rel = crate::text::chars_of(file.relative_path.as_str());
    evidence.push(kv_text("preview", &rel));
    assert(sviews(evidence@) =~= seq![
        kv("dangerous_pattern_count"@, dec(count as nat)),
        kv("limit"@, dec(limit as nat)),
        kv("preview"@, file.relative_path@),
    ]);
    Some(Finding::new(id, FindingKind::DangerousPattern, severity, 60, file.relative_path.clone(), evidence))
}

} // verus!
