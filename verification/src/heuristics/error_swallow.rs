//! Error swallowing heuristic.
//!
//! Detects discarded error handling: empty `Err(_)` match arms, empty
//! `if let Err(_) = expr {}` blocks, and `.ok()` calls that discard
//! the error variant. Detection is syntactic, hence the low confidence.
use vstd::prelude::*;
use crate::cli::Threshold;
use crate::discovery::files::RustFile;
use crate::parsing::extractor::FileStructure;
use crate::text::{dec, sviews};
use crate::types::{finding_id, kv, kv_num, kv_text, next_finding_id, Finding, FindingKind, Severity};

verus! {

/// The count exceeds the level's limit.
pub open spec fn fires(structure: FileStructure, threshold: Threshold) -> bool {
    structure.empty_catch_count > threshold.values().empty_catch_limit
}

/// Severity for a count of `count` against `limit`.
pub open spec fn severity_for(count: nat, limit: nat) -> Severity {
    if count >= 5 {
        Severity::High
    } else if count >= 3 {
        Severity::Medium
    } else {
        Severity::Low
    }
}

/// The finding for a file whose count exceeds the limit, numbered `n`.
pub open spec fn expected(file: RustFile, structure: FileStructure, threshold: Threshold, n: nat, f: Finding) -> bool {
    let count = structure.empty_catch_count as nat;
    let limit = threshold.values().empty_catch_limit as nat;
    f.is(
        finding_id("es"@, n),
        FindingKind::ErrorSwallow,
        severity_for(count, limit),
        40,
        file.relative_path@,
        Seq::empty(),
        Seq::empty(),
        seq![kv("empty_catch_count"@, dec(count)), kv("limit"@, dec(limit)), kv("preview"@, file.relative_path@)],
        Seq::empty(),
        None,
    )
}

pub fn analyze(file: &RustFile, structure: &FileStructure, threshold: &Threshold, counter: &mut usize) -> (r: Option<Finding>)
    requires
        fires(*structure, *threshold) ==> *old(counter) < usize::MAX,
    ensures
        r is Some <==> fires(*structure, *threshold),
        r is None ==> *final(counter) == *old(counter),
        r matches Some(f) ==> *final(counter) == *old(counter) + 1 && expected(
            *file,
            *structure,
            *threshold,
            *final(counter) as nat,
            f,
        ),
{
    let limit = threshold.empty_catch_limit();
    let count = structure.empty_catch_count;
    if count <= limit {
        return None;
    }
    let severity = if count >= 5 {
        Severity::High
    } else if count >= 3 {
        Severity::Medium
    } else {
        Severity::Low
    };
    let id = next_finding_id("es", counter);
    let mut evidence: Vec<String> = Vec::new();
    evidence.push(kv_num("empty_catch_count", count));
    evidence.push(kv_num("limit", limit));
    let rel = crate::text::chars_of(file.relative_path.as_str());
    evidence.push(kv_text("preview", &rel));
    assert(sviews(evidence@) =~= seq![
        kv("empty_catch_count"@, dec(count as nat)),
        kv("limit"@, dec(limit as nat)),
        kv("preview"@, file.relative_path@),
    ]);
    Some(Finding::new(id, FindingKind::ErrorSwallow, severity, 40, file.relative_path.clone(), evidence))
}

} // verus!
