//! Branch density heuristic.
//!
//! Measures branches per function. High branch density degrades LLM
//! reasoning performance.
//!
//! Logic: branch_count / max(function_count, 1) > limit → finding.
//! Severity scales with the ratio: >= limit*3 → Critical, >= limit*2 → High,
//! otherwise Medium.
use vstd::prelude::*;
use crate::cli::Threshold;
use crate::discovery::files::RustFile;
use crate::heuristics::common::{scale_ratio, severity_scale};
use crate::parsing::extractor::FileStructure;
use crate::text::{dec, fixed, push_fixed, sviews};
use crate::types::{finding_id, kv, kv_num, next_finding_id, Finding, FindingKind};

verus! {

/// Functions counted for the ratio: never fewer than one.
pub open spec fn fn_count_of(structure: FileStructure) -> nat {
    if structure.function_count >= 1 {
        structure.function_count as nat
    } else {
        1
    }
}

/// Branches per function exceed the level's limit.
pub open spec fn fires(structure: FileStructure, threshold: Threshold) -> bool {
    structure.branch_count as nat > threshold.values().branch_density_limit as nat * fn_count_of(structure)
}

pub open spec fn expected(file: RustFile, structure: FileStructure, threshold: Threshold, n: nat, f: Finding) -> bool {
    let bc = structure.branch_count as nat;
    let fc = fn_count_of(structure);
    let limit = threshold.values().branch_density_limit as nat;
    f.is(
        finding_id("bd"@, n),
        FindingKind::BranchDensity,
        scale_ratio(bc, fc, limit),
        85,
        file.relative_path@,
        Seq::empty(),
        Seq::empty(),
        seq![
            kv("branch_count"@, dec(bc)),
            kv("function_count"@, dec(fc)),
            kv("avg_branches_per_fn"@, fixed(bc, fc, 2)),
            kv("limit"@, dec(limit)),
        ],
        Seq::empty(),
        None,
    )
}

pub fn analyze(file: &RustFile, structure: &FileStructure, threshold: &Threshold, counter: &mut usize) -> (r: Option<Finding>)
    requires
        fires(*structure, *threshold) ==> *old(counter) < usize::MAX,
    ensures
        r is Some <==> fires(*structure, *threshold),
        r is None ==> *final(counter) == *old(counter),
        r matches Some(f) ==> *final(counter) == *old(counter) + 1 && expected(
            *file,
            *structure,
            *threshold,
            *final(counter) as nat,
            f,
        ),
{
    let limit = threshold.branch_density_limit();
    let fn_count = if structure.function_count >= 1 { structure.function_count } else { 1 };
    let bc = structure.branch_count;
    assert((limit as u128) * (fn_count as u128) <= 16 * 0xffff_ffff_ffff_ffffu128) by (nonlinear_arith)
        requires
            limit <= 16,
            fn_count <= 0xffff_ffff_ffff_ffffu64,
    ;
    let lim_fc: u128 = limit as u128 * fn_count as u128;
    if bc as u128 <= lim_fc {
        return None;
    }
    let severity = severity_scale(bc, fn_count, limit);
    let id = next_finding_id("bd", counter);
    let mut avg: Vec<char> = Vec::new();
    push_fixed(&mut avg, bc as u64, fn_count as u64, 2);
    let mut evidence: Vec<String> = Vec::new();
    evidence.push(kv_num("branch_count", bc));
    evidence.push(kv_num("function_count", fn_count));
    evidence.push(crate::types::kv_text("avg_branches_per_fn", &avg));
    evidence.push(kv_num("limit", limit));
    assert(sviews(evidence@) =~= seq![
        kv("branch_count"@, dec(bc as nat)),
        kv("function_count"@, dec(fn_count as nat)),
        kv("avg_branches_per_fn"@, fixed(bc as nat, fn_count as nat, 2)),
        kv("limit"@, dec(limit as nat)),
    ]);
    Some(Finding::new(id, FindingKind::BranchDensity, severity, 85, file.relative_path.clone(), evidence))
}

} // verus!
