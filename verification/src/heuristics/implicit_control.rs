//! Implicit control flow heuristic — detects high attribute density.
//!
//! Counts attributes (Rust's decorator equivalent) on items against the
//! number of functions. A high ratio means hidden execution paths that LLMs
//! may miss.
use vstd::prelude::*;
use crate::cli::Threshold;
use crate::discovery::files::RustFile;
use crate::heuristics::branch_density::fn_count_of;
use crate::parsing::extractor::FileStructure;
use crate::text::{dec, fixed, push_fixed, sviews};
use crate::types::{finding_id, kv, kv_num, kv_text, next_finding_id, Finding, FindingKind, Severity};

verus! {

/// Attributes per function exceed the level's limit (a ratio in basis points).
pub open spec fn fires(structure: FileStructure, threshold: Threshold) -> bool {
    structure.decorator_count as nat * 10000 > threshold.values().decorator_density_limit_bp as nat
        * fn_count_of(structure)
}

/// `>= 3×limit` is High, `> 2×limit` is Medium, otherwise Low.
pub open spec fn severity_for(dc: nat, fc: nat, limit_bp: nat) -> Severity {
    if dc * 10000 >= 3 * limit_bp * fc {
        Severity::High
    } else if dc * 10000 > 2 * limit_bp * fc {
        Severity::Medium
    } else {
        Severity::Low
    }
}

pub open spec fn expected(file: RustFile, structure: FileStructure, threshold: Threshold, n: nat, f: Finding) -> bool {
    let dc = structure.decorator_count as nat;
    let fc = fn_count_of(structure);
    let limit = threshold.values().decorator_density_limit_bp as nat;
    f.is(
        finding_id("ic"@, n),
        FindingKind::ImplicitControl,
        severity_for(dc, fc, limit),
        40,
        file.relative_path@,
        Seq::empty(),
        Seq::empty(),
        seq![
            kv("decorator_count"@, dec(dc)),
            kv("function_count"@, dec(fc)),
            kv("ratio"@, fixed(dc, fc, 3)),
            kv("limit"@, fixed(limit, 10000, 3)),
        ],
        Seq::empty(),
        None,
    )
}

pub fn analyze(file: &RustFile, structure: &FileStructure, threshold: &Threshold, counter: &mut usize) -> (r: Option<Finding>)
    requires
        fires(*structure, *threshold) ==> *old(counter) < usize::MAX,
    ensures
        r is Some <==> fires(*structure, *threshold),
        r is None ==> *final(counter) == *old(counter),
        r matches Some(f) ==> *final(counter) == *old(counter) + 1 && expected(
            *file,
            *structure,
            *threshold,
            *final(counter) as nat,
            f,
        ),
{
    let dc = structure.decorator_count;
    let fn_count = if structure.function_count >= 1 { structure.function_count } else { 1 };
    let limit = threshold.decorator_density_limit_bp();
    assert(limit <= 10000);
    let lhs: u128 = dc as u128 * 10000;
    assert((limit as u128) * (fn_count as u128) <= 10000 * 0xffff_ffff_ffff_ffffu128) by (nonlinear_arith)
        requires
            limit <= 10000,
            fn_count <= 0xffff_ffff_ffff_ffffu64,
    ;
    let base: u128 = limit as u128 * fn_count as u128;
    if lhs <= base {
        return None;
    }
    let severity = if lhs >= 3 * base {
        Severity::High
    } else if lhs > 2 * base {
        Severity::Medium
    } else {
        Severity::Low
    };
    assert(severity == severity_for(dc as nat, fn_count as nat, limit as nat)) by (nonlinear_arith)
        requires
            base == limit * fn_count,
            lhs == dc * 10000,
            severity == (if lhs >= 3 * base {
                Severity::High
            } else if lhs > 2 * base {
                Severity::Medium
            } else {
                Severity::Low
            }),
    ;
    let id = next_finding_id("ic", counter);
    let mut ratio: Vec<char> = Vec::new();
    push_fixed(&mut ratio, dc as u64, fn_count as u64, 3);
    let mut lim: Vec<char> = Vec::new();
    push_fixed(&mut lim, limit as u64, 10000, 3);
    let mut evidence: Vec<String> = Vec::new();
    evidence.push(kv_num("decorator_count", dc));
    evidence.push(kv_num("function_count", fn_count));
    evidence.push(kv_text("ratio", &ratio));
    evidence.push(kv_text("limit", &lim));
    assert(sviews(evidence@) =~= seq![
        kv("decorator_count"@, dec(dc as nat)),
        kv("function_count"@, dec(fn_count as nat)),
        kv("ratio"@, fixed(dc as nat, fn_count as nat, 3)),
        kv("limit"@, fixed(limit as nat, 10000, 3)),
    ]);
    Some(Finding::new(id, FindingKind::ImplicitControl, severity, 40, file.relative_path.clone(), evidence))
}

} // verus!
