//! Context-bomb heuristic: files long enough to crowd an LLM's context window.
use vstd::prelude::*;
use crate::cli::Threshold;
use crate::discovery::files::RustFile;
use crate::parsing::extractor::FileStructure;
use crate::text::{dec, sviews};
use crate::types::{finding_id, kv, kv_num, next_finding_id, Finding, FindingKind, Severity};

verus! {

/// 4 bytes ≈ 1 token (LLM tokenizer heuristic).
pub open spec fn tokens_of(size_bytes: u64) -> nat {
    ((size_bytes as usize) / 4) as nat
}

/// 4 bytes ≈ 1 token (LLM tokenizer heuristic).
pub fn estimate_tokens(size_bytes: u64) -> (r: usize)
    ensures
        r as nat == tokens_of(size_bytes),
{
    (size_bytes as usize) / 4
}

/// The file is at least as long as the level's line limit.
pub open spec fn fires(file: RustFile, threshold: Threshold) -> bool {
    file.line_count >= threshold.values().line_count_limit
}

pub open spec fn severity_for(lines: nat, limit: nat) -> Severity {
    if lines >= limit * 4 {
        Severity::Critical
    } else if lines >= limit * 2 {
        Severity::High
    } else {
        Severity::Medium
    }
}

pub open spec fn confidence_for(lines: nat, limit: nat) -> u32 {
    if lines >= limit * 4 {
        95
    } else if lines >= limit * 2 {
        85
    } else {
        75
    }
}

/// Line count, token estimate and limit, then the function count when over
/// 10 and the impl-block count when over 3.
pub open spec fn evidence_for(file: RustFile, structure: FileStructure, limit: nat) -> Seq<Seq<char>> {
    let base = seq![
        kv("line_count"@, dec(file.line_count as nat)),
        kv("estimated_tokens"@, dec(tokens_of(file.size_bytes))),
        kv("limit"@, dec(limit)),
    ];
    let with_fns = if structure.function_count > 10 {
        base.push(kv("function_count"@, dec(structure.function_count as nat)))
    } else {
        base
    };
    if structure.impl_block_count > 3 {
        with_fns.push(kv("impl_block_count"@, dec(structure.impl_block_count as nat)))
    } else {
        with_fns
    }
}

pub open spec fn expected(file: RustFile, structure: FileStructure, threshold: Threshold, n: nat, f: Finding) -> bool {
    let lines = file.line_count as nat;
    let limit = threshold.values().line_count_limit as nat;
    f.is(
        finding_id("cb"@, n),
        FindingKind::ContextBomb,
        severity_for(lines, limit),
        confidence_for(lines, limit),
        file.relative_path@,
        Seq::empty(),
        Seq::empty(),
        evidence_for(file, structure, limit),
        Seq::empty(),
        Some(tokens_of(file.size_bytes) as usize),
    )
}

pub fn analyze(file: &RustFile, structure: &FileStructure, threshold: &Threshold, counter: &mut usize) -> (r: Option<Finding>)
    requires
        fires(*file, *threshold) ==> *old(counter) < usize::MAX,
    ensures
        r is Some <==> fires(*file, *threshold),
        r is None ==> *final(counter) == *old(counter),
        r matches Some(f) ==> *final(counter) == *old(counter) + 1 && expected(
            *file,
            *structure,
            *threshold,
            *final(counter) as nat,
            f,
        ),
{
    let limit = threshold.line_count_limit();
    let lines = file.line_count;
    if lines < limit {
        return None;
    }
    let (severity, confidence) = if lines as u128 >= limit as u128 * 4 {
        (Severity::Critical, 95u32)
    } else if lines as u128 >= limit as u128 * 2 {
        (Severity::High, 85u32)
    } else {
        (Severity::Medium, 75u32)
    };
    let estimated_tokens = estimate_tokens(file.size_bytes);
    let mut evidence: Vec<String> = Vec::new();
    evidence.push(kv_num("line_count", lines));
    evidence.push(kv_num("estimated_tokens", estimated_tokens));
    evidence.push(kv_num("limit", limit));
    let ghost base = sviews(evidence@);
    if structure.function_count > 10 {
        evidence.push(kv_num("function_count", structure.function_count));
    }
    let ghost with_fns = sviews(evidence@);
    if structure.impl_block_count > 3 {
        evidence.push(kv_num("impl_block_count", structure.impl_block_count));
    }
    assert(sviews(evidence@) =~= evidence_for(*file, *structure, limit as nat)) by {
        assert(base =~= seq![
            kv("line_count"@, dec(lines as nat)),
            kv("estimated_tokens"@, dec(tokens_of(file.size_bytes))),
            kv("limit"@, dec(limit as nat)),
        ]);
        if structure.function_count > 10 {
            assert(with_fns =~= base.push(kv("function_count"@, dec(structure.function_count as nat))));
        } else {
            assert(with_fns =~= base);
        }
        if structure.impl_block_count > 3 {
            assert(sviews(evidence@) =~= with_fns.push(kv("impl_block_count"@, dec(structure.impl_block_count as nat))));
        } else {
            assert(sviews(evidence@) =~= with_fns);
        }
    }
    let id = next_finding_id("cb", counter);
    let mut finding = Finding::new(id, FindingKind::ContextBomb, severity, confidence, file.relative_path.clone(), evidence);
    finding.estimated_tokens = Some(estimated_tokens);
    Some(finding)
}

} // verus!
