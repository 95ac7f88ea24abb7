//! Comment ratio heuristic.
//!
//! Detects files with too few comments (LLMs can't infer intent) or too many
//! (token waste), against a minimum and a maximum ratio of comment lines to
//! all lines.
use vstd::prelude::*;
use crate::cli::Threshold;
use crate::discovery::files::RustFile;
use crate::parsing::extractor::FileStructure;
use crate::text::{dec, fixed, push_fixed, sviews};
use crate::types::{finding_id, kv, kv_num, kv_text, next_finding_id, Finding, FindingKind, Severity};

verus! {

/// Lines counted for the ratio: never fewer than one.
pub open spec fn lines_of(file: RustFile) -> nat {
    if file.line_count >= 1 {
        file.line_count as nat
    } else {
        1
    }
}

/// Comments are sparser than the level's minimum ratio.
pub open spec fn sparse(file: RustFile, structure: FileStructure, threshold: Threshold) -> bool {
    structure.comment_line_count as nat * 10000 < threshold.values().comment_ratio_min_bp as nat
        * lines_of(file)
}

/// Comments are denser than the level's maximum ratio.
pub open spec fn verbose(file: RustFile, structure: FileStructure, threshold: Threshold) -> bool {
    structure.comment_line_count as nat * 10000 > threshold.values().comment_ratio_max_bp as nat
        * lines_of(file)
}

pub open spec fn fires(file: RustFile, structure: FileStructure, threshold: Threshold) -> bool {
    sparse(file, structure, threshold) || verbose(file, structure, threshold)
}

pub open spec fn evidence_for(file: RustFile, structure: FileStructure, direction: Seq<char>) -> Seq<Seq<char>> {
    seq![
        kv("comment_lines"@, dec(structure.comment_line_count as nat)),
        kv("total_lines"@, dec(file.line_count as nat)),
        kv("ratio"@, fixed(structure.comment_line_count as nat, lines_of(file), 4)),
        kv("direction"@, direction),
    ]
}

/// Sparse comments give a Medium finding, verbose ones a Low finding.
pub open spec fn expected(file: RustFile, structure: FileStructure, threshold: Threshold, n: nat, f: Finding) -> bool {
    if sparse(file, structure, threshold) {
        f.is(
            finding_id("cr"@, n),
            FindingKind::CommentRatio,
            Severity::Medium,
            65,
            file.relative_path@,
            Seq::empty(),
            Seq::empty(),
            evidence_for(file, structure, "sparse"@),
            Seq::empty(),
            None,
        )
    } else {
        f.is(
            finding_id("cr"@, n),
            FindingKind::CommentRatio,
            Severity::Low,
            65,
            file.relative_path@,
            Seq::empty(),
            Seq::empty(),
            evidence_for(file, structure, "verbose"@),
            Seq::empty(),
            None,
        )
    }
}

pub fn analyze(file: &RustFile, structure: &FileStructure, threshold: &Threshold, counter: &mut usize) -> (r: Option<Finding>)
    requires
        fires(*file, *structure, *threshold) ==> *old(counter) < usize::MAX,
    ensures
        r is Some <==> fires(*file, *structure, *threshold),
        r is None ==> *final(counter) == *old(counter),
        r matches Some(f) ==> *final(counter) == *old(counter) + 1 && expected(
            *file,
            *structure,
            *threshold,
            *final(counter) as nat,
            f,
        ),
{
    let lines = if file.line_count >= 1 { file.line_count } else { 1 };
    let c = structure.comment_line_count;
    let min = threshold.comment_ratio_min_bp();
    let max = threshold.comment_ratio_max_bp();
    assert(min <= 10000 && max <= 10000);
    assert((min as u128) * (lines as u128) <= 10000 * 0xffff_ffff_ffff_ffffu128) by (nonlinear_arith)
        requires
            min <= 10000,
            lines <= 0xffff_ffff_ffff_ffffu64,
    ;
    assert((max as u128) * (lines as u128) <= 10000 * 0xffff_ffff_ffff_ffffu128) by (nonlinear_arith)
        requires
            max <= 10000,
            lines <= 0xffff_ffff_ffff_ffffu64,
    ;
    let lhs: u128 = c as u128 * 10000;
    let is_sparse = lhs < (min as u128) * (lines as u128);
    let is_verbose = lhs > (max as u128) * (lines as u128);
    if !is_sparse && !is_verbose {
        return None;
    }
    let id = next_finding_id("cr", counter);
    let mut ratio: Vec<char> = Vec::new();
    push_fixed(&mut ratio, c as u64, lines as u64, 4);
    let mut evidence: Vec<String> = Vec::new();
    evidence.push(kv_num("comment_lines", c));
    evidence.push(kv_num("total_lines", file.line_count));
    evidence.push(kv_text("ratio", &ratio));
    if is_sparse {
        let dir = crate::text::chars_of("sparse");
        evidence.push(kv_text("direction", &dir));
        assert(sviews(evidence@) =~= evidence_for(*file, *structure, "sparse"@));
        Some(Finding::new(id, FindingKind::CommentRatio, Severity::Medium, 65, file.relative_path.clone(), evidence))
    } else {
        let dir = crate::text::chars_of("verbose");
        evidence.push(kv_text("direction", &dir));
        assert(sviews(evidence@) =~= evidence_for(*file, *structure, "verbose"@));
        Some(Finding::new(id, FindingKind::CommentRatio, Severity::Low, 65, file.relative_path.clone(), evidence))
    }
}

} // verus!
