use repo_gc::cli::Threshold;
use repo_gc::discovery::files::RustFile;
use repo_gc::heuristics::test_utils::test_file;
use repo_gc::heuristics::{branch_density, comment_ratio, context_bombs, dangerous_pattern, deep_nesting};
use repo_gc::parsing::extractor::FileStructure;
use repo_gc::types::{FindingKind, Severity};

fn has(evidence: &[String], needle: &str) -> bool {
    evidence.iter().any(|e| e.contains(needle))
}

fn starts(evidence: &[String], prefix: &str) -> bool {
    evidence.iter().any(|e| e.starts_with(prefix))
}

// ---------------------------------------------------------------- branch density

fn bd(branch_count: usize, function_count: usize) -> FileStructure {
    FileStructure {
        branch_count,
        function_count,
        path: "src/test.rs".to_string(),
        ..Default::default()
    }
}

#[test]
fn branch_density_no_finding_below_limit() {
    let r = branch_density::analyze(&test_file("src/test.rs"), &bd(12, 12), &Threshold::Normal, &mut 0);
    assert!(r.is_none());
}

#[test]
fn branch_density_no_finding_at_exact_limit() {
    let r = branch_density::analyze(&test_file("src/test.rs"), &bd(12, 1), &Threshold::Normal, &mut 0);
    assert!(r.is_none());
}

#[test]
fn branch_density_no_finding_below_strict_limit() {
    let r = branch_density::analyze(&test_file("src/test.rs"), &bd(8, 1), &Threshold::Strict, &mut 0);
    assert!(r.is_none());
}

#[test]
fn branch_density_finding_above_limit() {
    let r = branch_density::analyze(&test_file("src/test.rs"), &bd(25, 2), &Threshold::Normal, &mut 0).unwrap();
    assert_eq!(r.kind, FindingKind::BranchDensity);
    assert_eq!(r.confidence_pct, 85);
}

#[test]
fn severity_medium_at_limit() {
    let r = branch_density::analyze(&test_file("src/test.rs"), &bd(13, 1), &Threshold::Normal, &mut 0).unwrap();
    assert_eq!(r.severity, Severity::Medium);
}

#[test]
fn severity_high_at_double_limit() {
    let r = branch_density::analyze(&test_file("src/test.rs"), &bd(24, 1), &Threshold::Normal, &mut 0).unwrap();
    assert_eq!(r.severity, Severity::High);
}

#[test]
fn severity_critical_at_triple_limit() {
    let r = branch_density::analyze(&test_file("src/test.rs"), &bd(36, 1), &Threshold::Normal, &mut 0).unwrap();
    assert_eq!(r.severity, Severity::Critical);
}

#[test]
fn avoids_division_by_zero() {
    let r = branch_density::analyze(&test_file("src/test.rs"), &bd(25, 0), &Threshold::Normal, &mut 0).unwrap();
    assert_eq!(r.kind, FindingKind::BranchDensity);
    assert!(has(&r.evidence, "function_count: 1"));
}

#[test]
fn branch_density_counter_increments() {
    let mut c = 0;
    branch_density::analyze(&test_file("src/test.rs"), &bd(25, 1), &Threshold::Normal, &mut c);
    branch_density::analyze(&test_file("src/test.rs"), &bd(25, 1), &Threshold::Normal, &mut c);
    assert_eq!(c, 2);
}

#[test]
fn branch_density_full_finding() {
    let mut c = 4;
    let r = branch_density::analyze(&test_file("src/test.rs"), &bd(25, 2), &Threshold::Normal, &mut c).unwrap();
    assert_eq!(c, 5);
    assert_eq!(r.id, "bd-005");
    assert_eq!(r.path, "src/test.rs");
    assert_eq!(r.severity, Severity::Medium);
    assert_eq!(
        r.evidence,
        vec![
            "branch_count: 25".to_string(),
            "function_count: 2".to_string(),
            "avg_branches_per_fn: 12.50".to_string(),
            "limit: 12".to_string(),
        ]
    );
}

#[test]
fn branch_density_no_finding_leaves_counter() {
    let mut c = 7;
    assert!(branch_density::analyze(&test_file("src/test.rs"), &bd(3, 1), &Threshold::Normal, &mut c).is_none());
    assert_eq!(c, 7);
}

// ---------------------------------------------------------------- comment ratio

fn cr_file(name: &str, line_count: usize) -> RustFile {
    RustFile {
        path: name.to_string(),
        relative_path: name.to_string(),
        package_name: "krate".to_string(),
        size_bytes: 100,
        line_count,
    }
}

fn cr(comment_lines: usize) -> FileStructure {
    FileStructure {
        comment_line_count: comment_lines,
        path: "src/lib.rs".to_string(),
        ..Default::default()
    }
}

#[test]
fn no_finding_when_ratio_in_normal_range() {
    assert!(comment_ratio::analyze(&cr_file("src/lib.rs", 1000), &cr(50), &Threshold::Normal, &mut 0).is_none());
}

#[test]
fn sparse_finding_when_below_min() {
    let r = comment_ratio::analyze(&cr_file("src/lib.rs", 100), &cr(1), &Threshold::Normal, &mut 0).unwrap();
    assert_eq!(r.kind, FindingKind::CommentRatio);
    assert_eq!(r.severity, Severity::Medium);
    assert!(has(&r.evidence, "direction: sparse"));
}

#[test]
fn verbose_finding_when_above_max() {
    let r = comment_ratio::analyze(&cr_file("src/lib.rs", 1000), &cr(400), &Threshold::Normal, &mut 0).unwrap();
    assert_eq!(r.kind, FindingKind::CommentRatio);
    assert_eq!(r.severity, Severity::Low);
    assert!(has(&r.evidence, "direction: verbose"));
}

#[test]
fn no_finding_at_exact_min() {
    let r = comment_ratio::analyze(&cr_file("src/lib.rs", 100), &cr(3), &Threshold::Strict, &mut 0);
    assert!(r.is_none());
}

#[test]
fn no_finding_at_exact_max() {
    let r = comment_ratio::analyze(&cr_file("src/lib.rs", 100), &cr(20), &Threshold::Strict, &mut 0);
    assert!(r.is_none());
}

#[test]
fn relaxed_mode_has_wider_range() {
    let r = comment_ratio::analyze(&cr_file("src/lib.rs", 200), &cr(1), &Threshold::Relaxed, &mut 0).unwrap();
    assert_eq!(r.kind, FindingKind::CommentRatio);
    assert!(has(&r.evidence, "direction: sparse"));
}

#[test]
fn evidence_contains_ratio_and_counts() {
    let r = comment_ratio::analyze(&cr_file("src/lib.rs", 200), &cr(1), &Threshold::Strict, &mut 0).unwrap();
    assert!(starts(&r.evidence, "comment_lines: 1"));
    assert!(starts(&r.evidence, "total_lines: 200"));
    assert!(starts(&r.evidence, "ratio:"));
}

#[test]
fn comment_ratio_counter_increments() {
    let mut c = 0;
    comment_ratio::analyze(&cr_file("src/lib.rs", 200), &cr(1), &Threshold::Strict, &mut c);
    comment_ratio::analyze(&cr_file("src/lib.rs", 200), &cr(1), &Threshold::Strict, &mut c);
    assert_eq!(c, 2);
}

#[test]
fn comment_ratio_exact_evidence() {
    let r = comment_ratio::analyze(&cr_file("src/lib.rs", 200), &cr(1), &Threshold::Strict, &mut 0).unwrap();
    assert_eq!(r.id, "cr-001");
    assert_eq!(r.confidence_pct, 65);
    assert_eq!(
        r.evidence,
        vec![
            "comment_lines: 1".to_string(),
            "total_lines: 200".to_string(),
            "ratio: 0.0050".to_string(),
            "direction: sparse".to_string(),
        ]
    );
}

#[test]
fn comment_ratio_empty_file_counts_one_line() {
    let r = comment_ratio::analyze(&cr_file("src/lib.rs", 0), &cr(0), &Threshold::Normal, &mut 0).unwrap();
    assert!(has(&r.evidence, "direction: sparse"));
    assert!(has(&r.evidence, "total_lines: 0"));
}

// ---------------------------------------------------------------- context bombs

fn cb_file(lines: usize, bytes: u64) -> RustFile {
    RustFile {
        path: "src/big.rs".to_string(),
        relative_path: "src/big.rs".to_string(),
        package_name: "krate".to_string(),
        size_bytes: bytes,
        line_count: lines,
    }
}

fn cb(fns: usize, impls: usize) -> FileStructure {
    FileStructure {
        function_count: fns,
        impl_block_count: impls,
        path: "src/big.rs".to_string(),
        ..Default::default()
    }
}

#[test]
fn context_bombs_no_finding_below_limit() {
    assert!(context_bombs::analyze(&cb_file(100, 2000), &cb(5, 1), &Threshold::Normal, &mut 0).is_none());
}

#[test]
fn medium_at_limit() {
    assert_eq!(
        context_bombs::analyze(&cb_file(500, 20000), &cb(5, 1), &Threshold::Normal, &mut 0).unwrap().severity,
        Severity::Medium
    );
}

#[test]
fn high_at_2x() {
    let r = context_bombs::analyze(&cb_file(1000, 40000), &cb(30, 5), &Threshold::Normal, &mut 0).unwrap();
    assert_eq!(r.severity, Severity::High);
    assert!(has(&r.evidence, "function_count: 30"));
    assert!(has(&r.evidence, "impl_block_count: 5"));
}

#[test]
fn critical_at_4x() {
    assert_eq!(
        context_bombs::analyze(&cb_file(2000, 80000), &cb(50, 10), &Threshold::Normal, &mut 0).unwrap().severity,
        Severity::Critical
    );
}

#[test]
fn token_estimate() {
    assert_eq!(context_bombs::estimate_tokens(40000), 10000);
}

#[test]
fn context_bombs_counter_increments() {
    let mut c = 0;
    context_bombs::analyze(&cb_file(600, 24000), &cb(5, 1), &Threshold::Normal, &mut c);
    context_bombs::analyze(&cb_file(600, 24000), &cb(5, 1), &Threshold::Normal, &mut c);
    assert_eq!(c, 2);
}

#[test]
fn context_bomb_carries_token_estimate() {
    let r = context_bombs::analyze(&cb_file(600, 24000), &cb(5, 1), &Threshold::Normal, &mut 0).unwrap();
    assert_eq!(r.kind, FindingKind::ContextBomb);
    assert_eq!(r.estimated_tokens, Some(6000));
    assert_eq!(r.id, "cb-001");
    assert_eq!(r.confidence_pct, 75);
    assert_eq!(
        r.evidence,
        vec!["line_count: 600".to_string(), "estimated_tokens: 6000".to_string(), "limit: 500".to_string()]
    );
}

#[test]
fn token_estimate_rounds_down() {
    assert_eq!(context_bombs::estimate_tokens(7), 1);
    assert_eq!(context_bombs::estimate_tokens(3), 0);
}

// ---------------------------------------------------------------- dangerous pattern

fn dp(count: usize) -> FileStructure {
    FileStructure {
        dangerous_pattern_count: count,
        path: "src/lib.rs".to_string(),
        ..Default::default()
    }
}

#[test]
fn dangerous_pattern_no_finding_at_normal_limit() {
    assert!(dangerous_pattern::analyze(&test_file("src/lib.rs"), &dp(5), &Threshold::Normal, &mut 0).is_none());
}

#[test]
fn dangerous_pattern_no_finding_below_strict_limit() {
    assert!(dangerous_pattern::analyze(&test_file("src/lib.rs"), &dp(3), &Threshold::Strict, &mut 0).is_none());
}

#[test]
fn dangerous_pattern_no_finding_below_relaxed_limit() {
    assert!(dangerous_pattern::analyze(&test_file("src/lib.rs"), &dp(10), &Threshold::Relaxed, &mut 0).is_none());
}

#[test]
fn dangerous_pattern_finding_above_limit() {
    let r = dangerous_pattern::analyze(&test_file("src/lib.rs"), &dp(6), &Threshold::Normal, &mut 0).unwrap();
    assert_eq!(r.kind, FindingKind::DangerousPattern);
    assert_eq!(r.confidence_pct, 60);
}

#[test]
fn severity_medium_at_limit_plus_one() {
    let r = dangerous_pattern::analyze(&test_file("src/lib.rs"), &dp(6), &Threshold::Normal, &mut 0).unwrap();
    assert_eq!(r.severity, Severity::Medium);
}

#[test]
fn severity_high_at_limit_double() {
    let r = dangerous_pattern::analyze(&test_file("src/lib.rs"), &dp(10), &Threshold::Normal, &mut 0).unwrap();
    assert_eq!(r.severity, Severity::High);
}

#[test]
fn severity_critical_at_limit_triple() {
    let r = dangerous_pattern::analyze(&test_file("src/lib.rs"), &dp(15), &Threshold::Normal, &mut 0).unwrap();
    assert_eq!(r.severity, Severity::Critical);
}

#[test]
fn dangerous_pattern_evidence_contains_count_and_limit() {
    let r = dangerous_pattern::analyze(&test_file("src/lib.rs"), &dp(8), &Threshold::Normal, &mut 0).unwrap();
    assert!(has(&r.evidence, "dangerous_pattern_count: 8"), "evidence should include actual count");
    assert!(has(&r.evidence, "limit: 5"), "evidence should include threshold limit");
}

#[test]
fn dangerous_pattern_counter_increments() {
    let mut c = 0;
    dangerous_pattern::analyze(&test_file("src/lib.rs"), &dp(6), &Threshold::Normal, &mut c);
    dangerous_pattern::analyze(&test_file("src/lib.rs"), &dp(6), &Threshold::Normal, &mut c);
    assert_eq!(c, 2);
}

// ---------------------------------------------------------------- deep nesting

fn dn_file() -> RustFile {
    RustFile {
        path: "src/nested.rs".to_string(),
        relative_path: "src/nested.rs".to_string(),
        package_name: "krate".to_string(),
        size_bytes: 1000,
        line_count: 50,
    }
}

fn dn(depth: usize) -> FileStructure {
    FileStructure {
        path: "src/nested.rs".to_string(),
        max_nesting_depth: depth,
        ..Default::default()
    }
}

#[test]
fn deep_nesting_no_finding_below_limit() {
    assert!(deep_nesting::analyze(&dn_file(), &dn(5), &Threshold::Normal, &mut 0).is_none());
}

#[test]
fn deep_nesting_medium_at_limit_plus_one() {
    let r = deep_nesting::analyze(&dn_file(), &dn(7), &Threshold::Normal, &mut 0).unwrap();
    assert_eq!(r.severity, Severity::Medium);
    assert_eq!(r.confidence_pct, 85);
}

#[test]
fn deep_nesting_high_at_limit_plus_2() {
    let r = deep_nesting::analyze(&dn_file(), &dn(8), &Threshold::Normal, &mut 0).unwrap();
    assert_eq!(r.severity, Severity::High);
}

#[test]
fn critical_at_limit_plus_4() {
    let r = deep_nesting::analyze(&dn_file(), &dn(10), &Threshold::Normal, &mut 0).unwrap();
    assert_eq!(r.severity, Severity::Critical);
}

#[test]
fn id_uses_dn_prefix() {
    let r = deep_nesting::analyze(&dn_file(), &dn(7), &Threshold::Normal, &mut 0).unwrap();
    assert!(r.id.starts_with("dn-"));
}

#[test]
fn no_finding_at_strict_limit() {
    assert!(deep_nesting::analyze(&dn_file(), &dn(4), &Threshold::Strict, &mut 0).is_none());
}

#[test]
fn finding_at_relaxed_limit_plus_one() {
    let r = deep_nesting::analyze(&dn_file(), &dn(9), &Threshold::Relaxed, &mut 0).unwrap();
    assert_eq!(r.severity, Severity::Medium);
}

#[test]
fn deep_nesting_counter_increments() {
    let mut c = 0;
    deep_nesting::analyze(&dn_file(), &dn(7), &Threshold::Normal, &mut c);
    deep_nesting::analyze(&dn_file(), &dn(7), &Threshold::Normal, &mut c);
    assert_eq!(c, 2);
}

#[test]
fn evidence_contains_max_depth_and_limit() {
    let r = deep_nesting::analyze(&dn_file(), &dn(7), &Threshold::Normal, &mut 0).unwrap();
    assert!(starts(&r.evidence, "max_depth: 7"));
    assert!(starts(&r.evidence, "limit: 6"));
}
