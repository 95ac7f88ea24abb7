use repo_gc::cli::Threshold;
use repo_gc::discovery::files::RustFile;
use repo_gc::heuristics::test_utils::{test_file, test_file_sized, test_structure};
use repo_gc::heuristics::{error_swallow, implicit_control, platform_density, stringly_typed, type_complexity};
use repo_gc::parsing::extractor::FileStructure;
use repo_gc::types::{FindingKind, Severity};

fn has(evidence: &[String], needle: &str) -> bool {
    evidence.iter().any(|e| e.contains(needle))
}

fn starts(evidence: &[String], prefix: &str) -> bool {
    evidence.iter().any(|e| e.starts_with(prefix))
}

// ---------------------------------------------------------------- error swallow

fn es(count: usize) -> FileStructure {
    FileStructure {
        empty_catch_count: count,
        path: "src/test.rs".to_string(),
        ..Default::default()
    }
}

#[test]
fn error_swallow_no_finding_at_normal_limit() {
    assert!(error_swallow::analyze(&test_file("src/test.rs"), &es(2), &Threshold::Normal, &mut 0).is_none());
}

#[test]
fn error_swallow_no_finding_below_strict_limit() {
    assert!(error_swallow::analyze(&test_file("src/test.rs"), &es(1), &Threshold::Strict, &mut 0).is_none());
}

#[test]
fn error_swallow_no_finding_below_relaxed_limit() {
    assert!(error_swallow::analyze(&test_file("src/test.rs"), &es(3), &Threshold::Relaxed, &mut 0).is_none());
}

#[test]
fn error_swallow_finding_above_limit() {
    let r = error_swallow::analyze(&test_file("src/test.rs"), &es(3), &Threshold::Normal, &mut 0).unwrap();
    assert_eq!(r.kind, FindingKind::ErrorSwallow);
    assert_eq!(r.confidence_pct, 40);
}

#[test]
fn severity_low_at_two_strict() {
    let r = error_swallow::analyze(&test_file("src/test.rs"), &es(2), &Threshold::Strict, &mut 0).unwrap();
    assert_eq!(r.severity, Severity::Low);
}

#[test]
fn severity_medium_at_three() {
    let r = error_swallow::analyze(&test_file("src/test.rs"), &es(3), &Threshold::Normal, &mut 0).unwrap();
    assert_eq!(r.severity, Severity::Medium);
}

#[test]
fn severity_high_at_five() {
    let r = error_swallow::analyze(&test_file("src/test.rs"), &es(5), &Threshold::Normal, &mut 0).unwrap();
    assert_eq!(r.severity, Severity::High);
}

#[test]
fn error_swallow_evidence_contains_count_and_limit() {
    let r = error_swallow::analyze(&test_file("src/test.rs"), &es(5), &Threshold::Normal, &mut 0).unwrap();
    assert!(has(&r.evidence, "empty_catch_count: 5"), "evidence should include actual count");
    assert!(has(&r.evidence, "limit: 2"), "evidence should include threshold limit");
}

#[test]
fn error_swallow_counter_increments() {
    let mut c = 0;
    error_swallow::analyze(&test_file("src/test.rs"), &es(3), &Threshold::Normal, &mut c);
    error_swallow::analyze(&test_file("src/test.rs"), &es(3), &Threshold::Normal, &mut c);
    assert_eq!(c, 2);
}

#[test]
fn error_swallow_id_prefix() {
    let r = error_swallow::analyze(&test_file("src/test.rs"), &es(3), &Threshold::Normal, &mut 0).unwrap();
    assert_eq!(r.id, "es-001");
    assert_eq!(r.path, "src/test.rs");
}

// ---------------------------------------------------------------- implicit control

fn ic_file() -> RustFile {
    RustFile {
        path: "src/foo.rs".to_string(),
        relative_path: "src/foo.rs".to_string(),
        package_name: "krate".to_string(),
        size_bytes: 1000,
        line_count: 50,
    }
}

fn ic(decorators: usize, fns: usize) -> FileStructure {
    FileStructure {
        path: "src/foo.rs".to_string(),
        decorator_count: decorators,
        function_count: fns,
        ..Default::default()
    }
}

#[test]
fn implicit_control_no_finding_below_limit() {
    let r = implicit_control::analyze(&ic_file(), &ic(1, 2), &Threshold::Normal, &mut 0);
    assert!(r.is_none());
}

#[test]
fn low_at_limit_plus_one() {
    let r = implicit_control::analyze(&ic_file(), &ic(2, 2), &Threshold::Normal, &mut 0).unwrap();
    assert_eq!(r.severity, Severity::Low);
    assert_eq!(r.confidence_pct, 40);
}

#[test]
fn medium_at_2x_limit() {
    let r = implicit_control::analyze(&ic_file(), &ic(2, 3), &Threshold::Strict, &mut 0).unwrap();
    assert_eq!(r.severity, Severity::Medium);
}

#[test]
fn high_at_3x_limit() {
    let r = implicit_control::analyze(&ic_file(), &ic(3, 2), &Threshold::Strict, &mut 0).unwrap();
    assert_eq!(r.severity, Severity::High);
}

#[test]
fn id_uses_ic_prefix() {
    let r = implicit_control::analyze(&ic_file(), &ic(2, 2), &Threshold::Normal, &mut 0).unwrap();
    assert!(r.id.starts_with("ic-"));
}

#[test]
fn evidence_contains_decorator_count_and_ratio() {
    let r = implicit_control::analyze(&ic_file(), &ic(3, 2), &Threshold::Normal, &mut 0).unwrap();
    assert!(starts(&r.evidence, "decorator_count: 3"));
    assert!(starts(&r.evidence, "function_count: 2"));
    assert!(starts(&r.evidence, "ratio:"));
    assert!(starts(&r.evidence, "limit:"));
}

#[test]
fn implicit_control_counter_increments() {
    let mut c = 0;
    implicit_control::analyze(&ic_file(), &ic(3, 2), &Threshold::Normal, &mut c);
    implicit_control::analyze(&ic_file(), &ic(3, 2), &Threshold::Normal, &mut c);
    assert_eq!(c, 2);
}

#[test]
fn implicit_control_no_functions_counts_one() {
    let r = implicit_control::analyze(&ic_file(), &ic(1, 0), &Threshold::Normal, &mut 0).unwrap();
    assert!(starts(&r.evidence, "function_count: 1"));
}

// ---------------------------------------------------------------- stringly typed

fn st(count: usize) -> FileStructure {
    FileStructure {
        string_comparison_count: count,
        path: "src/lib.rs".to_string(),
        ..Default::default()
    }
}

#[test]
fn stringly_typed_no_finding_at_normal_limit() {
    assert!(stringly_typed::analyze(&test_file("src/lib.rs"), &st(10), &Threshold::Normal, &mut 0).is_none());
}

#[test]
fn stringly_typed_no_finding_below_strict_limit() {
    assert!(stringly_typed::analyze(&test_file("src/lib.rs"), &st(5), &Threshold::Strict, &mut 0).is_none());
}

#[test]
fn stringly_typed_no_finding_below_relaxed_limit() {
    assert!(stringly_typed::analyze(&test_file("src/lib.rs"), &st(15), &Threshold::Relaxed, &mut 0).is_none());
}

#[test]
fn stringly_typed_finding_above_limit() {
    let r = stringly_typed::analyze(&test_file("src/lib.rs"), &st(11), &Threshold::Normal, &mut 0).unwrap();
    assert_eq!(r.kind, FindingKind::StringlyTyped);
    assert_eq!(r.confidence_pct, 65);
}

#[test]
fn severity_low_at_limit_plus_one() {
    let r = stringly_typed::analyze(&test_file("src/lib.rs"), &st(11), &Threshold::Normal, &mut 0).unwrap();
    assert_eq!(r.severity, Severity::Low);
}

#[test]
fn severity_medium_at_limit_double() {
    let r = stringly_typed::analyze(&test_file("src/lib.rs"), &st(20), &Threshold::Normal, &mut 0).unwrap();
    assert_eq!(r.severity, Severity::Medium);
}

#[test]
fn severity_high_at_limit_triple() {
    let r = stringly_typed::analyze(&test_file("src/lib.rs"), &st(30), &Threshold::Normal, &mut 0).unwrap();
    assert_eq!(r.severity, Severity::High);
}

#[test]
fn stringly_typed_evidence_contains_count_and_limit() {
    let r = stringly_typed::analyze(&test_file("src/lib.rs"), &st(15), &Threshold::Normal, &mut 0).unwrap();
    assert!(has(&r.evidence, "string_comparison_count: 15"), "evidence should include actual count");
    assert!(has(&r.evidence, "limit: 10"), "evidence should include threshold limit");
}

#[test]
fn stringly_typed_counter_increments() {
    let mut c = 0;
    stringly_typed::analyze(&test_file("src/lib.rs"), &st(11), &Threshold::Normal, &mut c);
    stringly_typed::analyze(&test_file("src/lib.rs"), &st(11), &Threshold::Normal, &mut c);
    assert_eq!(c, 2);
}

// ---------------------------------------------------------------- type complexity

fn tc_file() -> RustFile {
    RustFile {
        path: "src/foo.rs".to_string(),
        relative_path: "src/foo.rs".to_string(),
        package_name: "krate".to_string(),
        size_bytes: 1000,
        line_count: 50,
    }
}

fn tc(depth: usize) -> FileStructure {
    FileStructure {
        path: "src/foo.rs".to_string(),
        max_type_depth: depth,
        ..Default::default()
    }
}

#[test]
fn type_complexity_no_finding_below_limit() {
    assert!(type_complexity::analyze(&tc_file(), &tc(3), &Threshold::Normal, &mut 0).is_none());
}

#[test]
fn type_complexity_medium_at_limit_plus_one() {
    let r = type_complexity::analyze(&tc_file(), &tc(5), &Threshold::Normal, &mut 0).unwrap();
    assert_eq!(r.severity, Severity::Medium);
    assert_eq!(r.confidence_pct, 50);
}

#[test]
fn type_complexity_high_at_limit_plus_2() {
    let r = type_complexity::analyze(&tc_file(), &tc(6), &Threshold::Normal, &mut 0).unwrap();
    assert_eq!(r.severity, Severity::High);
}

#[test]
fn critical_at_limit_plus_3() {
    let r = type_complexity::analyze(&tc_file(), &tc(7), &Threshold::Normal, &mut 0).unwrap();
    assert_eq!(r.severity, Severity::Critical);
}

#[test]
fn id_uses_tc_prefix() {
    let r = type_complexity::analyze(&tc_file(), &tc(5), &Threshold::Normal, &mut 0).unwrap();
    assert!(r.id.starts_with("tc-"));
}

#[test]
fn evidence_contains_depth_and_limit() {
    let r = type_complexity::analyze(&tc_file(), &tc(5), &Threshold::Normal, &mut 0).unwrap();
    assert!(starts(&r.evidence, "max_type_depth: 5"));
    assert!(starts(&r.evidence, "limit: 4"));
}

#[test]
fn type_complexity_at_limit_is_quiet() {
    let mut c = 3;
    assert!(type_complexity::analyze(&tc_file(), &tc(4), &Threshold::Normal, &mut c).is_none());
    assert_eq!(c, 3);
}

// ---------------------------------------------------------------- platform density

#[test]
fn platform_density_never_fires() {
    let mut c = 0;
    let s = FileStructure {
        function_count: 100,
        branch_count: 1000,
        dangerous_pattern_count: 50,
        ..test_structure("src/lib.rs")
    };
    assert!(platform_density::analyze(&test_file_sized("src/lib.rs", 5000, 200000), &s, &Threshold::Strict, &mut c).is_none());
    assert_eq!(c, 0);
}
