use repo_gc::canonical::{kind_ids, kind_label, kind_llm_code, severity_ids, severity_label, severity_llm_label, threshold_values};
use repo_gc::cli::Threshold;
use repo_gc::parsing::extractor::{is_test_file, module_path_from_relative, qualified_module_path};
use repo_gc::parsing::root_layout;
use repo_gc::types::{id_for, next_finding_id, parse_finding_kind, parse_severity, sort_by_severity, Finding, FindingKind, Severity};

#[test]
fn extractor_module_path_flat_file() {
    assert_eq!(module_path_from_relative("src/foo.rs"), "foo");
    assert_eq!(root_layout::module_path_from_relative("src/foo.rs"), "foo");
}

#[test]
fn extractor_module_path_nested() {
    assert_eq!(module_path_from_relative("src/foo/bar.rs"), "foo::bar");
    assert_eq!(root_layout::module_path_from_relative("src/foo/bar.rs"), "foo::bar");
}

#[test]
fn extractor_module_path_mod_rs_drops_mod() {
    assert_eq!(module_path_from_relative("src/foo/mod.rs"), "foo");
    assert_eq!(root_layout::module_path_from_relative("src/foo/mod.rs"), "foo");
}

#[test]
fn extractor_module_path_without_src_prefix() {
    assert_eq!(module_path_from_relative("foo/bar.rs"), "foo::bar");
    assert_eq!(root_layout::module_path_from_relative("foo/bar.rs"), "foo::bar");
}

#[test]
fn extractor_qualified_path_prepends_package() {
    assert_eq!(qualified_module_path("my_crate", "foo::bar"), "my_crate::foo::bar");
}

#[test]
fn extractor_qualified_path_empty_unqualified() {
    assert_eq!(qualified_module_path("my_crate", ""), "my_crate");
}

#[test]
fn is_test_file_detects_test_in_name() {
    assert!(is_test_file("src/test_foo.rs"));
    assert!(is_test_file("src/foo_test.rs"));
    assert!(is_test_file("src/tests/foo.rs"));
    assert!(!is_test_file("src/lib.rs"));
    assert!(!is_test_file("src/main.rs"));
    assert!(!is_test_file("src/foo.rs"));
}

#[test]
fn canonical_json_matches_enum_variants() {
    for &id in kind_ids().iter() {
        assert!(id.parse::<FindingKind>().is_ok(), "unknown FindingKind variant: {id}",);
    }
    for &id in severity_ids().iter() {
        assert!(id.parse::<Severity>().is_ok(), "unknown Severity variant: {id}",);
    }
}

#[test]
fn finding_kind_labels_are_stable() {
    assert_eq!(FindingKind::ContextBomb.label(), "context-bomb");
    assert_eq!(FindingKind::CouplingHotspot.label(), "coupling-hotspot");
    assert_eq!(FindingKind::BranchDensity.label(), "branch-density");
    assert_eq!(FindingKind::DeepNesting.label(), "deep-nesting");
    assert_eq!(FindingKind::TypeComplexity.label(), "type-complexity");
    assert_eq!(FindingKind::CommentRatio.label(), "comment-ratio");
    assert_eq!(FindingKind::ImplicitControl.label(), "implicit-control");
    assert_eq!(FindingKind::ErrorSwallow.label(), "error-swallow");
    assert_eq!(FindingKind::DangerousPattern.label(), "dangerous-pattern");
    assert_eq!(FindingKind::NamingEntropy.label(), "naming-entropy");
    assert_eq!(FindingKind::StringlyTyped.label(), "stringly-typed");
    assert_eq!(FindingKind::ImportDiversity.label(), "import-diversity");
}

#[test]
fn finding_kind_llm_labels_are_stable() {
    assert_eq!(FindingKind::ContextBomb.llm_label(), "OVS");
    assert_eq!(FindingKind::BranchDensity.llm_label(), "BRAN");
    assert_eq!(FindingKind::DeepNesting.llm_label(), "NEST");
    assert_eq!(FindingKind::TypeComplexity.llm_label(), "TYPE");
    assert_eq!(FindingKind::CommentRatio.llm_label(), "CMNT");
    assert_eq!(FindingKind::ImplicitControl.llm_label(), "HIDE");
    assert_eq!(FindingKind::ErrorSwallow.llm_label(), "SWAL");
    assert_eq!(FindingKind::DangerousPattern.llm_label(), "DANG");
    assert_eq!(FindingKind::NamingEntropy.llm_label(), "MIXD");
    assert_eq!(FindingKind::StringlyTyped.llm_label(), "STRY");
    assert_eq!(FindingKind::ImportDiversity.llm_label(), "GODF");
}

#[test]
fn kind_names_round_trip() {
    for &id in kind_ids().iter() {
        let k = parse_finding_kind(id).unwrap();
        assert_eq!(k.name_str(), id);
        assert_eq!(k.label(), kind_label(id));
        assert_eq!(k.llm_label(), kind_llm_code(id));
    }
    assert_eq!(kind_ids().len(), 16);
}

#[test]
fn severity_names_round_trip() {
    for &id in severity_ids().iter() {
        let s = parse_severity(id).unwrap();
        assert_eq!(s.name_str(), id);
        assert_eq!(s.label(), severity_label(id));
        assert_eq!(s.llm_label(), severity_llm_label(id));
    }
    assert_eq!(severity_ids(), vec!["Critical", "High", "Medium", "Low"]);
}

#[test]
fn unknown_names_are_refused() {
    assert!(parse_finding_kind("Nope").is_err());
    assert!(parse_severity("critical").is_err());
    assert!("".parse::<Severity>().is_err());
}

#[test]
fn severity_labels() {
    assert_eq!(Severity::Critical.label(), "CRITICAL");
    assert_eq!(Severity::High.llm_label(), "H");
    assert_eq!(Severity::Low.rank_exec(), 0);
    assert_eq!(Severity::Critical.rank_exec(), 3);
}

#[test]
fn finding_ids_are_zero_padded_and_counted() {
    assert_eq!(id_for("cb", 1), "cb-001");
    assert_eq!(id_for("dup", 1234), "dup-1234");
    let mut c = 41;
    assert_eq!(next_finding_id("dw", &mut c), "dw-042");
    assert_eq!(c, 42);
}

fn finding(id: &str, severity: Severity) -> Finding {
    Finding::new(id.to_string(), FindingKind::ContextBomb, severity, 90, "src/lib.rs".to_string(), vec![])
}

#[test]
fn sort_by_severity_is_stable_and_most_severe_first() {
    let fs = vec![
        finding("a", Severity::Low),
        finding("b", Severity::High),
        finding("c", Severity::Critical),
        finding("d", Severity::High),
        finding("e", Severity::Medium),
    ];
    let sorted = sort_by_severity(fs);
    let ids: Vec<&str> = sorted.iter().map(|f| f.id.as_str()).collect();
    assert_eq!(ids, vec!["c", "b", "d", "e", "a"]);
}

#[test]
fn threshold_levels_match_table() {
    let strict = threshold_values("strict");
    assert_eq!(strict.line_count_limit, 300);
    assert_eq!(strict.fan_in_limit, 5);
    assert_eq!(strict.fan_out_limit, 10);
    assert_eq!(strict.reexport_limit, 5);
    let normal = threshold_values("normal");
    assert_eq!((normal.line_count_limit, normal.fan_in_limit, normal.fan_out_limit, normal.reexport_limit), (500, 10, 15, 10));
    let relaxed = threshold_values("relaxed");
    assert_eq!((relaxed.line_count_limit, relaxed.fan_in_limit, relaxed.fan_out_limit, relaxed.reexport_limit), (1000, 20, 25, 20));
    assert_eq!(Threshold::Normal.level(), "normal");
    assert_eq!(Threshold::Strict.line_count_limit(), 300);
    assert_eq!(Threshold::Relaxed.fan_out_limit(), 25);
}

#[test]
fn stricter_levels_have_tighter_limits() {
    for (a, b) in [(Threshold::Strict, Threshold::Normal), (Threshold::Normal, Threshold::Relaxed)] {
        assert!(a.line_count_limit() <= b.line_count_limit());
        assert!(a.fan_in_limit() <= b.fan_in_limit());
        assert!(a.comment_ratio_min_bp() >= b.comment_ratio_min_bp());
        assert!(a.comment_ratio_max_bp() <= b.comment_ratio_max_bp());
        assert!(a.import_domain_limit() <= b.import_domain_limit());
    }
}

#[test]
fn test_file_detection_ignores_case() {
    assert!(is_test_file("src/TESTS/foo.rs"));
    assert!(is_test_file("src/Foo_TEST.rs"));
    assert!(is_test_file("src/SpecHelpers.rs"));
    assert!(!is_test_file("src/Contest/foo.rs"));
    assert!(is_test_file("src/attestation.rs"));
}
