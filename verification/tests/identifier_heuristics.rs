use repo_gc::cli::Threshold;
use repo_gc::discovery::files::RustFile;
use repo_gc::heuristics::duplication::{analyze_duplicates, duplicates_from};
use repo_gc::heuristics::{import_diversity, naming_entropy, unused_imports};
use repo_gc::parsing::extractor::{FileStructure, PubUseEntry};
use repo_gc::types::{FindingKind, Severity};

// ---------------------------------------------------------------- duplication

fn dups(structures: &Vec<FileStructure>, counter: &mut usize) -> Vec<repo_gc::types::Finding> {
    analyze_duplicates(structures, counter)
}

fn mks(path: &str, fn_name: &str, body: &str) -> FileStructure {
    FileStructure {
        path: path.to_string(),
        relative_path: path.to_string(),
        package_name: "krate".into(),
        mod_path: format!("krate::{}", path.replace('/', "::")),
        function_bodies: vec![(fn_name.into(), body.into())],
        ..Default::default()
    }
}

#[test]
fn no_findings_for_unique_bodies() {
    let s = vec![
        mks("src/a.rs", "foo", "{ let x = 1 + 2 + 3 + 4 + 5 + 6 + 7 + 8 + 9 + 10 ; x }"),
        mks("src/b.rs", "bar", "{ let y = 1 * 2 * 3 * 4 * 5 * 6 * 7 * 8 * 9 * 10 ; y }"),
    ];
    assert!(dups(&s, &mut 0).is_empty());
}

#[test]
fn detects_duplicate_across_files() {
    let body = "{ let x = some_function ( ) + another_function ( ) ; x * 2 + offset }";
    let s = vec![mks("src/a.rs", "compute", body), mks("src/b.rs", "compute", body)];
    let findings = dups(&s, &mut 0);
    assert_eq!(findings.len(), 1);
    assert_eq!(findings[0].kind, FindingKind::CodeDuplication);
}

#[test]
fn same_body_in_one_file_not_flagged() {
    let body = "{ let x = some_function ( ) + another_function ( ) ; x * 2 + offset }";
    let s = vec![mks("src/a.rs", "foo", body), mks("src/a.rs", "bar", body)];
    assert!(dups(&s, &mut 0).is_empty());
}

#[test]
fn short_bodies_ignored() {
    let s = vec![mks("src/a.rs", "new", "{ Self { } }"), mks("src/b.rs", "new", "{ Self { } }")];
    assert!(dups(&s, &mut 0).is_empty());
}

#[test]
fn severity_scales_with_file_count() {
    let body = "{ let result = alpha ( ) + beta ( ) + gamma ( ) + delta ( ) + epsilon ( ) }";
    let s: Vec<_> = (0..5).map(|i| mks(&format!("src/file{i}.rs"), "work", body)).collect();
    let findings = dups(&s, &mut 0);
    assert_eq!(findings[0].severity, Severity::High);
}

#[test]
fn trivial_single_stmt_body_is_filtered() {
    let body = "{ encode_impl ( pieces , p_r , p_f , lo , hi , shared_pfx ) }";
    let s = vec![mks("src/a.rs", "compute", body), mks("src/b.rs", "compute", body)];
    assert!(dups(&s, &mut 0).is_empty());
}

#[test]
fn test_only_name_is_filtered() {
    let body = "{ let x = a + b + c + d + e + f + g + h + i + j ; x }";
    let s = vec![mks("src/a.rs", "encode_for_test", body), mks("src/b.rs", "encode_for_test", body)];
    assert!(dups(&s, &mut 0).is_empty());
}

#[test]
fn type2_clone_renamed_variables_detected() {
    let body1 = "{ let x = a + b + c + d + e + f + g + h + i + j + k + l + m + n + o + p + q ; x }";
    let body2 = "{ let y = x1 + x2 + x3 + x4 + x5 + x6 + x7 + x8 + x9 + a + b + c + d + e + f + g + h ; y }";
    let s = vec![mks("src/a.rs", "compute", body1), mks("src/b.rs", "compute", body2)];
    let findings = dups(&s, &mut 0);
    assert_eq!(findings.len(), 1);
}

#[test]
fn type2_clone_different_return_var_detected() {
    let body1 = "{ let total = price + tax + shipping + handling + duty + fee ; total }";
    let body2 = "{ let sum = cost + vat + delivery + surcharge + tariff + charge ; sum }";
    let s = vec![mks("src/a.rs", "calc", body1), mks("src/b.rs", "calc", body2)];
    let findings = dups(&s, &mut 0);
    assert_eq!(findings.len(), 1);
}

#[test]
fn different_operators_not_flagged() {
    let body1 = "{ let x = a + b + c + d + e + f + g + h ; x }";
    let body2 = "{ let y = p * q * r * s * t * u * v * w ; y }";
    let s = vec![mks("src/a.rs", "add", body1), mks("src/b.rs", "mul", body2)];
    assert!(dups(&s, &mut 0).is_empty());
}

#[test]
fn multistmt_body_not_filtered_as_trivial() {
    let body = "{ let x = a + b + c + d + e + f + g + h + i + j + k + l + m + n + o + p ; x + 1 }";
    let s = vec![mks("src/a.rs", "compute", body), mks("src/b.rs", "compute", body)];
    let findings = dups(&s, &mut 0);
    assert_eq!(findings.len(), 1);
}

#[test]
fn empty_body_is_trivial() {
    let s = vec![mks("src/a.rs", "empty", "{ }"), mks("src/b.rs", "empty", "{ }")];
    assert!(dups(&s, &mut 0).is_empty());
}

#[test]
fn duplicate_finding_in_full_and_high_first() {
    let low = "{ let x = some_function ( ) + another_function ( ) ; x * 2 + offset }";
    let high = "{ let result = alpha ( ) + beta ( ) + gamma ( ) + delta ( ) + epsilon ( ) }";
    let mut s = vec![mks("src/a.rs", "first", low), mks("src/b.rs", "second", low)];
    for i in 0..5 {
        s.push(mks(&format!("src/h{i}.rs"), "work", high));
    }
    let mut c = 10;
    let findings = dups(&s, &mut c);
    assert_eq!(c, 12);
    assert_eq!(findings.len(), 2);
    // the groups are numbered in order of first occurrence, listed most severe first
    assert_eq!(findings[0].id, "dup-012");
    assert_eq!(findings[0].severity, Severity::High);
    assert_eq!(findings[0].path, "src/h0.rs");
    assert_eq!(
        findings[0].evidence,
        vec![
            "file_count: 5".to_string(),
            "fn_name: work".to_string(),
            "files: src/h0.rs, src/h1.rs, src/h2.rs, src/h3.rs, src/h4.rs".to_string(),
        ]
    );
    assert_eq!(findings[1].id, "dup-011");
    assert_eq!(findings[1].severity, Severity::Low);
    assert_eq!(findings[1].path, "src/a.rs");
    assert_eq!(findings[1].confidence_pct, 85);
}

// ---------------------------------------------------------------- import diversity

fn id_file(name: &str) -> RustFile {
    RustFile {
        path: name.to_string(),
        relative_path: name.to_string(),
        package_name: "krate".to_string(),
        size_bytes: 100,
        line_count: 10,
    }
}

fn ids(use_paths: Vec<&str>, pub_use_paths: Vec<&str>) -> FileStructure {
    FileStructure {
        use_paths: use_paths.into_iter().map(String::from).collect(),
        pub_use_paths: pub_use_paths
            .into_iter()
            .map(|p| PubUseEntry { path: p.to_string(), item_count: 1, is_wildcard: false })
            .collect(),
        ..Default::default()
    }
}

fn numbered(prefix: &str, from: usize, to: usize, suffix: &str) -> Vec<String> {
    (from..=to).map(|i| format!("{}_{}::{}", prefix, i, suffix)).collect()
}

fn refs(v: &[String]) -> Vec<&str> {
    v.iter().map(String::as_str).collect()
}

#[test]
fn import_diversity_no_finding_below_limit() {
    let paths = vec!["std::collections::HashMap", "serde::Serialize", "tokio::runtime"];
    let r = import_diversity::analyze(&id_file("src/test.rs"), &ids(paths, vec![]), &Threshold::Normal, &mut 0);
    assert!(r.is_none());
}

#[test]
fn import_diversity_no_finding_at_exact_limit() {
    let paths = numbered("crate", 1, 10, "foo");
    let r = import_diversity::analyze(&id_file("src/test.rs"), &ids(refs(&paths), vec![]), &Threshold::Normal, &mut 0);
    assert!(r.is_none());
}

#[test]
fn import_diversity_finding_above_limit() {
    let paths = numbered("crate", 1, 12, "foo");
    let r = import_diversity::analyze(&id_file("src/test.rs"), &ids(refs(&paths), vec![]), &Threshold::Normal, &mut 0);
    assert!(r.is_some());
    let f = r.unwrap();
    assert_eq!(f.kind, FindingKind::ImportDiversity);
    assert_eq!(f.confidence_pct, 70);
}

#[test]
fn severity_low_at_limit() {
    let paths = numbered("crate", 1, 11, "foo");
    let r = import_diversity::analyze(&id_file("src/test.rs"), &ids(refs(&paths), vec![]), &Threshold::Normal, &mut 0);
    assert_eq!(r.unwrap().severity, Severity::Low);
}

#[test]
fn severity_medium_at_double_limit() {
    let paths = numbered("crate", 1, 20, "foo");
    let r = import_diversity::analyze(&id_file("src/test.rs"), &ids(refs(&paths), vec![]), &Threshold::Normal, &mut 0);
    assert_eq!(r.unwrap().severity, Severity::Medium);
}

#[test]
fn severity_high_at_triple_limit() {
    let paths = numbered("crate", 1, 30, "foo");
    let r = import_diversity::analyze(&id_file("src/test.rs"), &ids(refs(&paths), vec![]), &Threshold::Normal, &mut 0);
    assert_eq!(r.unwrap().severity, Severity::High);
}

#[test]
fn skips_relative_imports() {
    let paths = vec!["self::inner::helper", "super::parent::util", "std::collections"];
    let r = import_diversity::analyze(&id_file("src/test.rs"), &ids(paths, vec![]), &Threshold::Normal, &mut 0);
    assert!(r.is_none());
}

#[test]
fn handles_crate_prefix() {
    let paths = vec!["crate::foo::bar", "crate::baz::qux", "std::collections"];
    let r = import_diversity::analyze(&id_file("src/test.rs"), &ids(paths, vec![]), &Threshold::Normal, &mut 0);
    assert!(r.is_none());
}

#[test]
fn combines_use_and_pub_use() {
    let use_paths = vec!["std::collections::HashMap", "serde::Serialize"];
    let pub_use_paths = vec!["tokio::runtime::Runtime", "reqwest::Client"];
    let r = import_diversity::analyze(&id_file("src/test.rs"), &ids(use_paths, pub_use_paths), &Threshold::Strict, &mut 0);
    assert!(r.is_none());

    let many_use = numbered("dep", 1, 5, "foo");
    let many_pub = numbered("dep", 6, 10, "bar");
    let r = import_diversity::analyze(
        &id_file("src/test.rs"),
        &ids(refs(&many_use), refs(&many_pub)),
        &Threshold::Strict,
        &mut 0,
    );
    assert!(r.is_some());
    assert_eq!(r.unwrap().severity, Severity::Low);
}

#[test]
fn handles_renamed_imports() {
    let paths = vec!["Bar as baz", "Baz as qux", "std::collections"];
    let r = import_diversity::analyze(&id_file("src/test.rs"), &ids(paths, vec![]), &Threshold::Normal, &mut 0);
    assert!(r.is_none());
}

#[test]
fn import_diversity_counter_increments() {
    let many = numbered("dep", 1, 15, "foo");
    let mut c = 0;
    import_diversity::analyze(&id_file("src/test.rs"), &ids(refs(&many), vec![]), &Threshold::Normal, &mut c);
    import_diversity::analyze(&id_file("src/test.rs"), &ids(refs(&many), vec![]), &Threshold::Normal, &mut c);
    assert_eq!(c, 2);
}

#[test]
fn evidence_contains_domain_count_and_limit() {
    let paths = numbered("dep", 1, 12, "foo");
    let r = import_diversity::analyze(&id_file("src/test.rs"), &ids(refs(&paths), vec![]), &Threshold::Normal, &mut 0);
    let f = r.unwrap();
    assert!(f.evidence.iter().any(|e| e.contains("domain_count: 12")));
    assert!(f.evidence.iter().any(|e| e.contains("limit: 10")));
    assert!(f.evidence.iter().any(|e| e.starts_with("domains: ")));
}

#[test]
fn import_domains_are_sorted_and_distinct() {
    let paths = vec!["zeta::a", "alpha::b", "zeta::c", "crate::mid::x", "beta as b2", "gamma", "delta::e", "eps::f", "phi::g", "psi::h"];
    let r = import_diversity::analyze(&id_file("src/test.rs"), &ids(paths, vec![]), &Threshold::Strict, &mut 0).unwrap();
    assert_eq!(
        r.evidence,
        vec![
            "domain_count: 9".to_string(),
            "domains: alpha, beta, delta, eps, gamma, mid, phi, psi".to_string(),
            "limit: 8".to_string(),
        ]
    );
    assert_eq!(r.id, "id-001");
}

// ---------------------------------------------------------------- naming entropy

fn ne_file() -> RustFile {
    RustFile {
        path: "src/mixed.rs".to_string(),
        relative_path: "src/mixed.rs".to_string(),
        package_name: "krate".to_string(),
        size_bytes: 1000,
        line_count: 50,
    }
}

fn ne(idents: Vec<String>) -> FileStructure {
    FileStructure { path: "src/mixed.rs".to_string(), all_identifiers: idents, ..Default::default() }
}

fn make_mixed_idents() -> Vec<String> {
    let mut idents = vec![];
    for i in 0..6 {
        idents.push(format!("snake_val_{}", i));
    }
    for i in 0..6 {
        idents.push(format!("camelValue{}", i));
    }
    for i in 0..6 {
        idents.push(format!("PascalType{}", i));
    }
    idents
}

#[test]
fn no_finding_too_few_identifiers() {
    let idents = vec!["x".into(), "y".into(), "foo".into(), "bar".into()];
    assert!(naming_entropy::analyze(&ne_file(), &ne(idents), &Threshold::Normal, &mut 0).is_none());
}

#[test]
fn no_finding_consistent_snake_case() {
    let idents: Vec<String> = (0..15).map(|i| format!("snake_case_{}", i)).collect();
    assert!(naming_entropy::analyze(&ne_file(), &ne(idents), &Threshold::Normal, &mut 0).is_none());
}

#[test]
fn finding_mixed_conventions() {
    let r = naming_entropy::analyze(&ne_file(), &ne(make_mixed_idents()), &Threshold::Normal, &mut 0).unwrap();
    assert_eq!(r.kind, FindingKind::NamingEntropy);
    assert_eq!(r.severity, Severity::Low);
    assert_eq!(r.confidence_pct, 50);
}

#[test]
fn id_uses_ne_prefix() {
    let r = naming_entropy::analyze(&ne_file(), &ne(make_mixed_idents()), &Threshold::Normal, &mut 0).unwrap();
    assert!(r.id.starts_with("ne-"));
}

#[test]
fn naming_entropy_counter_increments() {
    let idents = make_mixed_idents();
    let mut c = 0;
    naming_entropy::analyze(&ne_file(), &ne(idents.clone()), &Threshold::Normal, &mut c);
    naming_entropy::analyze(&ne_file(), &ne(idents), &Threshold::Normal, &mut c);
    assert_eq!(c, 2);
}

#[test]
fn evidence_contains_expected_keys() {
    let r = naming_entropy::analyze(&ne_file(), &ne(make_mixed_idents()), &Threshold::Normal, &mut 0).unwrap();
    assert!(r.evidence.iter().any(|e| e.starts_with("convention_counts:")));
    assert!(r.evidence.iter().any(|e| e.starts_with("dominant_convention:")));
    assert!(r.evidence.iter().any(|e| e.starts_with("mixed_count:")));
}

#[test]
fn naming_counts_are_json() {
    let r = naming_entropy::analyze(&ne_file(), &ne(make_mixed_idents()), &Threshold::Normal, &mut 0).unwrap();
    let counts = r.evidence.iter().find(|e| e.starts_with("convention_counts: ")).unwrap();
    let json: serde_json::Value = serde_json::from_str(&counts["convention_counts: ".len()..]).unwrap();
    assert_eq!(json["snake_case"], 6);
    assert_eq!(json["camelCase"], 6);
    assert_eq!(json["PascalCase"], 6);
    assert!(r.evidence.iter().any(|e| e == "mixed_count: 3"));
    assert_eq!(counts, "convention_counts: {\"PascalCase\":6,\"camelCase\":6,\"snake_case\":6}");
}

#[test]
fn screaming_snake_and_short_names_are_classified() {
    let mut idents: Vec<String> = (0..4).map(|i| format!("MAX_LIMIT_{}", i)).collect();
    idents.extend((0..4).map(|i| format!("snake_name_{}", i)));
    idents.extend((0..4).map(|i| format!("camelName{}", i)));
    idents.extend(["ab".to_string(), "cd".to_string()]);
    let r = naming_entropy::analyze(&ne_file(), &ne(idents), &Threshold::Normal, &mut 0).unwrap();
    let counts = r.evidence.iter().find(|e| e.starts_with("convention_counts: ")).unwrap();
    let json: serde_json::Value = serde_json::from_str(&counts["convention_counts: ".len()..]).unwrap();
    assert_eq!(json["SCREAMING_SNAKE"], 4);
    assert_eq!(json["other"], 2);
}

// ---------------------------------------------------------------- unused imports

fn ui_file(stem: &str) -> RustFile {
    RustFile {
        path: format!("src/{stem}.rs"),
        relative_path: format!("src/{stem}.rs"),
        package_name: "krate".into(),
        size_bytes: 200,
        line_count: 10,
    }
}

fn ui(leaf_names: Vec<&str>, used_idents: Vec<&str>) -> FileStructure {
    FileStructure {
        path: "src/foo.rs".to_string(),
        relative_path: "src/foo.rs".to_string(),
        package_name: "krate".into(),
        mod_path: "krate::foo".into(),
        use_leaf_names: leaf_names.into_iter().map(String::from).collect(),
        all_identifiers: used_idents.into_iter().map(String::from).collect(),
        pub_use_paths: vec![],
        use_paths: vec![],
        mod_declarations: vec![],
        ..Default::default()
    }
}

#[test]
fn no_finding_when_all_used() {
    let s = ui(vec!["HashMap", "Arc"], vec!["HashMap", "Arc", "fn_body"]);
    assert!(unused_imports::analyze(&ui_file("foo"), &s, &Threshold::Normal, &mut 0).is_none());
}

#[test]
fn no_finding_below_min_threshold() {
    let s = ui(vec!["HashMap"], vec!["something_else"]);
    assert!(unused_imports::analyze(&ui_file("foo"), &s, &Threshold::Normal, &mut 0).is_none());
}

#[test]
fn finding_when_multiple_unused() {
    let s = ui(vec!["Foo", "Bar", "Baz"], vec!["something_else"]);
    let finding = unused_imports::analyze(&ui_file("foo"), &s, &Threshold::Normal, &mut 0);
    assert!(finding.is_some());
    assert_eq!(finding.unwrap().kind, FindingKind::UnusedImport);
}

#[test]
fn medium_severity_at_five_or_more() {
    let s = ui(vec!["A", "B", "C", "D", "E"], vec![]);
    let finding = unused_imports::analyze(&ui_file("foo"), &s, &Threshold::Normal, &mut 0).unwrap();
    assert_eq!(finding.severity, Severity::Medium);
}

#[test]
fn unused_import_names_listed() {
    let s = ui(vec!["Foo", "Bar", "Used"], vec!["Used"]);
    let f = unused_imports::analyze(&ui_file("foo"), &s, &Threshold::Normal, &mut 0).unwrap();
    assert_eq!(f.severity, Severity::Low);
    assert_eq!(f.id, "ui-001");
    assert!(f.summary.contains("Foo"));
    assert!(f.summary.contains("Bar"));
    assert!(!f.summary.contains("Used"));
}

#[test]
fn checked_naming_entropy_refuses_split_capitals() {
    let mut idents = make_mixed_idents();
    let mut c = 0;
    assert!(naming_entropy::analyze_checked(&ne_file(), &ne(idents.clone()), &Threshold::Normal, &mut c).unwrap().is_some());
    assert_eq!(c, 1);
    idents.push("Écoute".to_string());
    assert!(naming_entropy::analyze_checked(&ne_file(), &ne(idents), &Threshold::Normal, &mut c).is_none());
    assert_eq!(c, 1);
    assert!(naming_entropy::splits_first_char_exec("Écoute"));
    assert!(!naming_entropy::splits_first_char_exec("Apple"));
    assert!(naming_entropy::splits_first_char_exec("Éc"));
    assert!(!naming_entropy::splits_first_char_exec("É"));
    assert!(!naming_entropy::splits_first_char_exec("ÉCOUTE_X"));
    let few = vec!["Écoute".to_string(), "abc".to_string()];
    assert_eq!(naming_entropy::analyze_checked(&ne_file(), &ne(few), &Threshold::Normal, &mut c).map(|x| x.is_some()), Some(false));
}

#[test]
fn duplicates_from_groups_equal_renamed_texts() {
    let s = vec![
        mks("src/a.rs", "left", "{ let total = price + tax + shipping + handling ; total * 2 }"),
        mks("src/b.rs", "right", "{ let sum = cost + vat + delivery + surcharge ; sum * 3 }"),
    ];
    let same = Some("{ let _ = _ + _ + _ + _ ; _ * 2 }".to_string());
    let renamed = vec![vec![same.clone()], vec![same]];
    let counts = vec![vec![Some(2)], vec![Some(2)]];
    let mut counter = 4;
    let f = duplicates_from(&s, &renamed, &counts, &mut counter);
    assert_eq!(counter, 5);
    assert_eq!(f.len(), 1);
    assert_eq!(f[0].id, "dup-005");
    assert_eq!(f[0].path, "src/a.rs");
    assert_eq!(f[0].severity, Severity::Low);
    assert_eq!(f[0].evidence[0], "file_count: 2");
    assert_eq!(f[0].evidence[1], "fn_name: left");
}

#[test]
fn duplicates_from_keeps_apart_different_renamed_texts() {
    let s = vec![
        mks("src/a.rs", "left", "{ let total = price + tax + shipping + handling ; total * 2 }"),
        mks("src/b.rs", "right", "{ let total = price + tax + shipping + handling ; total * 2 }"),
    ];
    let renamed = vec![vec![Some("{ let _ = _ + _ ; _ }".to_string())], vec![Some("{ let _ = _ * _ ; _ }".to_string())]];
    let counts = vec![vec![Some(2)], vec![Some(2)]];
    let mut counter = 0;
    assert!(duplicates_from(&s, &renamed, &counts, &mut counter).is_empty());
    assert_eq!(counter, 0);
}

#[test]
fn duplicate_detection_is_deterministic() {
    let body = "{ let x = some_function ( ) + another_function ( ) ; x * 2 + offset }";
    let s = vec![mks("src/a.rs", "compute", body), mks("src/b.rs", "compute", body), mks("src/c.rs", "compute", body)];
    let (mut c1, mut c2) = (3, 3);
    let r1 = dups(&s, &mut c1);
    let r2 = dups(&s, &mut c2);
    assert_eq!(c1, c2);
    assert_eq!(r1.len(), r2.len());
    for (a, b) in r1.iter().zip(r2.iter()) {
        assert_eq!(a.id, b.id);
        assert_eq!(a.severity, b.severity);
        assert_eq!(a.path, b.path);
        assert_eq!(a.evidence, b.evidence);
    }
}
