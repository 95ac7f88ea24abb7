use repo_gc::cli::Threshold;
use repo_gc::discovery::files::RustFile;
use repo_gc::graph::import_graph::{resolve_import, resolve_to_module_path, ImportGraph};
use repo_gc::heuristics::dead_weight::analyze_orphaned_files;
use repo_gc::heuristics::{coupling, reexport_entropy};
use repo_gc::parsing::extractor::{FileStructure, PubUseEntry};
use repo_gc::types::{FindingKind, Severity};

fn starts(evidence: &[String], prefix: &str) -> bool {
    evidence.iter().any(|e| e.starts_with(prefix))
}

fn chars(s: &str) -> Vec<char> {
    s.chars().collect()
}

// ---------------------------------------------------------------- coupling

fn cp_file(p: &str) -> RustFile {
    RustFile {
        path: p.to_string(),
        relative_path: p.to_string(),
        package_name: "krate".to_string(),
        size_bytes: 5000,
        line_count: 200,
    }
}

fn mkgraph(fi: usize, fo: usize, p: &str) -> ImportGraph {
    ImportGraph { fan_in: vec![(p.to_string(), fi)], fan_out: vec![(p.to_string(), fo)] }
}

#[test]
fn no_finding_for_low_coupling() {
    assert!(coupling::analyze(&cp_file("src/x.rs"), &mkgraph(2, 3, "src/x.rs"), &Threshold::Normal, &mut 0).is_none());
}

#[test]
fn flags_high_fan_in() {
    let f = coupling::analyze(&cp_file("src/core.rs"), &mkgraph(15, 2, "src/core.rs"), &Threshold::Normal, &mut 0)
        .unwrap();
    assert!(starts(&f.evidence, "fan_in: 15"));
}

#[test]
fn flags_high_fan_out() {
    let f = coupling::analyze(&cp_file("src/god.rs"), &mkgraph(2, 20, "src/god.rs"), &Threshold::Normal, &mut 0)
        .unwrap();
    assert!(starts(&f.evidence, "fan_out: 20"));
}

#[test]
fn fan_in_only_is_always_medium() {
    assert_eq!(
        coupling::analyze(&cp_file("src/hub.rs"), &mkgraph(35, 5, "src/hub.rs"), &Threshold::Normal, &mut 0)
            .unwrap()
            .severity,
        Severity::Medium
    );
}

#[test]
fn fan_in_only_even_extreme_stays_medium() {
    assert_eq!(
        coupling::analyze(&cp_file("src/dispatch.rs"), &mkgraph(500, 0, "src/dispatch.rs"), &Threshold::Normal, &mut 0)
            .unwrap()
            .severity,
        Severity::Medium
    );
}

#[test]
fn god_module_stays_high_severity() {
    let f = coupling::analyze(&cp_file("src/god.rs"), &mkgraph(35, 35, "src/god.rs"), &Threshold::Normal, &mut 0)
        .unwrap();
    assert_eq!(f.severity, Severity::High);
    assert_eq!(f.confidence_pct, 85);
    assert!(starts(&f.evidence, "instability:"));
    assert!(starts(&f.evidence, "pattern: god"));
}

#[test]
fn orchestrator_escalates_to_high_when_extreme() {
    assert_eq!(
        coupling::analyze(&cp_file("src/orch.rs"), &mkgraph(0, 50, "src/orch.rs"), &Threshold::Normal, &mut 0)
            .unwrap()
            .severity,
        Severity::High
    );
}

#[test]
fn api_hub_has_correct_evidence_and_confidence() {
    let f = coupling::analyze(&cp_file("src/api.rs"), &mkgraph(15, 3, "src/api.rs"), &Threshold::Normal, &mut 0)
        .unwrap();
    assert_eq!(f.severity, Severity::Medium);
    assert_eq!(f.confidence_pct, 65);
    assert!(starts(&f.evidence, "pattern: api"));
    assert!(starts(&f.evidence, "instability:"));
}

#[test]
fn coupling_instability_has_three_decimals() {
    let f = coupling::analyze(&cp_file("src/god.rs"), &mkgraph(50, 40, "src/god.rs"), &Threshold::Normal, &mut 0)
        .unwrap();
    assert!(f.evidence.iter().any(|e| e == "instability: 0.444"));
    assert_eq!(f.kind, FindingKind::CouplingHotspot);
    assert_eq!(f.id, "ch-001");
}

#[test]
fn coupling_unknown_file_has_no_coupling() {
    assert!(coupling::analyze(&cp_file("src/other.rs"), &mkgraph(50, 40, "src/god.rs"), &Threshold::Normal, &mut 0)
        .is_none());
}

// ---------------------------------------------------------------- re-export entropy

fn re_file() -> RustFile {
    RustFile {
        path: "src/api/mod.rs".to_string(),
        relative_path: "src/api/mod.rs".to_string(),
        package_name: "krate".to_string(),
        size_bytes: 2000,
        line_count: 50,
    }
}

fn re(uses: Vec<(&str, usize, bool)>) -> FileStructure {
    FileStructure {
        path: "src/api/mod.rs".to_string(),
        pub_use_paths: uses
            .into_iter()
            .map(|(p, c, w)| PubUseEntry { path: p.to_string(), item_count: c, is_wildcard: w })
            .collect(),
        ..Default::default()
    }
}

#[test]
fn no_finding_for_few() {
    assert!(reexport_entropy::analyze(&re_file(), &re(vec![("types", 2, false)]), &Threshold::Normal, &mut 0).is_none());
}

#[test]
fn flags_barrel() {
    let f = reexport_entropy::analyze(
        &re_file(),
        &re(vec![("types", 5, false), ("handlers", 8, false), ("models", 7, false)]),
        &Threshold::Normal,
        &mut 0,
    )
    .unwrap();
    assert_eq!(f.kind, FindingKind::ReexportEntropy);
}

#[test]
fn wildcard_raises_to_high() {
    let f = reexport_entropy::analyze(
        &re_file(),
        &re(vec![("a", 1, false), ("b", 1, false), ("c", 1, true)]),
        &Threshold::Normal,
        &mut 0,
    )
    .unwrap();
    assert_eq!(f.severity, Severity::High);
}

#[test]
fn single_wildcard_detected() {
    let f = reexport_entropy::analyze(&re_file(), &re(vec![("a", 1, true)]), &Threshold::Normal, &mut 0);
    assert!(f.is_some(), "single wildcard pub use should be detected");
    assert_eq!(f.unwrap().severity, Severity::High);
}

#[test]
fn reexport_many_items_in_one_use() {
    let f = reexport_entropy::analyze(&re_file(), &re(vec![("types", 12, false)]), &Threshold::Normal, &mut 0).unwrap();
    assert_eq!(f.severity, Severity::Medium);
}

// ---------------------------------------------------------------- dead weight

fn dw_file(pkg: &str, stem: &str) -> RustFile {
    let name = format!("src/{}.rs", stem);
    RustFile { path: name.clone(), relative_path: name, package_name: pkg.to_string(), size_bytes: 500, line_count: 20 }
}

fn mks(path: &str, pkg: &str, module: &str, use_paths: Vec<&str>, mods: Vec<String>) -> FileStructure {
    FileStructure {
        path: path.to_string(),
        relative_path: path.to_string(),
        package_name: pkg.to_string(),
        mod_path: format!("{}::{}", pkg, module),
        use_paths: use_paths.into_iter().map(String::from).collect(),
        mod_declarations: mods,
        pub_use_paths: vec![],
        ..Default::default()
    }
}

#[test]
fn detects_orphaned_file() {
    let files = vec![dw_file("krate", "orphan"), dw_file("krate", "lib")];
    let structures = vec![mks("src/lib.rs", "krate", "lib", vec![], vec![])];
    let r = analyze_orphaned_files(&files, &structures, &mut 0);
    assert_eq!(r.len(), 1);
    assert!(r[0].path.contains("orphan"));
}

#[test]
fn fully_qualified_mod_declaration_prevents_orphan() {
    let files = vec![dw_file("krate", "utils"), dw_file("krate", "lib")];
    let structures = vec![mks("src/lib.rs", "krate", "lib", vec![], vec!["krate::lib::utils".to_string()])];
    assert!(analyze_orphaned_files(&files, &structures, &mut 0).is_empty());
}

#[test]
fn crate_prefix_use_prevents_orphan() {
    let files = vec![dw_file("krate", "utils"), dw_file("krate", "lib")];
    let structures = vec![mks("src/lib.rs", "krate", "lib", vec!["crate::utils::Foo"], vec![])];
    assert!(analyze_orphaned_files(&files, &structures, &mut 0).is_empty());
}

#[test]
fn nested_module_use_prevents_orphan() {
    let f = RustFile {
        path: "src/discovery/files.rs".to_string(),
        relative_path: "src/discovery/files.rs".to_string(),
        package_name: "krate".to_string(),
        size_bytes: 500,
        line_count: 20,
    };
    let structures = vec![
        mks("src/lib.rs", "krate", "lib", vec!["crate::discovery::files::RustFile"], vec![]),
        mks("src/discovery/files.rs", "krate", "discovery::files", vec![], vec![]),
    ];
    assert!(analyze_orphaned_files(&vec![f], &structures, &mut 0).is_empty());
}

#[test]
fn entry_points_never_orphaned() {
    let files = vec![dw_file("krate", "main"), dw_file("krate", "lib"), dw_file("krate", "mod")];
    assert!(analyze_orphaned_files(&files, &vec![], &mut 0).is_empty());
}

#[test]
fn same_stem_different_packages_no_collision() {
    let file_a = RustFile {
        path: "pkg_a/src/utils.rs".to_string(),
        relative_path: "pkg_a/src/utils.rs".to_string(),
        package_name: "pkg_a".to_string(),
        size_bytes: 500,
        line_count: 20,
    };
    let file_b = RustFile {
        path: "pkg_b/src/utils.rs".to_string(),
        relative_path: "pkg_b/src/utils.rs".to_string(),
        package_name: "pkg_b".to_string(),
        size_bytes: 500,
        line_count: 20,
    };
    let structures = vec![mks("pkg_a/src/lib.rs", "pkg_a", "lib", vec!["crate::utils::Foo"], vec![])];
    let orphans = analyze_orphaned_files(&vec![file_a, file_b], &structures, &mut 0);
    assert_eq!(orphans.len(), 1);
    assert!(orphans[0].path.contains("pkg_b"));
}

#[test]
fn orphan_finding_in_full() {
    let files = vec![dw_file("krate", "orphan")];
    let mut c = 0;
    let r = analyze_orphaned_files(&files, &vec![], &mut c);
    assert_eq!(c, 1);
    assert_eq!(r.len(), 1);
    let f = &r[0];
    assert_eq!(f.id, "dw-001");
    assert_eq!(f.kind, FindingKind::DeadWeight);
    assert_eq!(f.severity, Severity::Medium);
    assert_eq!(f.confidence_pct, 60);
    assert_eq!(f.summary, "Orphaned file: src/orphan.rs (module 'krate::orphan') not referenced by any use or mod declaration");
    assert_eq!(f.suggested_next_step, "Verify src/orphan.rs is still needed; add `mod orphan` or delete it");
    assert_eq!(f.estimated_tokens, Some(125));
}

// ---------------------------------------------------------------- import graph

fn make_s(path: &str, pkg: &str, module: &str, use_paths: Vec<&str>) -> FileStructure {
    FileStructure {
        path: path.to_string(),
        relative_path: path.to_string(),
        package_name: pkg.to_string(),
        mod_path: format!("{}::{}", pkg, module),
        use_paths: use_paths.into_iter().map(String::from).collect(),
        pub_use_paths: vec![],
        ..Default::default()
    }
}

#[test]
fn crate_prefix_resolves_nested_module() {
    let ss = vec![
        make_s("src/main.rs", "my_crate", "main", vec!["crate::discovery::files::RustFile"]),
        make_s("src/discovery/files.rs", "my_crate", "discovery::files", vec![]),
    ];
    let g = ImportGraph::build(&ss, "src");
    assert_eq!(g.get_fan_in("src/discovery/files.rs"), 1);
    assert_eq!(g.get_fan_out("src/main.rs"), 1);
}

#[test]
fn super_prefix_resolves_relative_to_parent() {
    let ss = vec![
        make_s("src/api/child.rs", "my_crate", "api::child", vec!["super::helpers::Bar"]),
        make_s("src/api/helpers.rs", "my_crate", "api::helpers", vec![]),
    ];
    let g = ImportGraph::build(&ss, "src");
    assert_eq!(g.get_fan_in("src/api/helpers.rs"), 1);
}

#[test]
fn super_prefix_does_not_resolve_to_root_helpers() {
    let ss = vec![
        make_s("src/api/child.rs", "my_crate", "api::child", vec!["super::helpers::Bar"]),
        make_s("src/helpers.rs", "my_crate", "helpers", vec![]),
        make_s("src/api/helpers.rs", "my_crate", "api::helpers", vec![]),
    ];
    let g = ImportGraph::build(&ss, "src");
    assert_eq!(g.get_fan_in("src/api/helpers.rs"), 1);
    assert_eq!(g.get_fan_in("src/helpers.rs"), 0);
}

#[test]
fn self_prefix_resolves_from_current_module() {
    let ss = vec![
        make_s("src/utils.rs", "my_crate", "utils", vec!["self::internal::Foo"]),
        make_s("src/utils/internal.rs", "my_crate", "utils::internal", vec![]),
    ];
    let g = ImportGraph::build(&ss, "src");
    assert_eq!(g.get_fan_in("src/utils/internal.rs"), 1);
}

#[test]
fn mod_rs_resolves_correctly() {
    let ss = vec![
        make_s("src/main.rs", "my_crate", "main", vec!["crate::api::Handler"]),
        make_s("src/api/mod.rs", "my_crate", "api", vec![]),
    ];
    let g = ImportGraph::build(&ss, "src");
    assert_eq!(g.get_fan_in("src/api/mod.rs"), 1);
}

#[test]
fn self_import_not_counted() {
    let ss = vec![make_s("src/utils.rs", "my_crate", "utils", vec!["crate::utils::internal"])];
    let g = ImportGraph::build(&ss, "src");
    assert_eq!(g.get_fan_in("src/utils.rs"), 0);
}

#[test]
fn external_crate_ignored() {
    let ss = vec![
        make_s("src/lib.rs", "my_crate", "lib", vec!["std::collections::HashMap", "serde::Serialize"]),
        make_s("src/utils.rs", "my_crate", "utils", vec![]),
    ];
    let g = ImportGraph::build(&ss, "src");
    assert_eq!(g.get_fan_out("src/lib.rs"), 0);
}

#[test]
fn no_collision_across_workspace_packages() {
    let ss = vec![
        make_s("pkg_a/src/main.rs", "pkg_a", "main", vec!["crate::utils::Foo"]),
        make_s("pkg_a/src/utils.rs", "pkg_a", "utils", vec![]),
        make_s("pkg_b/src/main.rs", "pkg_b", "main", vec!["crate::utils::Bar"]),
        make_s("pkg_b/src/utils.rs", "pkg_b", "utils", vec![]),
    ];
    let g = ImportGraph::build(&ss, ".");
    assert_eq!(g.get_fan_in("pkg_a/src/utils.rs"), 1);
    assert_eq!(g.get_fan_in("pkg_b/src/utils.rs"), 1);
}

#[test]
fn resolve_use_prefixes() {
    assert_eq!(resolve_to_module_path(&chars("crate::a::B"), &chars("pkg::x::y")), Some(chars("pkg::a::B")));
    assert_eq!(resolve_to_module_path(&chars("super::h::B"), &chars("pkg::x::y")), Some(chars("pkg::x::h::B")));
    assert_eq!(resolve_to_module_path(&chars("super::h"), &chars("pkg")), None);
    assert_eq!(resolve_to_module_path(&chars("self::i"), &chars("pkg::u")), Some(chars("pkg::u::i")));
    assert_eq!(resolve_to_module_path(&chars("std::fmt"), &chars("pkg::u")), Some(chars("std::fmt")));
    assert_eq!(resolve_to_module_path(&chars("crate"), &chars("pkg::u")), Some(chars("pkg")));
}

#[test]
fn resolve_import_takes_longest_prefix() {
    let ss = vec![make_s("src/a.rs", "p", "a", vec![]), make_s("src/a/b.rs", "p", "a::b", vec![])];
    assert_eq!(resolve_import(&chars("p::a::b::C"), &ss), Some(chars("src/a/b.rs")));
    assert_eq!(resolve_import(&chars("p::a::Z"), &ss), Some(chars("src/a.rs")));
    assert_eq!(resolve_import(&chars("q::a"), &ss), None);
}

#[test]
fn pub_use_counts_as_edge() {
    let mut s = make_s("src/lib.rs", "p", "lib", vec![]);
    s.pub_use_paths.push(PubUseEntry { path: "crate::a::X".to_string(), item_count: 1, is_wildcard: false });
    let ss = vec![s, make_s("src/a.rs", "p", "a", vec![])];
    let g = ImportGraph::build(&ss, "src");
    assert_eq!(g.get_fan_in("src/a.rs"), 1);
    assert_eq!(g.get_fan_out("src/lib.rs"), 1);
    assert_eq!(g.get_fan_in("src/missing.rs"), 0);
}

#[test]
fn graph_keys_compare_as_paths() {
    let ss = vec![make_s("src/lib.rs", "p", "lib", vec!["crate::a::X"]), make_s("src//a.rs", "p", "a", vec![])];
    let g = ImportGraph::build(&ss, "src");
    assert_eq!(g.get_fan_in("src/a.rs"), 1);
    assert_eq!(g.get_fan_in("./src/a.rs"), 0);
    assert_eq!(g.get_fan_out("src/lib.rs/"), 1);
}

#[test]
fn graph_keys_are_the_files_and_sums_balance() {
    let ss = vec![
        make_s("src/main.rs", "p", "main", vec!["crate::a::X", "crate::b::Y", "std::fmt", "crate::main::Z"]),
        make_s("src/a.rs", "p", "a", vec!["crate::b::Y"]),
        make_s("src/b.rs", "p", "b", vec![]),
    ];
    let g = ImportGraph::build(&ss, "src");
    let keys: Vec<&str> = g.fan_in.iter().map(|(k, _)| k.as_str()).collect();
    assert_eq!(keys, vec!["src/main.rs", "src/a.rs", "src/b.rs"]);
    let fan_in: usize = g.fan_in.iter().map(|(_, v)| v).sum();
    let fan_out: usize = g.fan_out.iter().map(|(_, v)| v).sum();
    assert_eq!(fan_in, 3);
    assert_eq!(fan_out, 3);
    assert_eq!(g.get_fan_out("src/main.rs"), 2);
    assert_eq!(g.get_fan_in("src/b.rs"), 2);
}

#[test]
fn dead_weight_matches_structures_as_paths() {
    let file = RustFile {
        path: "src//x.rs".to_string(),
        relative_path: "src/x.rs".to_string(),
        package_name: "krate".to_string(),
        size_bytes: 40,
        line_count: 3,
    };
    let mut lib = mks("src/lib.rs", "zz", "lib", vec![], vec!["zz::x".to_string()]);
    lib.package_name = "zz".to_string();
    let x = FileStructure { mod_path: "zz::x".to_string(), ..mks("src/x.rs", "zz", "x", vec![], vec![]) };
    assert!(analyze_orphaned_files(&vec![file.clone()], &vec![lib.clone(), x], &mut 0).is_empty());
    let elsewhere = FileStructure { mod_path: "zz::x".to_string(), ..mks("src/y.rs", "zz", "x", vec![], vec![]) };
    assert_eq!(analyze_orphaned_files(&vec![file], &vec![lib, elsewhere], &mut 0).len(), 1);
}
