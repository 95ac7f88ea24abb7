use repo_gc::analysis::{collect_findings, explain_lines, find_file, totals};
use repo_gc::cli::Threshold;
use repo_gc::discovery::files::{enumerate_rust_files, file_record, keep_file, rust_file, RustFile};
use repo_gc::discovery::workspace::{fallback_workspace, join_path_exec, package_info, package_info_from, sort_paths, workspace_info};
use repo_gc::parsing::source_text::{count_comment_lines, count_lines, count_ok_calls};
use repo_gc::parsing::use_tree::{collect_leaf_names, count_use_items, is_wildcard_use, use_tree_to_string, UseShape};
use repo_gc::parsing::visitor::{ArmShape, BinOpKind, ExprShape, LitKind, PatShape, TypeShape, Visitor};
use repo_gc::parsing::extractor::FileStructure;
use repo_gc::parsing::events::{structure_from_events, Event};
use repo_gc::parsing::syntax::{structure_from_source, SourceError};
use repo_gc::paths::{path_lt_exec, same_path_exec};
use repo_gc::types::{FindingKind, Severity};

// ---------------------------------------------------------------- discovery

fn walked(paths: &[(&str, &str)], root: &str, pkg: &str, include_tests: bool) -> Vec<RustFile> {
    paths
        .iter()
        .filter(|(p, _)| keep_file(p, include_tests))
        .map(|(p, content)| rust_file(p.to_string(), root, pkg, content.len() as u64, content))
        .collect()
}

#[test]
fn enumerates_rs_files() {
    let found = walked(&[("/tmp/w/lib.rs", "fn foo() {}"), ("/tmp/w/main.rs", "fn main() {}")], "/tmp/w", "test-crate", false);
    assert_eq!(enumerate_rust_files(found).len(), 2);
}

#[test]
fn counts_lines() {
    let found = walked(&[("/tmp/w/lib.rs", "a\nb\nc\n")], "/tmp/w", "test-crate", false);
    assert_eq!(enumerate_rust_files(found)[0].line_count, 3);
}

#[test]
fn skips_target() {
    let found = walked(
        &[("/tmp/w/target/debug/gen.rs", "fn x() {}"), ("/tmp/w/lib.rs", "fn y() {}")],
        "/tmp/w",
        "test-crate",
        false,
    );
    assert_eq!(enumerate_rust_files(found).len(), 1);
}

#[test]
fn excludes_test_files_by_default() {
    let found = walked(&[("/tmp/w/lib.rs", "fn r() {}"), ("/tmp/w/lib_test.rs", "fn t() {}")], "/tmp/w", "test-crate", false);
    assert_eq!(enumerate_rust_files(found).len(), 1);
}

#[test]
fn includes_test_files_when_flag_set() {
    let found = walked(&[("/tmp/w/lib.rs", "fn r() {}"), ("/tmp/w/lib_test.rs", "fn t() {}")], "/tmp/w", "test-crate", true);
    assert_eq!(enumerate_rust_files(found).len(), 2);
}

#[test]
fn deduplicates_overlapping_roots() {
    let mut found = walked(&[("/tmp/w/lib.rs", "fn r() {}")], "/tmp/w", "a", false);
    found.extend(walked(&[("/tmp/w/lib.rs", "fn r() {}")], "/tmp/w", "b", false));
    let files = enumerate_rust_files(found);
    assert_eq!(files.len(), 1);
    assert_eq!(files[0].package_name, "a");
}

#[test]
fn keep_file_rules() {
    assert!(keep_file("src/lib.rs", false));
    assert!(!keep_file("src/lib.txt", false));
    assert!(!keep_file("src/.rs", false));
    assert!(!keep_file("src/tests.rs", false));
    assert!(keep_file("src/tests.rs", true));
    assert!(!keep_file("pkg/tests/it.rs", false));
    assert!(keep_file("pkg/tests/it.rs", true));
    assert!(!keep_file("pkg/target/x.rs", true));
}

#[test]
fn files_sorted_by_path_components() {
    let mk = |p: &str| file_record(p.to_string(), None, "k", 1, "");
    let files = enumerate_rust_files(vec![mk("src/b.rs"), mk("src/a/z.rs"), mk("src/a.rs"), mk("src/a/z.rs")]);
    let paths: Vec<&str> = files.iter().map(|f| f.path.as_str()).collect();
    // components compare one by one: "a" comes before "a.rs"
    assert_eq!(paths, vec!["src/a/z.rs", "src/a.rs", "src/b.rs"]);
}

#[test]
fn relative_path_from_root() {
    let f = rust_file("/ws/pkg/src/lib.rs".to_string(), "/ws", "pkg", 10, "x\ny");
    assert_eq!(f.relative_path, "pkg/src/lib.rs");
    assert_eq!(f.line_count, 2);
    let g = rust_file("/elsewhere/lib.rs".to_string(), "/ws", "pkg", 10, "");
    assert_eq!(g.relative_path, "/elsewhere/lib.rs");
    assert_eq!(g.line_count, 0);
}

#[test]
fn path_order_and_equality() {
    assert!(path_lt_exec("a/b", "a/c"));
    assert!(path_lt_exec("a", "a/b"));
    assert!(!path_lt_exec("a/b", "a/b"));
    assert!(same_path_exec("a//b/", "a/b"));
    assert!(!same_path_exec("./a", "a"));
    assert!(same_path_exec("./a", "./a"));
}

#[test]
fn workspace_packages() {
    let p = package_info(
        "pkg".to_string(),
        "/ws/pkg/Cargo.toml".to_string(),
        &vec!["/ws/pkg/src/lib.rs".to_string(), "/ws/pkg/src/main.rs".to_string(), "/ws/pkg/benches/b.rs".to_string()],
        "/ws",
    );
    assert_eq!(p.source_roots, vec!["/ws/pkg/benches".to_string(), "/ws/pkg/src".to_string()]);
    let q = package_info_from("q".to_string(), "/ws/q/Cargo.toml".to_string(), Some("/ws/q".to_string()), vec![None], "/ws");
    assert_eq!(q.source_roots, vec!["/ws/q/src".to_string()]);
    let w = workspace_info("/ws".to_string(), vec![p, q]);
    assert!(w.is_workspace);
    let f = fallback_workspace("/dir".to_string(), true);
    assert!(!f.is_workspace);
    assert_eq!(f.packages[0].name, "unknown");
    assert_eq!(f.packages[0].manifest_path, "/dir/Cargo.toml");
    assert_eq!(f.packages[0].source_roots, vec!["/dir/src".to_string()]);
    assert_eq!(fallback_workspace("/dir/".to_string(), false).packages[0].source_roots, vec!["/dir/".to_string()]);
    assert_eq!(join_path_exec("", "x"), "x");
    assert_eq!(sort_paths(vec!["b".to_string(), "a".to_string(), "b".to_string()]), vec!["a".to_string(), "b".to_string()]);
}

// ---------------------------------------------------------------- source text

#[test]
fn source_text_counts() {
    let src = "// a\nfn f() {\n    /* b\n c */ let x = y.ok();\n}\n  // d\n";
    assert_eq!(count_lines(src), 6);
    assert_eq!(count_comment_lines(src), 4);
    assert_eq!(count_ok_calls("a.ok() b.ok( c.okay()"), 2);
    assert_eq!(count_lines(""), 0);
    assert_eq!(count_lines("a"), 1);
}

// ---------------------------------------------------------------- use trees

fn name(s: &str) -> UseShape {
    UseShape::Name { ident: s.to_string() }
}

fn path(s: &str, t: UseShape) -> UseShape {
    UseShape::Path { ident: s.to_string(), tree: Box::new(t) }
}

#[test]
fn use_tree_facts() {
    let grouped = path(
        "std",
        UseShape::Group {
            items: vec![path("collections", name("HashMap")), path("sync", name("Arc")), path("io", name("Write"))],
        },
    );
    assert_eq!(use_tree_to_string(&grouped), "std::{collections::HashMap, sync::Arc, io::Write}");
    assert_eq!(count_use_items(&grouped), 3);
    assert!(!is_wildcard_use(&grouped));
    assert_eq!(collect_leaf_names(&grouped), vec!["HashMap", "Arc", "Write"]);
    let glob = path("crate", path("foo", UseShape::Glob));
    assert!(is_wildcard_use(&glob));
    assert_eq!(use_tree_to_string(&glob), "crate::foo::*");
    let renamed = path("a", UseShape::Rename { ident: "B".to_string(), rename: "C".to_string() });
    assert_eq!(collect_leaf_names(&renamed), vec!["C"]);
    assert_eq!(use_tree_to_string(&renamed), "a::B as C");
}

// ---------------------------------------------------------------- visitor

fn parse(code: &str, rel: &str, pkg: &str) -> FileStructure {
    match structure_from_source(rel.to_string(), rel.to_string(), pkg.to_string(), code) {
        Ok(s) => s,
        Err(e) => panic!("{:?}", e),
    }
}

#[test]
fn extractor_counts_functions_and_visibility() {
    let s = parse("pub fn foo() {} fn bar() {} fn baz() {}", "src/lib.rs", "krate");
    assert_eq!(s.function_count, 3);
    assert_eq!(s.public_function_count, 1);
}

#[test]
fn extractor_counts_impl_blocks() {
    let s = parse("struct F; impl F {} impl Drop for F { fn drop(&mut self) {} }", "src/lib.rs", "krate");
    assert_eq!(s.impl_block_count, 2);
    assert_eq!(s.struct_count, 1);
    assert_eq!(s.max_nesting_depth, 2);
}

#[test]
fn extractor_detects_pub_use_and_wildcard() {
    let s = parse("pub use std::collections::HashMap; pub use crate::foo::*;", "src/lib.rs", "krate");
    assert_eq!(s.pub_use_paths.len(), 2);
    assert!(s.pub_use_paths.iter().any(|u| u.is_wildcard));
}

#[test]
fn extractor_counts_grouped_pub_use_items() {
    let s = parse("pub use std::{collections::HashMap, sync::Arc, io::Write};", "src/lib.rs", "krate");
    assert_eq!(s.pub_use_paths[0].item_count, 3);
}

#[test]
fn extractor_mod_declarations_are_fully_qualified() {
    let s = parse("pub mod alpha; mod beta;", "src/lib.rs", "my_crate");
    assert!(s.mod_declarations.iter().any(|m| m.ends_with("::alpha")));
    assert!(s.mod_declarations.iter().any(|m| m.ends_with("::beta")));
    assert_eq!(s.pub_mod_count, 1);
}

#[test]
fn extractor_structure_carries_package_qualified_module_path() {
    let s = parse("fn x() {}", "src/foo/bar.rs", "my_crate");
    assert_eq!(s.mod_path, "my_crate::foo::bar");
}

#[test]
fn counts_unsafe_blocks() {
    let s = parse("fn f() { unsafe { let x = 1; } }", "src/lib.rs", "krate");
    assert_eq!(s.dangerous_pattern_count, 1);
}

#[test]
fn counts_unwrap_calls() {
    let s = parse("fn f() { let x = Some(1).unwrap(); }", "src/lib.rs", "krate");
    assert_eq!(s.dangerous_pattern_count, 1);
}

#[test]
fn counts_expect_calls() {
    let s = parse("fn f() { let x = Some(1).expect(\"msg\"); }", "src/lib.rs", "krate");
    assert_eq!(s.dangerous_pattern_count, 1);
}

#[test]
fn counts_transmute_calls() {
    let s = parse("fn f() { let x: u32 = unsafe { std::mem::transmute(1.0f32) }; }", "src/lib.rs", "krate");
    assert_eq!(s.dangerous_pattern_count, 2);
}

#[test]
fn no_unwrap_in_test_files() {
    let s = parse("fn f() { let x = Some(1).unwrap(); }", "src/test_foo.rs", "krate");
    assert_eq!(s.dangerous_pattern_count, 0);
}

#[test]
fn test_file_multiplier_applied() {
    let s = parse("fn f() { unsafe { let x = 1; } fn g() { unsafe { let y = 2; } } }", "src/tests/foo.rs", "krate");
    assert_eq!(s.dangerous_pattern_count, 1);
}

#[test]
fn no_dangerous_patterns_in_clean_code() {
    let s = parse("fn add(a: i32, b: i32) -> i32 { a + b }", "src/lib.rs", "krate");
    assert_eq!(s.dangerous_pattern_count, 0);
}

#[test]
fn source_text_gives_the_whole_structure() {
    let code = "// note\nuse std::fmt::{Display, Write as W};\npub fn run(x: Option<Vec<u8>>) -> bool {\n    \
                if let Err(_) = check() {}\n    match x { Some(v) => v.len() == 0, None => \"a\" == \"b\" }\n}\n\
                fn check() -> Result<(), ()> { let r = Ok(()); r.ok(); r }\n";
    let s = parse(code, "src/run.rs", "krate");
    assert_eq!(s.path, "src/run.rs");
    assert_eq!(s.mod_path, "krate::run");
    assert_eq!(s.function_count, 2);
    assert_eq!(s.public_function_count, 1);
    assert_eq!(s.function_names, vec![("run".to_string(), true), ("check".to_string(), false)]);
    assert_eq!(s.use_paths, vec!["std::fmt::{Display, Write as W}".to_string()]);
    assert_eq!(s.use_leaf_names, vec!["Display".to_string(), "W".to_string()]);
    assert_eq!(s.comment_line_count, 1);
    assert_eq!(s.branch_count, 3);
    assert_eq!(s.empty_catch_count, 2);
    assert_eq!(s.string_comparison_count, 1);
    assert_eq!(s.max_type_depth, 2);
    assert!(s.all_identifiers.contains(&"check".to_string()));
    assert!(!s.all_identifiers.contains(&"Display".to_string()));
    assert_eq!(s.all_identifiers.iter().filter(|i| *i == "check").count(), 1);
}

#[test]
fn source_that_does_not_parse_is_a_syntax_error() {
    match structure_from_source("a.rs".to_string(), "src/a.rs".to_string(), "k".to_string(), "fn (") {
        Err(SourceError::Syntax { message }) => assert!(!message.is_empty()),
        other => panic!("{:?}", other.map(|s| s.function_count)),
    }
}

#[test]
fn visitor_counts_dangerous_patterns() {
    let mut v = Visitor::new("src/lib.rs".to_string(), "src/lib.rs".to_string(), "krate".to_string());
    assert!(v.enter_expr(&ExprShape::Unsafe));
    v.leave();
    assert!(!v.enter_expr(&ExprShape::MethodCall { method: "unwrap".to_string() }));
    assert!(!v.enter_expr(&ExprShape::MethodCall { method: "expect".to_string() }));
    assert!(!v.enter_expr(&ExprShape::Call { callee_last: Some("transmute".to_string()) }));
    assert!(!v.enter_expr(&ExprShape::MethodCall { method: "len".to_string() }));
    let s = v.finish("", &vec![]);
    assert_eq!(s.dangerous_pattern_count, 4);
}

#[test]
fn test_file_halves_dangerous_patterns() {
    let mut v = Visitor::new("src/tests/foo.rs".to_string(), "src/tests/foo.rs".to_string(), "krate".to_string());
    v.enter_expr(&ExprShape::Unsafe);
    v.leave();
    v.enter_expr(&ExprShape::Unsafe);
    v.leave();
    v.enter_expr(&ExprShape::Unsafe);
    v.leave();
    let s = v.finish("", &vec![]);
    assert_eq!(s.dangerous_pattern_count, 2);
}

#[test]
fn visitor_counts_branches_and_strings() {
    let mut v = Visitor::new("src/lib.rs".to_string(), "src/lib.rs".to_string(), "krate".to_string());
    assert!(v.enter_expr(&ExprShape::If));
    v.record_if(false, true, None);
    v.leave();
    assert!(v.enter_expr(&ExprShape::Match));
    v.record_match(&vec![
        ArmShape {
            pat: PatShape::TupleStruct { path_last: Some("Err".to_string()), elems: vec![PatShape::Wild] },
            body: ExprShape::Block { stmt_count: 0 },
        },
        ArmShape { pat: PatShape::Lit { kind: LitKind::Str }, body: ExprShape::Other },
    ]);
    v.leave();
    v.enter_expr(&ExprShape::Binary { op: BinOpKind::Eq, left_lit: None, right_lit: Some(LitKind::Str) });
    let s = v.finish("let a = b.ok();", &vec!["a".to_string(), "b".to_string(), "a".to_string()]);
    assert!(s.branch_count >= 2);
    assert!(s.empty_catch_count >= 2);
    assert!(s.string_comparison_count >= 1);
    assert_eq!(s.all_identifiers, vec!["a".to_string(), "b".to_string()]);
}

#[test]
fn visitor_tracks_type_depth() {
    let mut v = Visitor::new("src/lib.rs".to_string(), "src/lib.rs".to_string(), "krate".to_string());
    let generic = TypeShape::Path { generic_segments: vec![true] };
    assert!(v.enter_type(&generic));
    assert!(v.enter_type(&generic));
    assert!(!v.enter_type(&TypeShape::Path { generic_segments: vec![false] }));
    v.leave_type();
    v.leave_type();
    let s = v.finish("", &vec![]);
    assert_eq!(s.max_type_depth, 2);
}

// ---------------------------------------------------------------- one run

fn file(p: &str, lines: usize, bytes: u64) -> RustFile {
    RustFile { path: p.to_string(), relative_path: p.to_string(), package_name: "k".to_string(), size_bytes: bytes, line_count: lines }
}

fn structure(p: &str, module: &str, uses: Vec<&str>) -> FileStructure {
    FileStructure {
        path: p.to_string(),
        relative_path: p.to_string(),
        package_name: "k".to_string(),
        mod_path: module.to_string(),
        use_paths: uses.into_iter().map(String::from).collect(),
        ..Default::default()
    }
}

fn run(t: Threshold) -> Vec<repo_gc::types::Finding> {
    let files = vec![file("src/lib.rs", 700, 28000), file("src/a.rs", 350, 100), file("src/orphan.rs", 10, 40)];
    let structures = vec![
        structure("src/lib.rs", "k::lib", vec!["serde::Serialize"]),
        structure("src/a.rs", "k::a", vec![]),
        structure("src/orphan.rs", "k::orphan", vec![]),
    ];
    collect_findings(&files, &structures, &t)
}

#[test]
fn one_run_collects_and_sorts() {
    let normal = run(Threshold::Normal);
    let kinds: Vec<(FindingKind, Severity, &str)> = normal.iter().map(|f| (f.kind, f.severity, f.path.as_str())).collect();
    assert_eq!(
        kinds,
        vec![
            (FindingKind::ContextBomb, Severity::Medium, "src/lib.rs"),
            (FindingKind::DeadWeight, Severity::Medium, "src/a.rs"),
            (FindingKind::DeadWeight, Severity::Medium, "src/orphan.rs"),
        ]
    );
    assert_eq!(normal[1].id, "dw-001");
    assert_eq!(normal[2].id, "dw-002");
}

#[test]
fn stricter_threshold_finds_at_least_as_many() {
    let strict = run(Threshold::Strict);
    let normal = run(Threshold::Normal);
    let relaxed = run(Threshold::Relaxed);
    assert!(strict.len() >= normal.len());
    assert!(normal.len() >= relaxed.len());
    assert_eq!(strict.len(), 4);
    assert_eq!(strict[0].severity, Severity::High);
    assert_eq!(relaxed.len(), 2);
}

#[test]
fn any_use_of_the_package_marks_its_modules_referenced() {
    let files = vec![file("src/lib.rs", 10, 40), file("src/orphan.rs", 10, 40)];
    let structures = vec![structure("src/lib.rs", "k::lib", vec!["crate::a::X"]), structure("src/orphan.rs", "k::orphan", vec![])];
    let r = collect_findings(&files, &structures, &Threshold::Normal);
    assert!(r.is_empty());
}

#[test]
fn totals_and_explanations() {
    let files = vec![file("src/lib.rs", 700, 28000), file("src/a.rs", 350, 100)];
    assert_eq!(totals(&files), (1050, 7025));
    assert_eq!(find_file(&files, "src//a.rs"), Some(1));
    assert_eq!(find_file(&files, "./src/a.rs"), None);
    assert_eq!(find_file(&files, "src/b.rs"), None);
    let s = FileStructure { function_count: 3, public_function_count: 1, ..structure("src/a.rs", "k::a", vec![]) };
    let lines = explain_lines(&files[1], &s, 2, 0);
    assert_eq!(lines[0], "\n═══ src/a.rs ═══\n");
    assert_eq!(lines[1], "Module path:           k::a");
    assert_eq!(lines[3], "Est. LLM tokens:       ~25");
    assert_eq!(lines[4], "Functions:             3 (1 public)");
    assert_eq!(lines[7], "Import fan-in:         2");
}

#[test]
fn runs_are_deterministic() {
    let r1 = run(Threshold::Strict);
    let r2 = run(Threshold::Strict);
    assert_eq!(r1.len(), r2.len());
    for (a, b) in r1.iter().zip(r2.iter()) {
        assert_eq!(a.id, b.id);
        assert_eq!(a.kind, b.kind);
        assert_eq!(a.severity, b.severity);
        assert_eq!(a.path, b.path);
        assert_eq!(a.summary, b.summary);
        assert_eq!(a.evidence, b.evidence);
    }
}

#[test]
fn events_replay_into_a_structure() {
    let events = vec![
        Event::ItemFn { name: "f".to_string(), is_pub: true, attr_count: 2, body: "{ }".to_string() },
        Event::Expr { shape: ExprShape::Unsafe },
        Event::Expr { shape: ExprShape::MethodCall { method: "unwrap".to_string() } },
        Event::ExprEnd { shape: ExprShape::MethodCall { method: "unwrap".to_string() } },
        Event::ExprEnd { shape: ExprShape::Unsafe },
        Event::Leave,
        Event::Mod { ident: "m".to_string(), is_pub: true },
        Event::Ident { name: "x".to_string() },
        Event::Ident { name: "x".to_string() },
    ];
    let s = structure_from_events("p.rs".to_string(), "src/p.rs".to_string(), "k".to_string(), "// c\n", &events);
    assert_eq!(s.function_count, 1);
    assert_eq!(s.public_function_count, 1);
    assert_eq!(s.decorator_count, 2);
    assert_eq!(s.dangerous_pattern_count, 2);
    assert_eq!(s.max_nesting_depth, 2);
    assert_eq!(s.mod_declarations, vec!["k::p::m".to_string()]);
    assert_eq!(s.pub_mod_count, 1);
    assert_eq!(s.comment_line_count, 1);
    assert_eq!(s.all_identifiers, vec!["x".to_string()]);
}
