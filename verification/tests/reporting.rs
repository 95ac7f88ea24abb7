use repo_gc::reporting::llm::{compact_next, compact_summary, ev_val_exec};
use repo_gc::reporting::terminal::{cleanup_targets, score_bar, score_label, score_tone, severity_tone, Tone};
use repo_gc::reporting::{llm, markdown};
use repo_gc::types::{Finding, FindingKind, GlobalScore, Report, Severity};

fn score(fric: u32, waste: u32, ent: u32, pct: u32) -> GlobalScore {
    GlobalScore {
        ai_friction_score: fric,
        context_waste_score: waste,
        structural_entropy_score: ent,
        reasoning_complexity_score: 0,
        estimated_waste_pct: pct,
    }
}

fn finding(
    id: &str,
    kind: FindingKind,
    severity: Severity,
    confidence_pct: u32,
    path: &str,
    summary: &str,
    evidence: Vec<&str>,
    next: &str,
    tokens: Option<usize>,
) -> Finding {
    Finding {
        id: id.to_string(),
        kind,
        severity,
        confidence_pct,
        path: path.to_string(),
        summary: summary.to_string(),
        reasons: vec![],
        evidence: evidence.into_iter().map(String::from).collect(),
        suggested_next_step: next.to_string(),
        estimated_tokens: tokens,
    }
}

// ---------------------------------------------------------------- llm

#[test]
fn llm_header_contains_short_keys() {
    let r = Report {
        findings: vec![],
        global_score: score(72, 40, 30, 5),
        files_analyzed: 50,
        files_skipped: 0,
        total_lines: 10000,
        total_estimated_tokens: 80000,
        errors: vec![],
        version: "0.0.0".to_string(),
    };
    let out = llm::render(&r, "1.5");
    assert!(out.contains("fric=72"), "missing fric key");
    assert!(out.contains("ent=30"), "missing ent key");
}

#[test]
fn llm_header_is_exact() {
    let r = Report {
        findings: vec![],
        global_score: score(72, 40, 30, 5),
        files_analyzed: 50,
        files_skipped: 0,
        total_lines: 10000,
        total_estimated_tokens: 80000,
        errors: vec![],
        version: "0.0.0".to_string(),
    };
    assert_eq!(
        llm::render(&r, "0.6"),
        "repo-gc\tfric=72\twaste=40\tent=30\tpct=5\trat=0.6\tf=50\tln=10000\ttok=80k\n"
    );
}

#[test]
fn llm_uses_short_severity_labels() {
    let f = finding(
        "x",
        FindingKind::ContextBomb,
        Severity::High,
        100,
        "src/x.rs",
        "",
        vec!["line_count: 600", "estimated_tokens: 5000"],
        "",
        Some(5000),
    );
    let r = Report {
        findings: vec![f],
        global_score: score(50, 50, 0, 0),
        files_analyzed: 1,
        files_skipped: 0,
        total_lines: 600,
        total_estimated_tokens: 5000,
        errors: vec![],
        version: "0.0.0".to_string(),
    };
    let out = llm::render(&r, "0.0");
    assert!(out.contains("\tH\tOVS\t"), "expected short labels H and OVS");
}

fn coupling_finding(evidence: Vec<&str>) -> Finding {
    finding("ch-001", FindingKind::CouplingHotspot, Severity::Medium, 65, "src/api.rs", "test", evidence, "test", None)
}

fn make_report(findings: Vec<Finding>) -> Report {
    Report {
        findings,
        global_score: score(50, 50, 0, 0),
        files_analyzed: 1,
        files_skipped: 0,
        total_lines: 500,
        total_estimated_tokens: 4000,
        errors: vec![],
        version: "0.0.0".to_string(),
    }
}

#[test]
fn coupling_compact_summary_api_hub() {
    let f = coupling_finding(vec!["fan_in: 513", "fan_out: 8", "instability: 0.015", "pattern: api"]);
    let out = llm::render(&make_report(vec![f]), "0.0");
    assert!(out.contains("in=513 out=8 I=0.015 api"), "expected api pattern in summary: {out}");
}

#[test]
fn coupling_compact_summary_god_module() {
    let f = coupling_finding(vec!["fan_in: 50", "fan_out: 40", "instability: 0.444", "pattern: god"]);
    let out = llm::render(&make_report(vec![f]), "0.0");
    assert!(out.contains("in=50 out=40 I=0.444 god"), "expected god pattern in summary: {out}");
}

#[test]
fn coupling_compact_next_api_verify() {
    let f = coupling_finding(vec!["fan_in: 513", "fan_out: 8", "instability: 0.015", "pattern: api"]);
    let out = llm::render(&make_report(vec![f]), "0.0");
    assert!(out.contains("verify api"), "expected 'verify api' next step: {out}");
}

#[test]
fn coupling_compact_next_orch_split() {
    let f = coupling_finding(vec!["fan_in: 2", "fan_out: 20", "instability: 0.909", "pattern: orch"]);
    let out = llm::render(&make_report(vec![f]), "0.0");
    assert!(out.contains("split deps"), "expected 'split deps' next step: {out}");
}

#[test]
fn coupling_compact_next_god_decouple() {
    let f = coupling_finding(vec!["fan_in: 50", "fan_out: 40", "instability: 0.444", "pattern: god"]);
    let out = llm::render(&make_report(vec![f]), "0.0");
    assert!(out.contains("decouple"), "expected 'decouple' next step: {out}");
}

#[test]
fn llm_rows_are_sorted_by_severity() {
    let low = finding("ui-001", FindingKind::UnusedImport, Severity::Low, 65, "src/a.rs", "", vec![], "", None);
    let crit = finding("cb-001", FindingKind::ContextBomb, Severity::Critical, 95, "src/b.rs", "", vec![], "", Some(9));
    let out = llm::render(&make_report(vec![low, crit]), "0.0");
    let lines: Vec<&str> = out.lines().collect();
    assert_eq!(lines.len(), 4);
    assert_eq!(lines[1], "id\tsev\tkind\tpath\ttok\tsummary\tnext");
    assert!(lines[2].starts_with("cb-001\tC\tOVS\tsrc/b.rs\t9\t"));
    assert!(lines[3].starts_with("ui-001\tL\t"));
    assert!(lines[3].contains("\t-\t"));
}

#[test]
fn evidence_values_are_looked_up_by_key() {
    let ev = vec!["fan_in: 3".to_string(), "fan_out: 4".to_string()];
    assert_eq!(ev_val_exec(&ev, "fan_out"), "4".chars().collect::<Vec<char>>());
    assert_eq!(ev_val_exec(&ev, "missing"), "-".chars().collect::<Vec<char>>());
}

#[test]
fn compact_texts_of_a_context_bomb() {
    let f = finding(
        "cb-001",
        FindingKind::ContextBomb,
        Severity::High,
        85,
        "src/x.rs",
        "",
        vec!["line_count: 600", "estimated_tokens: 5000"],
        "",
        Some(5000),
    );
    assert!(compact_summary(&f).starts_with("600ln/5000tk"));
    assert!(!compact_next(&f).is_empty());
}

// ---------------------------------------------------------------- markdown

fn mkreport(findings: Vec<Finding>) -> Report {
    Report {
        findings,
        global_score: score(42, 30, 15, 3),
        files_analyzed: 5,
        files_skipped: 0,
        total_lines: 2000,
        total_estimated_tokens: 20000,
        errors: vec![],
        version: "0.0.0".to_string(),
    }
}

#[test]
fn has_header() {
    assert!(markdown::render(&mkreport(vec![]), "0.2").contains("# repo-gc: AI Context Efficiency Report"));
}

#[test]
fn has_scores() {
    assert!(markdown::render(&mkreport(vec![]), "0.2").contains("42/100"));
}

#[test]
fn findings_in_output() {
    let r = mkreport(vec![finding(
        "cb-001",
        FindingKind::ContextBomb,
        Severity::High,
        90,
        "src/big.rs",
        "Large",
        vec![],
        "Split",
        Some(8000),
    )]);
    let md = markdown::render(&r, "0.2");
    assert!(md.contains("src/big.rs") && md.contains("HIGH"));
}

#[test]
fn skip_count_in_output() {
    let mut r = mkreport(vec![]);
    r.files_skipped = 3;
    assert!(markdown::render(&r, "0.2").contains("3 files skipped due to parse errors"));
}

#[test]
fn no_skip_line_without_skipped_files() {
    assert!(!markdown::render(&mkreport(vec![]), "0.2").contains("skipped due to parse errors"));
}

#[test]
fn score_levels_follow_bands() {
    assert_eq!(markdown::score_level(0), "LOW");
    assert_eq!(markdown::score_level(19), "LOW");
    assert_eq!(markdown::score_level(20), "ELEVATED");
    assert_eq!(markdown::score_level(39), "ELEVATED");
    assert_eq!(markdown::score_level(40), "MODERATE");
    assert_eq!(markdown::score_level(100), markdown::score_level(70));
    assert_ne!(markdown::score_level(70), "MODERATE");
}

// ---------------------------------------------------------------- terminal

#[test]
fn score_bar_has_ten_cells() {
    // 28 fills six cells, 0 none
    assert_eq!(score_bar(0), "░░░░░░░░░░");
    assert_eq!(score_bar(28), "██████░░░░");
    assert_eq!(score_bar(2), "░░░░░░░░░░");
    assert_eq!(score_bar(3), "█░░░░░░░░░");
    assert_eq!(score_bar(47), "█████████░");
    assert_eq!(score_bar(48), "██████████");
    assert_eq!(score_bar(100), "██████████");
    assert_eq!(score_bar(u32::MAX), "██████████");
}

#[test]
fn score_labels_and_tones() {
    assert_eq!(score_tone(0), Tone::Green);
    assert_eq!(score_tone(40), Tone::Yellow);
    assert_eq!(score_tone(70), Tone::RedBold);
    assert_eq!(severity_tone(Severity::Critical), Tone::RedBold);
    assert_eq!(severity_tone(Severity::High), Tone::Red);
    assert_eq!(severity_tone(Severity::Low), Tone::Plain);
    assert_eq!(score_label(75), "HIGH");
    assert_eq!(score_label(39), "LOW");
    assert_eq!(score_label(40), "MEDIUM");
}

#[test]
fn cleanup_targets_lists_top_next_steps() {
    let mut fs = vec![
        finding("dw-001", FindingKind::DeadWeight, Severity::Medium, 60, "src/b.rs", "", vec![], "delete b", None),
        finding("cb-001", FindingKind::ContextBomb, Severity::High, 85, "src/a.rs", "", vec![], "split a", None),
        finding("cb-002", FindingKind::ContextBomb, Severity::Critical, 95, "src/c.rs", "", vec![], "split c", None),
    ];
    assert_eq!(cleanup_targets(&fs), vec!["split c".to_string(), "split a".to_string()]);
    for i in 0..6 {
        fs.push(finding("x", FindingKind::ContextBomb, Severity::High, 85, "src/d.rs", "", vec![], &format!("s{i}"), None));
    }
    let t = cleanup_targets(&fs);
    assert_eq!(t.len(), 5);
    assert_eq!(t[0], "split c");
    assert_eq!(t[4], "s2");
}
