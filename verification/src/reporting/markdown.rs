//! The Markdown rendering of a report.
use vstd::prelude::*;
use crate::text::{chars_of, dec, push_dec, push_str, push_vec, string_of, sviews};
use crate::types::{
    by_severity, lemma_by_severity_len, lemma_with_severity_step, with_severity, Finding, FindingKind, GlobalScore, Report, Severity,
};

verus! {

/// The level a score (0-100) stands for.
pub open spec fn level_text(score: nat) -> Seq<char> {
    if score >= 70 {
        "CRITICAL"@
    } else if score >= 40 {
        "MODERATE"@
    } else if score >= 20 {
        "ELEVATED"@
    } else {
        "LOW"@
    }
}

/// The level a score (0-100) stands for.
pub fn score_level(score: u32) -> (r: &'static str)
    ensures
        r@ == level_text(score as nat),
{
    if score >= 70 {
        "CRITICAL"
    } else if score >= 40 {
        "MODERATE"
    } else if score >= 20 {
        "ELEVATED"
    } else {
        "LOW"
    }
}

/// ` (~<t/1000>k tokens)` when a token estimate is known.
pub open spec fn tok_note(t: Option<usize>) -> Seq<char> {
    match t {
        Some(n) => " (~"@ + dec(n as nat / 1000) + "k tokens)"@,
        None => seq![],
    }
}

/// `- <r>\n` for each reason.
pub open spec fn reason_lines(rs: Seq<Seq<char>>) -> Seq<char>
    decreases rs.len(),
{
    if rs.len() == 0 {
        seq![]
    } else {
        reason_lines(rs.drop_last()) + "- "@ + rs.last() + "\n"@
    }
}

/// The heading and summary lines of the finding numbered `n` (from 1).
pub open spec fn section_head(n: nat, f: Finding) -> Seq<char> {
    "### "@ + dec(n) + ". ["@ + f.severity.label_text() + "] "@ + f.path@ + "\n\n**Kind:** "@ + f.kind.label_text()
        + "  \n**Summary:** "@ + f.summary@ + tok_note(f.estimated_tokens) + "  \n\n"@
}

/// The reasons (when there are any) and the next step of a finding.
pub open spec fn section_tail(f: Finding) -> Seq<char> {
    let reasons = sviews(f.reasons@);
    (if reasons.len() > 0 {
        "**Reasons:**\n"@ + reason_lines(reasons) + "\n"@
    } else {
        seq![]
    }) + "**Next step:** "@ + f.suggested_next_step@ + "\n\n---\n\n"@
}

/// The section of the finding numbered `n` (from 1).
pub open spec fn section_text(n: nat, f: Finding) -> Seq<char> {
    section_head(n, f) + section_tail(f)
}

/// The sections of `fs`, numbered from `start + 1`.
pub open spec fn sections_from(fs: Seq<Finding>, start: nat) -> Seq<char>
    decreases fs.len(),
{
    if fs.len() == 0 {
        seq![]
    } else {
        sections_from(fs.drop_last(), start) + section_text(start + fs.len(), fs.last())
    }
}

/// `- <next step>\n` for each finding.
pub open spec fn target_lines(fs: Seq<Finding>) -> Seq<char>
    decreases fs.len(),
{
    if fs.len() == 0 {
        seq![]
    } else {
        target_lines(fs.drop_last()) + "- "@ + fs.last().suggested_next_step@ + "\n"@
    }
}

/// The first five Critical or High findings, most severe first.
pub open spec fn priority(fs: Seq<Finding>) -> Seq<Finding> {
    let top = with_severity(fs, Severity::Critical) + with_severity(fs, Severity::High);
    if top.len() <= 5 {
        top
    } else {
        top.take(5)
    }
}

pub open spec fn score_row(name: Seq<char>, score: u32, meaning: Seq<char>) -> Seq<char> {
    "| **"@ + name + "** | "@ + dec(score as nat) + "/100 | "@ + level_text(score as nat) + " | "@ + meaning + " |\n"@
}

/// Everything before the findings; `ratio_text` is the context-waste ratio
/// written with one decimal.
pub open spec fn head_text(r: Report, ratio_text: Seq<char>) -> Seq<char> {
    let gs = r.global_score;
    "# repo-gc: AI Context Efficiency Report\n\n"@ + "**Files analyzed:** "@ + dec(r.files_analyzed as nat)
        + "  |  **Total lines:** "@ + dec(r.total_lines as nat) + "  |  **Est. LLM tokens:** ~"@ + dec(
        r.total_estimated_tokens as nat / 1000,
    ) + "k\n\n"@ + if r.files_skipped > 0 {
        "> **Warning:** "@ + dec(r.files_skipped as nat) + " files skipped due to parse errors.\n\n"@
    } else {
        seq![]
    } + "## Global Scores (0-100, higher = worse)\n\n"@ + "| Metric | Score | Level | Meaning |\n"@
        + "|--------|-------|-------|--------|\n"@ + score_row(
        "AI Friction"@,
        gs.ai_friction_score,
        "Overall AI-friction from all detected patterns"@,
    ) + score_row("Context Waste"@, gs.context_waste_score, "Token budget wasted by oversized files"@) + score_row(
        "Structural Entropy"@,
        gs.structural_entropy_score,
        "Noise from coupling, dead code, re-exports, duplication"@,
    ) + "\n"@ + "> **Estimated context waste:** ~"@ + dec(gs.estimated_waste_pct as nat)
        + "% of agent context capacity (~"@ + ratio_text + "x agent sessions)\n\n"@ + interpretation_text()
        + "---\n\n"@
}

pub open spec fn interpretation_text() -> Seq<char> {
    "## How to Interpret These Scores\n\n"@ + "- **0-19:** Healthy — your codebase is well-structured for AI tooling.\n"@
        + "- **20-39:** Moderate — some patterns will slow down AI-assisted edits.\n"@
        + "- **40-69:** Concerning — AI-assisted development will be noticeably degraded.\n"@
        + "- **70-100:** Critical — significant refactoring recommended.\n\n"@
}

/// The findings part: numbered most severe first, then the next steps of
/// the first five Critical or High ones.
pub open spec fn findings_text(fs: Seq<Finding>) -> Seq<char> {
    if fs.len() == 0 {
        "## Detected Patterns\n\nNo issues found.\n"@
    } else {
        "## Detected Patterns\n\n"@ + sections_from(by_severity(fs), 0) + "## Priority Cleanup Targets (fix these first)\n\n"@
            + target_lines(priority(fs))
    }
}

/// The Markdown rendering of a report.
pub open spec fn markdown_text(r: Report, ratio_text: Seq<char>) -> Seq<char> {
    head_text(r, ratio_text) + findings_text(r.findings@)
}

proof fn lemma_sections_concat(a: Seq<Finding>, b: Seq<Finding>, k: nat)
    ensures
        sections_from(a + b, k) == sections_from(a, k) + sections_from(b, k + a.len()),
    decreases b.len(),
{
    if b.len() == 0 {
        assert(a + b =~= a);
        assert(sections_from(a, k) + sections_from(b, k + a.len()) =~= sections_from(a, k));
    } else {
        lemma_sections_concat(a, b.drop_last(), k);
        assert((a + b).drop_last() =~= a + b.drop_last());
        assert((a + b).last() == b.last());
        assert(sections_from(a + b, k) =~= sections_from(a, k) + sections_from(b, k + a.len()));
    }
}

proof fn lemma_targets_concat(a: Seq<Finding>, b: Seq<Finding>)
    ensures
        target_lines(a + b) == target_lines(a) + target_lines(b),
    decreases b.len(),
{
    if b.len() == 0 {
        assert(a + b =~= a);
        assert(target_lines(a) + target_lines(b) =~= target_lines(a));
    } else {
        lemma_targets_concat(a, b.drop_last());
        assert((a + b).drop_last() =~= a + b.drop_last());
        assert((a + b).last() == b.last());
        assert(target_lines(a + b) =~= target_lines(a) + target_lines(b));
    }
}

fn reasons_exec(out: &mut Vec<char>, reasons: &Vec<String>)
    ensures
        final(out)@ == old(out)@ + reason_lines(sviews(reasons@)),
{
    let ghost base = out@;
    let ghost rv = sviews(reasons@);
    let mut i: usize = 0;
    assert(rv.take(0) =~= Seq::<Seq<char>>::empty());
    assert(out@ =~= base + reason_lines(rv.take(0)));
    while i < reasons.len()
        invariant
            i <= reasons.len(),
            rv == sviews(reasons@),
            out@ == base + reason_lines(rv.take(i as int)),
        decreases reasons.len() - i,
    {
        let ghost t = rv.take(i + 1);
        assert(t.drop_last() =~= rv.take(i as int));
        assert(t.last() == reasons@[i as int]@);
        push_str(out, "- ");
        push_str(out, reasons[i].as_str());
        push_str(out, "\n");
        assert(out@ =~= base + reason_lines(t));
        i += 1;
    }
    assert(rv.take(i as int) =~= rv);
}

fn section_exec(out: &mut Vec<char>, n: usize, f: &Finding)
    ensures
        final(out)@ == old(out)@ + section_text(n as nat, *f),
{
    let ghost base = out@;
    section_head_exec(out, n, f);
    section_tail_exec(out, f);
    assert(out@ =~= base + section_text(n as nat, *f));
}

fn section_head_exec(out: &mut Vec<char>, n: usize, f: &Finding)
    ensures
        final(out)@ == old(out)@ + section_head(n as nat, *f),
{
    let ghost base = out@;
    push_str(out, "### ");
    push_dec(out, n as u64);
    push_str(out, ". [");
    push_str(out, f.severity.label());
    push_str(out, "] ");
    push_str(out, f.path.as_str());
    push_str(out, "\n\n**Kind:** ");
    push_str(out, f.kind.label());
    push_str(out, "  \n**Summary:** ");
    push_str(out, f.summary.as_str());
    let ghost before_tok = out@;
    match f.estimated_tokens {
        Some(t) => {
            push_str(out, " (~");
            push_dec(out, (t / 1000) as u64);
            push_str(out, "k tokens)");
        },
        None => {},
    }
    assert(out@ =~= before_tok + tok_note(f.estimated_tokens));
    push_str(out, "  \n\n");
    assert(out@ =~= base + section_head(n as nat, *f));
}

fn section_tail_exec(out: &mut Vec<char>, f: &Finding)
    ensures
        final(out)@ == old(out)@ + section_tail(*f),
{
    let ghost base = out@;
    if f.reasons.len() > 0 {
        push_str(out, "**Reasons:**\n");
        reasons_exec(out, &f.reasons);
        push_str(out, "\n");
    }
    push_str(out, "**Next step:** ");
    push_str(out, f.suggested_next_step.as_str());
    push_str(out, "\n\n---\n\n");
    assert(out@ =~= base + section_tail(*f));
}

/// Appends the sections of the findings of severity `sev`, numbered on from `*n`.
fn push_sections_with(out: &mut Vec<char>, findings: &Vec<Finding>, sev: Severity, n: &mut usize)
    requires
        *old(n) + with_severity(findings@, sev).len() <= usize::MAX,
    ensures
        final(out)@ == old(out)@ + sections_from(with_severity(findings@, sev), *old(n) as nat),
        *final(n) == *old(n) + with_severity(findings@, sev).len(),
{
    let ghost base = out@;
    let ghost start = *n;
    let mut i: usize = 0;
    assert(findings@.take(0) =~= Seq::<Finding>::empty());
    assert(with_severity(findings@.take(0), sev).len() == 0) by {
        reveal(Seq::filter);
    }
    assert(out@ =~= base + sections_from(with_severity(findings@.take(0), sev), start as nat));
    while i < findings.len()
        invariant
            i <= findings.len(),
            start + with_severity(findings@, sev).len() <= usize::MAX,
            out@ == base + sections_from(with_severity(findings@.take(i as int), sev), start as nat),
            *n == start + with_severity(findings@.take(i as int), sev).len(),
            with_severity(findings@.take(i as int), sev).len() <= with_severity(findings@, sev).len(),
        decreases findings.len() - i,
    {
        let ghost t = findings@.take(i + 1);
        proof {
            lemma_with_severity_step(t, sev);
            lemma_with_severity_prefix_len(findings@, sev, i + 1);
        }
        assert(t.drop_last() =~= findings@.take(i as int));
        assert(t.last() == findings@[i as int]);
        if findings[i].severity == sev {
            *n = *n + 1;
            section_exec(out, *n, &findings[i]);
            let ghost w = with_severity(t, sev);
            assert(w.drop_last() =~= with_severity(findings@.take(i as int), sev));
            assert(out@ =~= base + sections_from(w, start as nat));
        }
        i += 1;
    }
    assert(findings@.take(i as int) =~= findings@);
}

/// A prefix has no more findings of a severity than the whole.
proof fn lemma_with_severity_prefix_len(fs: Seq<Finding>, sev: Severity, k: int)
    requires
        0 <= k <= fs.len(),
    ensures
        with_severity(fs.take(k), sev).len() <= with_severity(fs, sev).len(),
    decreases fs.len() - k,
{
    if k < fs.len() {
        lemma_with_severity_prefix_len(fs, sev, k + 1);
        let t = fs.take(k + 1);
        lemma_with_severity_step(t, sev);
        assert(t.drop_last() =~= fs.take(k));
    } else {
        assert(fs.take(k) =~= fs);
    }
}

/// Appends the next-step line of each finding of severity `sev`, while
/// fewer than `limit` lines have been written.
fn push_targets_with(out: &mut Vec<char>, findings: &Vec<Finding>, sev: Severity, taken: &mut usize, limit: usize)
    requires
        *old(taken) <= limit,
    ensures
        *final(taken) <= limit,
        *final(taken) == if *old(taken) + with_severity(findings@, sev).len() <= limit {
            *old(taken) + with_severity(findings@, sev).len()
        } else {
            limit as int
        },
        final(out)@ == old(out)@ + target_lines(with_severity(findings@, sev).take(*final(taken) - *old(taken))),
{
    let ghost base = out@;
    let ghost start = *taken;
    let ghost all = with_severity(findings@, sev);
    let mut i: usize = 0;
    assert(findings@.take(0) =~= Seq::<Finding>::empty());
    assert(with_severity(findings@.take(0), sev).len() == 0) by {
        reveal(Seq::filter);
    }
    assert(all.take(0) =~= Seq::<Finding>::empty());
    assert(out@ =~= base + target_lines(all.take(0)));
    while i < findings.len() && *taken < limit
        invariant
            i <= findings.len(),
            start <= *taken <= limit,
            all == with_severity(findings@, sev),
            *taken - start == with_severity(findings@.take(i as int), sev).len(),
            with_severity(findings@.take(i as int), sev) == all.take(*taken - start),
            with_severity(findings@.take(i as int), sev).len() <= all.len(),
            out@ == base + target_lines(all.take(*taken - start)),
        decreases findings.len() - i,
    {
        let ghost t = findings@.take(i + 1);
        proof {
            lemma_with_severity_step(t, sev);
            lemma_with_severity_prefix_len(findings@, sev, i + 1);
            lemma_with_severity_prefix(findings@, sev, i + 1);
        }
        assert(t.drop_last() =~= findings@.take(i as int));
        assert(t.last() == findings@[i as int]);
        if findings[i].severity == sev {
            let ghost before = *taken - start;
            push_str(out, "- ");
            push_str(out, findings[i].suggested_next_step.as_str());
            push_str(out, "\n");
            *taken = *taken + 1;
            assert(all.take(before + 1).drop_last() =~= all.take(before));
            assert(all.take(before + 1).last() == findings@[i as int]);
            assert(out@ =~= base + target_lines(all.take(*taken - start)));
        }
        i += 1;
    }
    if *taken < limit {
        assert(findings@.take(i as int) =~= findings@);
    }
}

/// The findings of a severity in a prefix are a prefix of those in the whole.
proof fn lemma_with_severity_prefix(fs: Seq<Finding>, sev: Severity, k: int)
    requires
        0 <= k <= fs.len(),
    ensures
        with_severity(fs.take(k), sev) == with_severity(fs, sev).take(with_severity(fs.take(k), sev).len() as int),
    decreases fs.len() - k,
{
    if k < fs.len() {
        lemma_with_severity_prefix(fs, sev, k + 1);
        let t = fs.take(k + 1);
        lemma_with_severity_step(t, sev);
        assert(t.drop_last() =~= fs.take(k));
        let a = with_severity(fs.take(k), sev);
        let b = with_severity(t, sev);
        let w = with_severity(fs, sev);
        lemma_with_severity_prefix_len(fs, sev, k + 1);
        if t.last().severity == sev {
            assert(b == a.push(t.last()));
            assert(w.take(b.len() as int) == b);
            assert(w.take(a.len() as int) =~= w.take(b.len() as int).take(a.len() as int));
            assert(w.take(a.len() as int) =~= b.take(a.len() as int));
            assert(b.take(a.len() as int) =~= a);
        } else {
            assert(b == a);
        }
    } else {
        assert(fs.take(k) =~= fs);
        assert(with_severity(fs, sev).take(with_severity(fs, sev).len() as int) =~= with_severity(fs, sev));
    }
}

/// The Markdown rendering of a report. `ratio_text` is the context-waste
/// ratio written with one decimal.
pub fn render(report: &Report, ratio_text: &str) -> (r: String)
    ensures
        r@ == markdown_text(*report, ratio_text@),
{
    let mut out = head_exec(report, ratio_text);
    let part = findings_exec(&report.findings);
    push_vec(&mut out, &part);
    string_of(&out)
}

fn findings_exec(fs: &Vec<Finding>) -> (r: Vec<char>)
    ensures
        r@ == findings_text(fs@),
{
    let mut out: Vec<char> = Vec::new();
    if fs.len() == 0 {
        push_str(&mut out, "## Detected Patterns\n\nNo issues found.\n");
        return out;
    }
    push_str(&mut out, "## Detected Patterns\n\n");
    let sections = sections_exec(fs);
    push_vec(&mut out, &sections);
    push_str(&mut out, "## Priority Cleanup Targets (fix these first)\n\n");
    let targets = targets_exec(fs);
    push_vec(&mut out, &targets);
    out
}

fn sections_exec(fs: &Vec<Finding>) -> (r: Vec<char>)
    ensures
        r@ == sections_from(by_severity(fs@), 0),
{
    let mut out: Vec<char> = Vec::new();
    let total = fs.len();
    proof {
        lemma_by_severity_len(fs@);
    }
    assert(with_severity(fs@, Severity::Critical).len() + with_severity(fs@, Severity::High).len() + with_severity(
        fs@,
        Severity::Medium,
    ).len() + with_severity(fs@, Severity::Low).len() == total);
    let mut n: usize = 0;
    push_sections_with(&mut out, fs, Severity::Critical, &mut n);
    push_sections_with(&mut out, fs, Severity::High, &mut n);
    push_sections_with(&mut out, fs, Severity::Medium, &mut n);
    push_sections_with(&mut out, fs, Severity::Low, &mut n);
    proof {
        lemma_sections_by_severity(fs@);
    }
    assert(out@ =~= sections_from(by_severity(fs@), 0));
    out
}

fn targets_exec(fs: &Vec<Finding>) -> (r: Vec<char>)
    ensures
        r@ == target_lines(priority(fs@)),
{
    let mut out: Vec<char> = Vec::new();
    let mut taken: usize = 0;
    push_targets_with(&mut out, fs, Severity::Critical, &mut taken, 5);
    let ghost c_taken = taken;
    push_targets_with(&mut out, fs, Severity::High, &mut taken, 5);
    proof {
        lemma_priority_lines(fs@, c_taken as int, taken as int);
    }
    assert(out@ =~= target_lines(priority(fs@)));
    out
}

proof fn lemma_sections_by_severity(fs: Seq<Finding>)
    ensures
        sections_from(by_severity(fs), 0) == sections_from(with_severity(fs, Severity::Critical), 0) + sections_from(
            with_severity(fs, Severity::High),
            with_severity(fs, Severity::Critical).len(),
        ) + sections_from(
            with_severity(fs, Severity::Medium),
            with_severity(fs, Severity::Critical).len() + with_severity(fs, Severity::High).len(),
        ) + sections_from(
            with_severity(fs, Severity::Low),
            with_severity(fs, Severity::Critical).len() + with_severity(fs, Severity::High).len() + with_severity(
                fs,
                Severity::Medium,
            ).len(),
        ),
{
    let c = with_severity(fs, Severity::Critical);
    let h = with_severity(fs, Severity::High);
    let m = with_severity(fs, Severity::Medium);
    let l = with_severity(fs, Severity::Low);
    lemma_sections_concat(c, h, 0);
    lemma_sections_concat(c + h, m, 0);
    lemma_sections_concat(c + h + m, l, 0);
    assert(sections_from(by_severity(fs), 0) =~= sections_from(c, 0) + sections_from(h, c.len()) + sections_from(
        m,
        c.len() + h.len(),
    ) + sections_from(l, c.len() + h.len() + m.len()));
}

proof fn lemma_priority_lines(fs: Seq<Finding>, c_taken: int, taken: int)
    requires
        c_taken == (if with_severity(fs, Severity::Critical).len() <= 5 {
            with_severity(fs, Severity::Critical).len() as int
        } else {
            5
        }),
        taken == (if c_taken + with_severity(fs, Severity::High).len() <= 5 {
            c_taken + with_severity(fs, Severity::High).len()
        } else {
            5
        }),
    ensures
        target_lines(with_severity(fs, Severity::Critical).take(c_taken)) + target_lines(
            with_severity(fs, Severity::High).take(taken - c_taken),
        ) == target_lines(priority(fs)),
{
    let c = with_severity(fs, Severity::Critical);
    let h = with_severity(fs, Severity::High);
    let top = c + h;
    lemma_targets_concat(c.take(c_taken), h.take(taken - c_taken));
    if top.len() <= 5 {
        assert(c.take(c_taken) =~= c);
        assert(h.take(taken - c_taken) =~= h);
    } else {
        assert(c.take(c_taken) + h.take(taken - c_taken) =~= top.take(5));
    }
}

fn head_exec(report: &Report, ratio_text: &str) -> (r: Vec<char>)
    ensures
        r@ == head_text(*report, ratio_text@),
{
    let gs = &report.global_score;
    let mut out = chars_of("# repo-gc: AI Context Efficiency Report\n\n");
    push_str(&mut out, "**Files analyzed:** ");
    push_dec(&mut out, report.files_analyzed as u64);
    push_str(&mut out, "  |  **Total lines:** ");
    push_dec(&mut out, report.total_lines as u64);
    push_str(&mut out, "  |  **Est. LLM tokens:** ~");
    push_dec(&mut out, (report.total_estimated_tokens / 1000) as u64);
    push_str(&mut out, "k\n\n");
    if report.files_skipped > 0 {
        push_str(&mut out, "> **Warning:** ");
        push_dec(&mut out, report.files_skipped as u64);
        push_str(&mut out, " files skipped due to parse errors.\n\n");
    }
    push_str(&mut out, "## Global Scores (0-100, higher = worse)\n\n");
    push_str(&mut out, "| Metric | Score | Level | Meaning |\n");
    push_str(&mut out, "|--------|-------|-------|--------|\n");
    push_score_row(&mut out, "AI Friction", gs.ai_friction_score, "Overall AI-friction from all detected patterns");
    push_score_row(&mut out, "Context Waste", gs.context_waste_score, "Token budget wasted by oversized files");
    push_score_row(
        &mut out,
        "Structural Entropy",
        gs.structural_entropy_score,
        "Noise from coupling, dead code, re-exports, duplication",
    );
    push_str(&mut out, "\n");
    push_str(&mut out, "> **Estimated context waste:** ~");
    push_dec(&mut out, gs.estimated_waste_pct as u64);
    push_str(&mut out, "% of agent context capacity (~");
    push_str(&mut out, ratio_text);
    push_str(&mut out, "x agent sessions)\n\n");
    push_str(&mut out, "## How to Interpret These Scores\n\n");
    push_str(&mut out, "- **0-19:** Healthy — your codebase is well-structured for AI tooling.\n");
    push_str(&mut out, "- **20-39:** Moderate — some patterns will slow down AI-assisted edits.\n");
    push_str(&mut out, "- **40-69:** Concerning — AI-assisted development will be noticeably degraded.\n");
    push_str(&mut out, "- **70-100:** Critical — significant refactoring recommended.\n\n");
    push_str(&mut out, "---\n\n");
    assert(out@ =~= head_text(*report, ratio_text@));
    out
}

fn push_score_row(out: &mut Vec<char>, name: &str, score: u32, meaning: &str)
    ensures
        final(out)@ == old(out)@ + score_row(name@, score, meaning@),
{
    let ghost base = out@;
    push_str(out, "| **");
    push_str(out, name);
    push_str(out, "** | ");
    push_dec(out, score as u64);
    push_str(out, "/100 | ");
    push_str(out, score_level(score));
    push_str(out, " | ");
    push_str(out, meaning);
    push_str(out, " |\n");
    assert(out@ =~= base + score_row(name@, score, meaning@));
}

} // verus!
