//! Token-optimized TSV output for LLM consumption: short codes, no prose,
//! evidence folded into compact notation.
//!
//! Line 1 holds the summary figures; when there are findings, line 2 holds
//! the column names and each further line one finding, most severe first.
use vstd::prelude::*;
use crate::text::{
    char_is_whitespace, chars_of, contains, contains_exec, dec, eq_str, is_ws, push_dec, push_str, push_vec,
    slice_chars, split, split_exec, starts_with, starts_with_exec, string_of, sviews, trim_start, vviews,
};
use crate::types::{
    by_severity, lemma_with_severity_step, with_severity, Finding, FindingKind, GlobalScore, Report, Severity,
};

verus! {

// ---------------------------------------------------------------------------
// Reading evidence
// ---------------------------------------------------------------------------

/// The value of the first evidence line `key: value`, or `-`.
pub open spec fn ev_val(evidence: Seq<Seq<char>>, key: Seq<char>) -> Seq<char>
    decreases evidence.len(),
{
    if evidence.len() == 0 {
        "-"@
    } else if starts_with(evidence[0], key + ": "@) {
        evidence[0].skip(key.len() + 2int)
    } else {
        ev_val(evidence.drop_first(), key)
    }
}

/// The value of the first evidence line `key: value`, or `-`, computed.
pub fn ev_val_exec(evidence: &Vec<String>, key: &str) -> (r: Vec<char>)
    ensures
        r@ == ev_val(sviews(evidence@), key@),
{
    let kv = chars_of(key);
    let klen = kv.len();
    let mut prefix = chars_of(key);
    push_str(&mut prefix, ": ");
    proof {
        reveal_strlit(": ");
    }
    let ghost ev = sviews(evidence@);
    let mut i: usize = 0;
    assert(ev.skip(0) =~= ev);
    while i < evidence.len()
        invariant
            i <= evidence.len(),
            ev == sviews(evidence@),
            prefix@ == key@ + ": "@,
            klen == key@.len(),
            prefix@.len() == klen + 2,
            ev_val(ev, key@) == ev_val(ev.skip(i as int), key@),
        decreases evidence.len() - i,
    {
        let e = chars_of(evidence[i].as_str());
        assert(ev.skip(i as int)[0] == e@);
        assert(ev.skip(i as int).drop_first() =~= ev.skip(i + 1));
        if starts_with_exec(&e, &prefix) {
            let el = e.len();
            assert(klen + 2 <= el) by {
                assert(starts_with(e@, prefix@));
            }
            return slice_chars(&e, klen + 2, el);
        }
        i += 1;
    }
    chars_of("-")
}

/// Length of the leading run of non-whitespace characters.
pub open spec fn word_len(t: Seq<char>) -> nat
    decreases t.len(),
{
    if t.len() == 0 || is_ws(t[0]) {
        0
    } else {
        1 + word_len(t.drop_first())
    }
}

/// `str::split_whitespace().next()`: the first word, if any.
pub open spec fn first_word(s: Seq<char>) -> Option<Seq<char>> {
    let t = trim_start(s);
    if t.len() == 0 {
        None
    } else {
        Some(t.take(word_len(t) as int))
    }
}

proof fn lemma_word_len(t: Seq<char>)
    ensures
        word_len(t) <= t.len(),
    decreases t.len(),
{
    if t.len() > 0 && !is_ws(t[0]) {
        lemma_word_len(t.drop_first());
    }
}

/// The first word of a text, computed.
fn first_word_exec(s: &Vec<char>) -> (r: Option<Vec<char>>)
    ensures
        r matches Some(w) ==> first_word(s@) == Some(w@),
        r is None ==> first_word(s@) is None,
{
    let mut a: usize = 0;
    assert(s@.skip(0) =~= s@);
    while a < s.len() && char_is_whitespace(s[a])
        invariant
            a <= s.len(),
            trim_start(s@) == trim_start(s@.skip(a as int)),
        decreases s.len() - a,
    {
        assert(s@.skip(a as int).drop_first() =~= s@.skip(a + 1));
        a += 1;
    }
    let ghost t = s@.skip(a as int);
    assert(trim_start(t) == t);
    if a == s.len() {
        return None;
    }
    let mut b = a;
    assert(t.skip(0) =~= t);
    while b < s.len() && !char_is_whitespace(s[b])
        invariant
            a <= b <= s.len(),
            t == s@.skip(a as int),
            word_len(t) == (b - a) + word_len(s@.skip(b as int)),
        decreases s.len() - b,
    {
        assert(s@.skip(b as int).drop_first() =~= s@.skip(b + 1));
        b += 1;
    }
    let w = slice_chars(s, a, b);
    assert(w@ =~= t.take(word_len(t) as int));
    Some(w)
}

// ---------------------------------------------------------------------------
// Compact summaries and next steps
// ---------------------------------------------------------------------------

/// ` +<n>fn` / ` +<n>impl` for each reason that counts functions or impl blocks.
pub open spec fn bomb_extras(reasons: Seq<Seq<char>>) -> Seq<char>
    decreases reasons.len(),
{
    if reasons.len() == 0 {
        seq![]
    } else {
        let r = reasons.last();
        let extra = if contains(r, "functions defined"@) {
            match first_word(r) {
                Some(n) => " +"@ + n + "fn"@,
                None => seq![],
            }
        } else if contains(r, "impl blocks"@) {
            match first_word(r) {
                Some(n) => " +"@ + n + "impl"@,
                None => seq![],
            }
        } else {
            seq![]
        };
        bomb_extras(reasons.drop_last()) + extra
    }
}

/// The second ` :: `-separated part of the first evidence line, or `?`.
pub open spec fn dup_fn_name(evidence: Seq<Seq<char>>) -> Seq<char> {
    if evidence.len() > 0 && split(evidence[0], " :: "@).len() > 1 {
        split(evidence[0], " :: "@)[1]
    } else {
        "?"@
    }
}

/// The compact summary of a finding, built from its evidence.
pub open spec fn summary_text(f: Finding) -> Seq<char> {
    let ev = sviews(f.evidence@);
    match f.kind {
        FindingKind::ContextBomb => ev_val(ev, "line_count"@) + "ln/"@ + ev_val(ev, "estimated_tokens"@) + "tk"@
            + bomb_extras(sviews(f.reasons@)),
        FindingKind::CouplingHotspot => "in="@ + ev_val(ev, "fan_in"@) + " out="@ + ev_val(ev, "fan_out"@) + " I="@
            + ev_val(ev, "instability"@) + " "@ + ev_val(ev, "pattern"@),
        FindingKind::DeadWeight => ev_val(ev, "line_count"@) + "ln mod="@ + ev_val(ev, "module_path"@),
        FindingKind::ReexportEntropy => ev_val(ev, "total_items"@) + "sym/"@ + ev_val(ev, "reexport_count"@) + "pu"@
            + if ev_val(ev, "has_wildcard"@) == "true"@ {
            " +*"@
        } else {
            seq![]
        },
        FindingKind::CodeDuplication => "fn:"@ + dup_fn_name(ev) + " x"@ + dec(ev.len()),
        FindingKind::UnusedImport => ev_val(ev, "unused_count"@) + ": "@ + ev_val(ev, "preview"@),
        FindingKind::ErrorSwallow => ev_val(ev, "empty_catch_count"@) + " empty catch"@,
        FindingKind::ImportDiversity => ev_val(ev, "domain_count"@) + "dom (limit:"@ + ev_val(ev, "limit"@) + "): "@
            + ev_val(ev, "domains"@),
        FindingKind::BranchDensity => ev_val(ev, "avg_branches_per_fn"@) + "br/fn ("@ + ev_val(ev, "branch_count"@)
            + "br, "@ + ev_val(ev, "function_count"@) + "fn)"@,
        FindingKind::DeepNesting => ev_val(ev, "max_depth"@) + "nest (limit:"@ + ev_val(ev, "limit"@) + ")"@,
        FindingKind::DangerousPattern => ev_val(ev, "dangerous_pattern_count"@) + "dang (limit:"@ + ev_val(
            ev,
            "limit"@,
        ) + ")"@,
        FindingKind::CommentRatio => ev_val(ev, "ratio"@) + " "@ + ev_val(ev, "direction"@),
        FindingKind::StringlyTyped => ev_val(ev, "string_comparison_count"@) + "str (limit:"@ + ev_val(ev, "limit"@)
            + ")"@,
        FindingKind::NamingEntropy => ev_val(ev, "mixed_count"@) + "conventions dominant="@ + ev_val(
            ev,
            "dominant_convention"@,
        ),
        FindingKind::TypeComplexity => ev_val(ev, "max_type_depth"@) + "nest (limit:"@ + ev_val(ev, "limit"@) + ")"@,
        FindingKind::ImplicitControl => ev_val(ev, "ratio"@) + "dec/fn (limit:"@ + ev_val(ev, "limit"@) + ")"@,
    }
}

/// The compact next step of a finding.
pub open spec fn next_text(f: Finding) -> Seq<char> {
    let ev = sviews(f.evidence@);
    match f.kind {
        FindingKind::ContextBomb => "split <"@ + ev_val(ev, "line_count"@) + "ln"@,
        FindingKind::CouplingHotspot => if ev_val(ev, "pattern"@) == "api"@ {
            "verify api"@
        } else if ev_val(ev, "pattern"@) == "orch"@ {
            "split deps"@
        } else {
            "decouple"@
        },
        FindingKind::DeadWeight => "rm or re-export"@,
        FindingKind::ReexportEntropy => "flatten re-exports"@,
        FindingKind::CodeDuplication => "DRY: shared util"@,
        FindingKind::UnusedImport => "rm imports"@,
        FindingKind::ErrorSwallow => "handle errors"@,
        FindingKind::BranchDensity => "decompose fns"@,
        FindingKind::DeepNesting => "flatten nesting"@,
        FindingKind::ImportDiversity => "split by domain"@,
        FindingKind::DangerousPattern => "refactor unsafe patterns"@,
        FindingKind::CommentRatio => if ev_val(ev, "direction"@) == "sparse"@ {
            "add comments"@
        } else {
            "trim comments"@
        },
        FindingKind::StringlyTyped => "use enums"@,
        FindingKind::NamingEntropy => "unify naming conventions"@,
        FindingKind::TypeComplexity => "simplify types"@,
        FindingKind::ImplicitControl => "minimize decorators"@,
    }
}

fn push_ev(out: &mut Vec<char>, evidence: &Vec<String>, key: &str)
    ensures
        final(out)@ == old(out)@ + ev_val(sviews(evidence@), key@),
{
    let v = ev_val_exec(evidence, key);
    push_vec(out, &v);
}

fn bomb_extras_exec(reasons: &Vec<String>) -> (r: Vec<char>)
    ensures
        r@ == bomb_extras(sviews(reasons@)),
{
    let mut out: Vec<char> = Vec::new();
    let ghost rv = sviews(reasons@);
    let fns = chars_of("functions defined");
    let impls = chars_of("impl blocks");
    let mut i: usize = 0;
    while i < reasons.len()
        invariant
            i <= reasons.len(),
            rv == sviews(reasons@),
            fns@ == "functions defined"@,
            impls@ == "impl blocks"@,
            out@ == bomb_extras(rv.take(i as int)),
        decreases reasons.len() - i,
    {
        let ghost t = rv.take(i + 1);
        assert(t.drop_last() =~= rv.take(i as int));
        assert(t.last() == reasons@[i as int]@);
        let r = chars_of(reasons[i].as_str());
        if contains_exec(&r, &fns) {
            match first_word_exec(&r) {
                Some(n) => {
                    push_str(&mut out, " +");
                    push_vec(&mut out, &n);
                    push_str(&mut out, "fn");
                },
                None => {},
            }
        } else if contains_exec(&r, &impls) {
            match first_word_exec(&r) {
                Some(n) => {
                    push_str(&mut out, " +");
                    push_vec(&mut out, &n);
                    push_str(&mut out, "impl");
                },
                None => {},
            }
        }
        assert(out@ =~= bomb_extras(t));
        i += 1;
    }
    assert(rv.take(i as int) =~= rv);
    out
}

fn dup_fn_name_exec(evidence: &Vec<String>) -> (r: Vec<char>)
    ensures
        r@ == dup_fn_name(sviews(evidence@)),
{
    if evidence.len() > 0 {
        let e = chars_of(evidence[0].as_str());
        assert(sviews(evidence@)[0] == e@);
        let sep = chars_of(" :: ");
        proof {
            reveal_strlit(" :: ");
        }
        let parts = split_exec(&e, &sep);
        if parts.len() > 1 {
            assert(vviews(parts@)[1] == parts@[1]@);
            return parts[1].clone();
        }
    }
    chars_of("?")
}

/// The compact summary of a finding, built from its evidence.
pub fn compact_summary(f: &Finding) -> (r: String)
    ensures
        r@ == summary_text(*f),
{
    let ev = &f.evidence;
    let mut out: Vec<char> = Vec::new();
    match f.kind {
        FindingKind::ContextBomb => {
            push_ev(&mut out, ev, "line_count");
            push_str(&mut out, "ln/");
            push_ev(&mut out, ev, "estimated_tokens");
            push_str(&mut out, "tk");
            let extras = bomb_extras_exec(&f.reasons);
            push_vec(&mut out, &extras);
        },
        FindingKind::CouplingHotspot => {
            push_str(&mut out, "in=");
            push_ev(&mut out, ev, "fan_in");
            push_str(&mut out, " out=");
            push_ev(&mut out, ev, "fan_out");
            push_str(&mut out, " I=");
            push_ev(&mut out, ev, "instability");
            push_str(&mut out, " ");
            push_ev(&mut out, ev, "pattern");
        },
        FindingKind::DeadWeight => {
            push_ev(&mut out, ev, "line_count");
            push_str(&mut out, "ln mod=");
            push_ev(&mut out, ev, "module_path");
        },
        FindingKind::ReexportEntropy => {
            push_ev(&mut out, ev, "total_items");
            push_str(&mut out, "sym/");
            push_ev(&mut out, ev, "reexport_count");
            push_str(&mut out, "pu");
            let wc = ev_val_exec(ev, "has_wildcard");
            if eq_str(&wc, "true") {
                push_str(&mut out, " +*");
            }
        },
        FindingKind::CodeDuplication => {
            push_str(&mut out, "fn:");
            let name = dup_fn_name_exec(ev);
            push_vec(&mut out, &name);
            push_str(&mut out, " x");
            push_dec(&mut out, ev.len() as u64);
        },
        FindingKind::UnusedImport => {
            push_ev(&mut out, ev, "unused_count");
            push_str(&mut out, ": ");
            push_ev(&mut out, ev, "preview");
        },
        FindingKind::ErrorSwallow => {
            push_ev(&mut out, ev, "empty_catch_count");
            push_str(&mut out, " empty catch");
        },
        FindingKind::ImportDiversity => {
            push_ev(&mut out, ev, "domain_count");
            push_str(&mut out, "dom (limit:");
            push_ev(&mut out, ev, "limit");
            push_str(&mut out, "): ");
            push_ev(&mut out, ev, "domains");
        },
        FindingKind::BranchDensity => {
            push_ev(&mut out, ev, "avg_branches_per_fn");
            push_str(&mut out, "br/fn (");
            push_ev(&mut out, ev, "branch_count");
            push_str(&mut out, "br, ");
            push_ev(&mut out, ev, "function_count");
            push_str(&mut out, "fn)");
        },
        FindingKind::DeepNesting => {
            push_ev(&mut out, ev, "max_depth");
            push_str(&mut out, "nest (limit:");
            push_ev(&mut out, ev, "limit");
            push_str(&mut out, ")");
        },
        FindingKind::DangerousPattern => {
            push_ev(&mut out, ev, "dangerous_pattern_count");
            push_str(&mut out, "dang (limit:");
            push_ev(&mut out, ev, "limit");
            push_str(&mut out, ")");
        },
        FindingKind::CommentRatio => {
            push_ev(&mut out, ev, "ratio");
            push_str(&mut out, " ");
            push_ev(&mut out, ev, "direction");
        },
        FindingKind::StringlyTyped => {
            push_ev(&mut out, ev, "string_comparison_count");
            push_str(&mut out, "str (limit:");
            push_ev(&mut out, ev, "limit");
            push_str(&mut out, ")");
        },
        FindingKind::NamingEntropy => {
            push_ev(&mut out, ev, "mixed_count");
            push_str(&mut out, "conventions dominant=");
            push_ev(&mut out, ev, "dominant_convention");
        },
        FindingKind::TypeComplexity => {
            push_ev(&mut out, ev, "max_type_depth");
            push_str(&mut out, "nest (limit:");
            push_ev(&mut out, ev, "limit");
            push_str(&mut out, ")");
        },
        FindingKind::ImplicitControl => {
            push_ev(&mut out, ev, "ratio");
            push_str(&mut out, "dec/fn (limit:");
            push_ev(&mut out, ev, "limit");
            push_str(&mut out, ")");
        },
    }
    assert(out@ =~= summary_text(*f));
    string_of(&out)
}

/// The compact next step of a finding.
pub fn compact_next(f: &Finding) -> (r: String)
    ensures
        r@ == next_text(*f),
{
    let ev = &f.evidence;
    let mut out: Vec<char> = Vec::new();
    match f.kind {
        FindingKind::ContextBomb => {
            push_str(&mut out, "split <");
            push_ev(&mut out, ev, "line_count");
            push_str(&mut out, "ln");
        },
        FindingKind::CouplingHotspot => {
            let p = ev_val_exec(ev, "pattern");
            if eq_str(&p, "api") {
                push_str(&mut out, "verify api");
            } else if eq_str(&p, "orch") {
                push_str(&mut out, "split deps");
            } else {
                push_str(&mut out, "decouple");
            }
        },
        FindingKind::DeadWeight => push_str(&mut out, "rm or re-export"),
        FindingKind::ReexportEntropy => push_str(&mut out, "flatten re-exports"),
        FindingKind::CodeDuplication => push_str(&mut out, "DRY: shared util"),
        FindingKind::UnusedImport => push_str(&mut out, "rm imports"),
        FindingKind::ErrorSwallow => push_str(&mut out, "handle errors"),
        FindingKind::BranchDensity => push_str(&mut out, "decompose fns"),
        FindingKind::DeepNesting => push_str(&mut out, "flatten nesting"),
        FindingKind::ImportDiversity => push_str(&mut out, "split by domain"),
        FindingKind::DangerousPattern => push_str(&mut out, "refactor unsafe patterns"),
        FindingKind::CommentRatio => {
            let d = ev_val_exec(ev, "direction");
            if eq_str(&d, "sparse") {
                push_str(&mut out, "add comments");
            } else {
                push_str(&mut out, "trim comments");
            }
        },
        FindingKind::StringlyTyped => push_str(&mut out, "use enums"),
        FindingKind::NamingEntropy => push_str(&mut out, "unify naming conventions"),
        FindingKind::TypeComplexity => push_str(&mut out, "simplify types"),
        FindingKind::ImplicitControl => push_str(&mut out, "minimize decorators"),
    }
    assert(out@ =~= next_text(*f));
    string_of(&out)
}

// ---------------------------------------------------------------------------
// The whole output
// ---------------------------------------------------------------------------

/// The estimated tokens of a finding, or `-`.
pub open spec fn tok_text(t: Option<usize>) -> Seq<char> {
    match t {
        Some(n) => dec(n as nat),
        None => "-"@,
    }
}

/// One line per finding: id, severity code, kind code, path, tokens,
/// compact summary and next step, tab-separated.
pub open spec fn row_text(f: Finding) -> Seq<char> {
    f.id@ + "\t"@ + f.severity.llm_label_text() + "\t"@ + f.kind.llm_code_text() + "\t"@ + f.path@ + "\t"@
        + tok_text(f.estimated_tokens) + "\t"@ + summary_text(f) + "\t"@ + next_text(f) + "\n"@
}

pub open spec fn rows_text(fs: Seq<Finding>) -> Seq<char>
    decreases fs.len(),
{
    if fs.len() == 0 {
        seq![]
    } else {
        rows_text(fs.drop_last()) + row_text(fs.last())
    }
}

/// The summary line; `ratio_text` is the context-waste ratio with one decimal.
pub open spec fn header_text(r: Report, ratio_text: Seq<char>) -> Seq<char> {
    let gs = r.global_score;
    "repo-gc\tfric="@ + dec(gs.ai_friction_score as nat) + "\twaste="@ + dec(gs.context_waste_score as nat)
        + "\tent="@ + dec(gs.structural_entropy_score as nat) + "\tpct="@ + dec(gs.estimated_waste_pct as nat)
        + "\trat="@ + ratio_text + "\tf="@ + dec(r.files_analyzed as nat) + "\tln="@ + dec(r.total_lines as nat)
        + "\ttok="@ + dec(r.total_estimated_tokens as nat / 1000) + "k\n"@
}

pub open spec fn columns_text() -> Seq<char> {
    "id\tsev\tkind\tpath\ttok\tsummary\tnext\n"@
}

/// The LLM rendering of a report.
pub open spec fn llm_text(r: Report, ratio_text: Seq<char>) -> Seq<char> {
    if r.findings@.len() == 0 {
        header_text(r, ratio_text)
    } else {
        header_text(r, ratio_text) + columns_text() + rows_text(by_severity(r.findings@))
    }
}

proof fn lemma_rows_concat(a: Seq<Finding>, b: Seq<Finding>)
    ensures
        rows_text(a + b) == rows_text(a) + rows_text(b),
    decreases b.len(),
{
    if b.len() == 0 {
        assert(a + b =~= a);
        assert(rows_text(a) + rows_text(b) =~= rows_text(a));
    } else {
        lemma_rows_concat(a, b.drop_last());
        assert((a + b).drop_last() =~= a + b.drop_last());
        assert((a + b).last() == b.last());
        assert(rows_text(a + b) =~= rows_text(a) + rows_text(b));
    }
}

fn row_exec(f: &Finding) -> (r: Vec<char>)
    ensures
        r@ == row_text(*f),
{
    let mut out = chars_of(f.id.as_str());
    push_str(&mut out, "\t");
    push_str(&mut out, f.severity.llm_label());
    push_str(&mut out, "\t");
    push_str(&mut out, f.kind.llm_label());
    push_str(&mut out, "\t");
    push_str(&mut out, f.path.as_str());
    push_str(&mut out, "\t");
    match f.estimated_tokens {
        Some(t) => push_dec(&mut out, t as u64),
        None => push_str(&mut out, "-"),
    }
    push_str(&mut out, "\t");
    let summary = compact_summary(f);
    push_str(&mut out, summary.as_str());
    push_str(&mut out, "\t");
    let next = compact_next(f);
    push_str(&mut out, next.as_str());
    push_str(&mut out, "\n");
    assert(out@ =~= row_text(*f));
    out
}

/// Appends the rows of the findings of severity `sev`, in order.
fn push_rows_with(out: &mut Vec<char>, findings: &Vec<Finding>, sev: Severity)
    ensures
        final(out)@ == old(out)@ + rows_text(with_severity(findings@, sev)),
{
    let ghost base = out@;
    let mut i: usize = 0;
    assert(with_severity(findings@.take(0), sev) =~= Seq::<Finding>::empty()) by {
        assert(findings@.take(0) =~= Seq::<Finding>::empty());
    }
    assert(out@ =~= base + rows_text(with_severity(findings@.take(0), sev)));
    while i < findings.len()
        invariant
            i <= findings.len(),
            out@ == base + rows_text(with_severity(findings@.take(i as int), sev)),
        decreases findings.len() - i,
    {
        let ghost t = findings@.take(i + 1);
        proof {
            lemma_with_severity_step(t, sev);
        }
        assert(t.drop_last() =~= findings@.take(i as int));
        assert(t.last() == findings@[i as int]);
        if findings[i].severity == sev {
            let row = row_exec(&findings[i]);
            let ghost w = with_severity(t, sev);
            assert(w == with_severity(findings@.take(i as int), sev).push(findings@[i as int]));
            assert(w.drop_last() =~= with_severity(findings@.take(i as int), sev));
            assert(w.last() == findings@[i as int]);
            assert(rows_text(w) == rows_text(w.drop_last()) + row_text(w.last()));
            push_vec(out, &row);
            assert(out@ =~= base + rows_text(with_severity(t, sev)));
        }
        i += 1;
    }
    assert(findings@.take(i as int) =~= findings@);
}

/// Token-optimized TSV output for LLM consumption. `ratio_text` is the
/// context-waste ratio written with one decimal.
pub fn render(report: &Report, ratio_text: &str) -> (r: String)
    ensures
        r@ == llm_text(*report, ratio_text@),
{
    let mut out = header_exec(report, ratio_text);
    if report.findings.len() == 0 {
        return string_of(&out);
    }
    push_str(&mut out, "id\tsev\tkind\tpath\ttok\tsummary\tnext\n");
    let ghost head = out@;
    let fs = &report.findings;
    push_rows_with(&mut out, fs, Severity::Critical);
    push_rows_with(&mut out, fs, Severity::High);
    push_rows_with(&mut out, fs, Severity::Medium);
    push_rows_with(&mut out, fs, Severity::Low);
    proof {
        lemma_rows_by_severity(fs@);
    }
    assert(out@ =~= head + rows_text(by_severity(fs@)));
    string_of(&out)
}

/// The rows of the sorted findings are the rows of each severity in turn.
proof fn lemma_rows_by_severity(fs: Seq<Finding>)
    ensures
        rows_text(by_severity(fs)) == rows_text(with_severity(fs, Severity::Critical)) + rows_text(
            with_severity(fs, Severity::High),
        ) + rows_text(with_severity(fs, Severity::Medium)) + rows_text(with_severity(fs, Severity::Low)),
{
    let c = with_severity(fs, Severity::Critical);
    let h = with_severity(fs, Severity::High);
    let m = with_severity(fs, Severity::Medium);
    let l = with_severity(fs, Severity::Low);
    lemma_rows_concat(c, h);
    lemma_rows_concat(c + h, m);
    lemma_rows_concat(c + h + m, l);
    assert(rows_text(by_severity(fs)) =~= rows_text(c) + rows_text(h) + rows_text(m) + rows_text(l));
}

fn header_exec(report: &Report, ratio_text: &str) -> (r: Vec<char>)
    ensures
        r@ == header_text(*report, ratio_text@),
{
    let gs = &report.global_score;
    let mut out = chars_of("repo-gc\tfric=");
    push_dec(&mut out, gs.ai_friction_score as u64);
    push_str(&mut out, "\twaste=");
    push_dec(&mut out, gs.context_waste_score as u64);
    push_str(&mut out, "\tent=");
    push_dec(&mut out, gs.structural_entropy_score as u64);
    push_str(&mut out, "\tpct=");
    push_dec(&mut out, gs.estimated_waste_pct as u64);
    push_str(&mut out, "\trat=");
    push_str(&mut out, ratio_text);
    push_str(&mut out, "\tf=");
    push_dec(&mut out, report.files_analyzed as u64);
    push_str(&mut out, "\tln=");
    push_dec(&mut out, report.total_lines as u64);
    push_str(&mut out, "\ttok=");
    push_dec(&mut out, (report.total_estimated_tokens / 1000) as u64);
    push_str(&mut out, "k\n");
    assert(out@ =~= header_text(*report, ratio_text@));
    out
}

} // verus!
