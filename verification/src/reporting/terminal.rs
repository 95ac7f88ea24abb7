//! What the terminal rendering decides: score bars, labels and colours, and
//! the cleanup targets it lists. Printing itself happens at the edge.
use vstd::prelude::*;
use crate::reporting::markdown::priority;
use crate::text::{push_str, string_of, sviews};
use crate::types::{lemma_with_severity_step, with_severity, Finding, Severity};

verus! {

/// How a piece of terminal text is coloured.
#[derive(Debug, Clone, Copy, PartialEq, Eq, Structural)]
pub enum Tone {
    RedBold,
    Red,
    Yellow,
    Green,
    Plain,
}

/// Filled cells of a score bar: one per five points, rounded to the nearest
/// cell, at most ten. A score of 28 fills six cells, and every score of 48
/// or more fills all ten: the bar resolves the lower half of the 0-100
/// range and is full above it.
pub open spec fn filled_cells(score: nat) -> nat {
    if (score + 2) / 5 <= 10 {
        (score + 2) / 5
    } else {
        10
    }
}

pub open spec fn repeat_char(c: char, n: nat) -> Seq<char> {
    Seq::new(n, |i: int| c)
}

/// A ten-cell bar: full blocks for the filled cells, light shade for the rest.
pub open spec fn bar_text(score: nat) -> Seq<char> {
    repeat_char('█', filled_cells(score)) + repeat_char('░', (10 - filled_cells(score)) as nat)
}

/// A ten-cell bar: full blocks for the filled cells, light shade for the rest.
pub fn score_bar(score: u32) -> (r: String)
    ensures
        r@ == bar_text(score as nat),
{
    let cells: u64 = (score as u64 + 2) / 5;
    let filled: u32 = if cells <= 10 {
        cells as u32
    } else {
        10
    };
    let mut v: Vec<char> = Vec::new();
    let mut i: u32 = 0;
    while i < 10
        invariant
            i <= 10,
            filled <= 10,
            filled == filled_cells(score as nat),
            v@ == (if i <= filled {
                repeat_char('█', i as nat)
            } else {
                repeat_char('█', filled as nat) + repeat_char('░', (i - filled) as nat)
            }),
        decreases 10 - i,
    {
        if i < filled {
            v.push('█');
            assert(v@ =~= repeat_char('█', (i + 1) as nat));
        } else {
            v.push('░');
            assert(v@ =~= repeat_char('█', filled as nat) + repeat_char('░', (i + 1 - filled) as nat));
        }
        i += 1;
    }
    assert(v@ =~= bar_text(score as nat));
    string_of(&v)
}

pub open spec fn label_for(score: nat) -> Seq<char> {
    if score >= 70 {
        "HIGH"@
    } else if score >= 40 {
        "MEDIUM"@
    } else {
        "LOW"@
    }
}

/// The word for a score's level.
pub fn score_label(score: u32) -> (r: &'static str)
    ensures
        r@ == label_for(score as nat),
{
    if score >= 70 {
        "HIGH"
    } else if score >= 40 {
        "MEDIUM"
    } else {
        "LOW"
    }
}

pub open spec fn tone_for_score(score: nat) -> Tone {
    if score >= 70 {
        Tone::RedBold
    } else if score >= 40 {
        Tone::Yellow
    } else {
        Tone::Green
    }
}

/// The colour of a score: red from 70, yellow from 40, green below.
pub fn score_tone(score: u32) -> (t: Tone)
    ensures
        t == tone_for_score(score as nat),
{
    if score >= 70 {
        Tone::RedBold
    } else if score >= 40 {
        Tone::Yellow
    } else {
        Tone::Green
    }
}

pub open spec fn tone_for_severity(s: Severity) -> Tone {
    match s {
        Severity::Critical => Tone::RedBold,
        Severity::High => Tone::Red,
        Severity::Medium => Tone::Yellow,
        Severity::Low => Tone::Plain,
    }
}

/// The colour of a severity label.
pub fn severity_tone(s: Severity) -> (t: Tone)
    ensures
        t == tone_for_severity(s),
{
    match s {
        Severity::Critical => Tone::RedBold,
        Severity::High => Tone::Red,
        Severity::Medium => Tone::Yellow,
        Severity::Low => Tone::Plain,
    }
}

/// The next steps of the first five Critical or High findings, most severe
/// first.
pub fn cleanup_targets(findings: &Vec<Finding>) -> (r: Vec<String>)
    ensures
        sviews(r@) == priority(findings@).map_values(|f: Finding| f.suggested_next_step@),
{
    let mut out: Vec<String> = Vec::new();
    let ghost c = with_severity(findings@, Severity::Critical);
    let ghost h = with_severity(findings@, Severity::High);
    collect_steps(&mut out, findings, Severity::Critical);
    let ghost after_c = sviews(out@);
    collect_steps(&mut out, findings, Severity::High);
    let ghost top = c + h;
    assert(sviews(out@) =~= top.map_values(|f: Finding| f.suggested_next_step@));
    if out.len() > 5 {
        let ghost before = sviews(out@);
        out.truncate(5);
        assert(sviews(out@) =~= before.take(5));
        assert(sviews(out@) =~= top.take(5).map_values(|f: Finding| f.suggested_next_step@));
    } else {
        assert(top.len() <= 5);
    }
    assert(sviews(out@) =~= priority(findings@).map_values(|f: Finding| f.suggested_next_step@));
    out
}

/// Appends the next steps of the findings of severity `sev`, in order.
fn collect_steps(out: &mut Vec<String>, findings: &Vec<Finding>, sev: Severity)
    ensures
        sviews(final(out)@) == sviews(old(out)@) + with_severity(findings@, sev).map_values(
            |f: Finding| f.suggested_next_step@,
        ),
{
    let ghost base = sviews(out@);
    let mut i: usize = 0;
    assert(findings@.take(0) =~= Seq::<Finding>::empty());
    assert(with_severity(findings@.take(0), sev).len() == 0) by {
        reveal(Seq::filter);
    }
    assert(sviews(out@) =~= base + with_severity(findings@.take(0), sev).map_values(
        |f: Finding| f.suggested_next_step@,
    ));
    while i < findings.len()
        invariant
            i <= findings.len(),
            sviews(out@) == base + with_severity(findings@.take(i as int), sev).map_values(
                |f: Finding| f.suggested_next_step@,
            ),
        decreases findings.len() - i,
    {
        let ghost t = findings@.take(i + 1);
        proof {
            lemma_with_severity_step(t, sev);
        }
        assert(t.drop_last() =~= findings@.take(i as int));
        assert(t.last() == findings@[i as int]);
        if findings[i].severity == sev {
            let ghost before = sviews(out@);
            out.push(findings[i].suggested_next_step.clone());
            assert(sviews(out@) =~= before.push(findings@[i as int].suggested_next_step@));
            assert(sviews(out@) =~= base + with_severity(t, sev).map_values(|f: Finding| f.suggested_next_step@));
        }
        i += 1;
    }
    assert(findings@.take(i as int) =~= findings@);
}

} // verus!
