//! Coupling hotspots: files that many others import (an API hub), that
//! import many others (an orchestrator), or both (a god module).
use vstd::prelude::*;
use crate::cli::Threshold;
use crate::discovery::files::RustFile;
use crate::graph::import_graph::ImportGraph;
use crate::text::{chars_of, dec, fixed, push_fixed, push_str, sviews};
use crate::types::{finding_id, kv, kv_num, kv_text, next_finding_id, Finding, FindingKind, Severity};

verus! {

/// Fan-in or fan-out reaches the level's limit.
pub open spec fn fires(fan_in: nat, fan_out: nat, threshold: Threshold) -> bool {
    fan_in >= threshold.values().fan_in_limit || fan_out >= threshold.values().fan_out_limit
}

/// Severity, confidence (hundredths) and pattern label of a hotspot.
pub open spec fn classify(fan_in: nat, fan_out: nat, threshold: Threshold) -> (Severity, u32, Seq<char>) {
    let in_limit = threshold.values().fan_in_limit as nat;
    let out_limit = threshold.values().fan_out_limit as nat;
    let in_over = fan_in >= in_limit;
    let out_over = fan_out >= out_limit;
    if in_over && !out_over {
        (Severity::Medium, 65, "api"@)
    } else if !in_over && out_over {
        (if fan_out >= out_limit * 3 {
            Severity::High
        } else {
            Severity::Medium
        }, 70, "orch"@)
    } else {
        (if fan_in >= in_limit * 3 || fan_out >= out_limit * 2 {
            Severity::High
        } else {
            Severity::Medium
        }, 85, "god"@)
    }
}

/// `{:.3}` of the instability `fan_out / (fan_in + fan_out)`, 0 without imports.
pub open spec fn instability_text(fan_in: nat, fan_out: nat) -> Seq<char> {
    if fan_in + fan_out > 0 {
        fixed(fan_out, fan_in + fan_out, 3)
    } else {
        "0.000"@
    }
}

pub open spec fn expected(file: RustFile, fan_in: nat, fan_out: nat, threshold: Threshold, n: nat, f: Finding) -> bool {
    let c = classify(fan_in, fan_out, threshold);
    f.is(
        finding_id("ch"@, n),
        FindingKind::CouplingHotspot,
        c.0,
        c.1,
        file.relative_path@,
        Seq::empty(),
        Seq::empty(),
        seq![
            kv("fan_in"@, dec(fan_in)),
            kv("fan_out"@, dec(fan_out)),
            kv("instability"@, instability_text(fan_in, fan_out)),
            kv("pattern"@, c.2),
        ],
        Seq::empty(),
        None,
    )
}

pub fn analyze(file: &RustFile, graph: &ImportGraph, threshold: &Threshold, counter: &mut usize) -> (r: Option<Finding>)
    requires
        graph.fan_in_of(file.path@) + graph.fan_out_of(file.path@) <= usize::MAX,
        fires(graph.fan_in_of(file.path@), graph.fan_out_of(file.path@), *threshold) ==> *old(counter)
            < usize::MAX,
    ensures
        r is Some <==> fires(graph.fan_in_of(file.path@), graph.fan_out_of(file.path@), *threshold),
        r is None ==> *final(counter) == *old(counter),
        r matches Some(f) ==> *final(counter) == *old(counter) + 1 && expected(
            *file,
            graph.fan_in_of(file.path@),
            graph.fan_out_of(file.path@),
            *threshold,
            *final(counter) as nat,
            f,
        ),
{
    let fan_in = graph.get_fan_in(file.path.as_str());
    let fan_out = graph.get_fan_out(file.path.as_str());
    let in_limit = threshold.fan_in_limit();
    let out_limit = threshold.fan_out_limit();
    if fan_in < in_limit && fan_out < out_limit {
        return None;
    }
    let in_over = fan_in >= in_limit;
    let out_over = fan_out >= out_limit;
    let (severity, confidence, label): (Severity, u32, &str) = if in_over && !out_over {
        (Severity::Medium, 65, "api")
    } else if !in_over && out_over {
        (if fan_out >= out_limit * 3 {
            Severity::High
        } else {
            Severity::Medium
        }, 70, "orch")
    } else {
        (if fan_in >= in_limit * 3 || fan_out >= out_limit * 2 {
            Severity::High
        } else {
            Severity::Medium
        }, 85, "god")
    };
    let mut inst: Vec<char> = Vec::new();
    let total = fan_in + fan_out;
    if total > 0 {
        push_fixed(&mut inst, fan_out as u64, total as u64, 3);
    } else {
        push_str(&mut inst, "0.000");
    }
    assert(inst@ == instability_text(fan_in as nat, fan_out as nat));
    let id = next_finding_id("ch", counter);
    let mut evidence: Vec<String> = Vec::new();
    evidence.push(kv_num("fan_in", fan_in));
    evidence.push(kv_num("fan_out", fan_out));
    evidence.push(kv_text("instability", &inst));
    evidence.push(kv_text("pattern", &chars_of(label)));
    assert(sviews(evidence@) =~= seq![
        kv("fan_in"@, dec(fan_in as nat)),
        kv("fan_out"@, dec(fan_out as nat)),
        kv("instability"@, instability_text(fan_in as nat, fan_out as nat)),
        kv("pattern"@, label@),
    ]);
    Some(Finding::new(id, FindingKind::CouplingHotspot, severity, confidence, file.relative_path.clone(), evidence))
}

} // verus!
