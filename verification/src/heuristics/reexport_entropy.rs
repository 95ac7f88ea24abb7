//! Re-export entropy heuristic: barrel files whose `pub use` items force a
//! reader to chase names through indirections.
use vstd::prelude::*;
use crate::cli::Threshold;
use crate::discovery::files::RustFile;
use crate::parsing::extractor::{FileStructure, PubUseEntry};
use crate::text::{bool_text, dec, sviews};
use crate::types::{finding_id, kv, kv_num, kv_text, next_finding_id, Finding, FindingKind, Severity};

verus! {

/// Total number of names brought in by the first `k` entries.
pub open spec fn items_upto(entries: Seq<PubUseEntry>, k: int) -> nat
    decreases k,
{
    if k <= 0 || k > entries.len() {
        0
    } else {
        items_upto(entries, k - 1) + entries[k - 1].item_count as nat
    }
}

pub open spec fn total_items(structure: FileStructure) -> nat {
    items_upto(structure.pub_use_paths@, structure.pub_use_paths@.len() as int)
}

pub open spec fn has_wildcard(structure: FileStructure) -> bool {
    exists|i: int| 0 <= i < structure.pub_use_paths@.len() && #[trigger] structure.pub_use_paths@[i].is_wildcard
}

/// Three or more re-exports, as many re-exported names as the limit, or a glob.
pub open spec fn fires(structure: FileStructure, threshold: Threshold) -> bool {
    !(structure.pub_use_paths@.len() < 3 && total_items(structure) < threshold.values().reexport_limit
        && !has_wildcard(structure))
}

pub open spec fn severity_for(total: nat, limit: nat, wildcard: bool) -> Severity {
    if total >= limit * 3 || wildcard {
        Severity::High
    } else if total >= limit {
        Severity::Medium
    } else {
        Severity::Low
    }
}

pub open spec fn expected(file: RustFile, structure: FileStructure, threshold: Threshold, n: nat, f: Finding) -> bool {
    f.is(
        finding_id("re"@, n),
        FindingKind::ReexportEntropy,
        severity_for(total_items(structure), threshold.values().reexport_limit as nat, has_wildcard(structure)),
        80,
        file.relative_path@,
        Seq::empty(),
        Seq::empty(),
        seq![
            kv("reexport_count"@, dec(structure.pub_use_paths@.len())),
            kv("total_items"@, dec(total_items(structure))),
            kv("has_wildcard"@, bool_text(has_wildcard(structure))),
        ],
        Seq::empty(),
        None,
    )
}

pub fn analyze(file: &RustFile, structure: &FileStructure, threshold: &Threshold, counter: &mut usize) -> (r: Option<Finding>)
    requires
        total_items(*structure) <= usize::MAX,
        fires(*structure, *threshold) ==> *old(counter) < usize::MAX,
    ensures
        r is Some <==> fires(*structure, *threshold),
        r is None ==> *final(counter) == *old(counter),
        r matches Some(f) ==> *final(counter) == *old(counter) + 1 && expected(
            *file,
            *structure,
            *threshold,
            *final(counter) as nat,
            f,
        ),
{
    let limit = threshold.reexport_limit();
    let entries = &structure.pub_use_paths;
    let pub_use_count = entries.len();
    let mut total: usize = 0;
    let mut wildcard = false;
    let mut i: usize = 0;
    while i < entries.len()
        invariant
            i <= entries.len(),
            entries@ == structure.pub_use_paths@,
            total_items(*structure) <= usize::MAX,
            total as nat == items_upto(entries@, i as int),
            wildcard == (exists|j: int| 0 <= j < i && #[trigger] entries@[j].is_wildcard),
        decreases entries.len() - i,
    {
        proof {
            lemma_items_upto_mono(entries@, i as int + 1, entries@.len() as int);
        }
        total = total + entries[i].item_count;
        if entries[i].is_wildcard {
            wildcard = true;
        }
        i += 1;
    }
    if pub_use_count < 3 && total < limit && !wildcard {
        return None;
    }
    let severity = if total as u128 >= limit as u128 * 3 || wildcard {
        Severity::High
    } else if total >= limit {
        Severity::Medium
    } else {
        Severity::Low
    };
    let id = next_finding_id("re", counter);
    let mut evidence: Vec<String> = Vec::new();
    evidence.push(kv_num("reexport_count", pub_use_count));
    evidence.push(kv_num("total_items", total));
    let wtext = if wildcard { crate::text::chars_of("true") } else { crate::text::chars_of("false") };
    evidence.push(kv_text("has_wildcard", &wtext));
    assert(sviews(evidence@) =~= seq![
        kv("reexport_count"@, dec(pub_use_count as nat)),
        kv("total_items"@, dec(total as nat)),
        kv("has_wildcard"@, bool_text(wildcard)),
    ]);
    Some(Finding::new(id, FindingKind::ReexportEntropy, severity, 80, file.relative_path.clone(), evidence))
}

/// Prefix sums never decrease.
pub proof fn lemma_items_upto_mono(entries: Seq<PubUseEntry>, a: int, b: int)
    requires
        0 <= a <= b <= entries.len(),
    ensures
        items_upto(entries, a) <= items_upto(entries, b),
    decreases b - a,
{
    if a < b {
        lemma_items_upto_mono(entries, a, b - 1);
    }
}

} // verus!
