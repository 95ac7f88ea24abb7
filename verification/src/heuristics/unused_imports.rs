//! Unused imports: names a private `use` item brings in that the file never
//! mentions again. Derive and procedural macros may use names invisibly, so
//! a finding needs at least two of them and carries a low confidence.
use vstd::prelude::*;
use crate::cli::Threshold;
use crate::discovery::files::RustFile;
use crate::parsing::extractor::FileStructure;
use crate::text::{chars_of, dec, eq_chars, join, join_exec, push_dec, push_str, push_vec, string_of, sviews, vviews};
use crate::types::{finding_id, next_finding_id, Finding, FindingKind, Severity};

verus! {

/// Unused imports needed before a finding.
pub const MIN_UNUSED: usize = 2;

/// The imported leaf names among the first `k` that the file never mentions, in order.
pub open spec fn unused_upto(structure: FileStructure, k: int) -> Seq<Seq<char>>
    decreases k,
{
    if k <= 0 || k > structure.use_leaf_names@.len() {
        seq![]
    } else {
        let prev = unused_upto(structure, k - 1);
        let name = structure.use_leaf_names@[k - 1]@;
        if sviews(structure.all_identifiers@).contains(name) {
            prev
        } else {
            prev.push(name)
        }
    }
}

/// The imported leaf names the file never mentions, in import order.
pub open spec fn unused(structure: FileStructure) -> Seq<Seq<char>> {
    unused_upto(structure, structure.use_leaf_names@.len() as int)
}

pub open spec fn fires(structure: FileStructure) -> bool {
    unused(structure).len() >= MIN_UNUSED
}

/// The first (at most) five names.
pub open spec fn preview(names: Seq<Seq<char>>) -> Seq<Seq<char>> {
    if names.len() <= 5 {
        names
    } else {
        names.take(5)
    }
}

pub open spec fn summary_text(names: Seq<Seq<char>>) -> Seq<char> {
    "Zombie imports — "@ + dec(names.len()) + " unused names inflate token usage in every context window: "@
        + join(preview(names), ", "@)
}

pub open spec fn reason_text(n: nat) -> Seq<char> {
    dec(n) + " imported names not referenced in file body; macros/derives may cause false positives"@
}

pub open spec fn evidence_line(name: Seq<char>) -> Seq<char> {
    "imported but unreferenced: "@ + name
}

pub open spec fn next_step_text() -> Seq<char> {
    "Remove zombie imports to reduce token waste, or verify they are needed by derive macros"@
}

pub open spec fn expected(file: RustFile, structure: FileStructure, n: nat, f: Finding) -> bool {
    let names = unused(structure);
    f.is(
        finding_id("ui"@, n),
        FindingKind::UnusedImport,
        if names.len() >= 5 {
            Severity::Medium
        } else {
            Severity::Low
        },
        65,
        file.relative_path@,
        summary_text(names),
        seq![reason_text(names.len())],
        names.map_values(|name: Seq<char>| evidence_line(name)),
        next_step_text(),
        None,
    )
}

/// `x` is one of the file's identifiers, computed.
fn mentioned(idents: &Vec<String>, x: &Vec<char>) -> (b: bool)
    ensures
        b == sviews(idents@).contains(x@),
{
    let mut i: usize = 0;
    while i < idents.len()
        invariant
            i <= idents.len(),
            forall|j: int| 0 <= j < i ==> sviews(idents@)[j] != x@,
        decreases idents.len() - i,
    {
        let v = chars_of(idents[i].as_str());
        if eq_chars(&v, x) {
            assert(sviews(idents@)[i as int] == x@);
            return true;
        }
        i += 1;
    }
    false
}

pub fn analyze(file: &RustFile, structure: &FileStructure, _threshold: &Threshold, counter: &mut usize) -> (r: Option<Finding>)
    requires
        fires(*structure) ==> *old(counter) < usize::MAX,
    ensures
        r is Some <==> fires(*structure),
        r is None ==> *final(counter) == *old(counter),
        r matches Some(f) ==> *final(counter) == *old(counter) + 1 && expected(
            *file,
            *structure,
            *final(counter) as nat,
            f,
        ),
{
    let leaves = &structure.use_leaf_names;
    let mut names: Vec<Vec<char>> = Vec::new();
    let mut k: usize = 0;
    while k < leaves.len()
        invariant
            k <= leaves.len(),
            leaves@ == structure.use_leaf_names@,
            vviews(names@) == unused_upto(*structure, k as int),
            names.len() <= k,
        decreases leaves.len() - k,
    {
        let name = chars_of(leaves[k].as_str());
        if !mentioned(&structure.all_identifiers, &name) {
            let ghost before = vviews(names@);
            names.push(name);
            assert(vviews(names@) =~= before.push(leaves@[k as int]@));
        }
        k += 1;
    }
    let count = names.len();
    if count < MIN_UNUSED {
        return None;
    }
    let severity = if count >= 5 {
        Severity::Medium
    } else {
        Severity::Low
    };
    let id = next_finding_id("ui", counter);
    let mut shown: Vec<Vec<char>> = Vec::new();
    let mut i: usize = 0;
    while i < names.len() && i < 5
        invariant
            i <= names.len(),
            i <= 5,
            vviews(shown@) == vviews(names@).take(i as int),
        decreases names.len() - i,
    {
        let ghost before = shown@;
        shown.push(names[i].clone());
        assert(vviews(shown@) =~= vviews(before).push(names@[i as int]@));
        assert(vviews(shown@) =~= vviews(names@).take(i + 1));
        i += 1;
    }
    assert(vviews(shown@) =~= preview(vviews(names@)));
    let sep = chars_of(", ");
    let joined = join_exec(&shown, &sep);
    let mut summary = chars_of("Zombie imports — ");
    push_dec(&mut summary, count as u64);
    push_str(&mut summary, " unused names inflate token usage in every context window: ");
    push_vec(&mut summary, &joined);
    assert(summary@ =~= summary_text(vviews(names@)));
    let mut reason: Vec<char> = Vec::new();
    push_dec(&mut reason, count as u64);
    push_str(&mut reason, " imported names not referenced in file body; macros/derives may cause false positives");
    assert(reason@ =~= reason_text(count as nat));
    let mut reasons: Vec<String> = Vec::new();
    reasons.push(string_of(&reason));
    assert(sviews(reasons@) =~= seq![reason_text(count as nat)]);
    let mut evidence: Vec<String> = Vec::new();
    let mut j: usize = 0;
    while j < names.len()
        invariant
            j <= names.len(),
            sviews(evidence@) == vviews(names@).take(j as int).map_values(|name: Seq<char>| evidence_line(name)),
        decreases names.len() - j,
    {
        let mut line = chars_of("imported but unreferenced: ");
        push_vec(&mut line, &names[j]);
        let ghost before = sviews(evidence@);
        evidence.push(string_of(&line));
        assert(sviews(evidence@) =~= before.push(evidence_line(names@[j as int]@)));
        assert(vviews(names@).take(j + 1) =~= vviews(names@).take(j as int).push(names@[j as int]@));
        assert(sviews(evidence@) =~= vviews(names@).take(j + 1).map_values(|name: Seq<char>| evidence_line(name)));
        j += 1;
    }
    assert(vviews(names@).take(j as int) =~= vviews(names@));
    let next = chars_of("Remove zombie imports to reduce token waste, or verify they are needed by derive macros");
    Some(Finding {
        id,
        kind: FindingKind::UnusedImport,
        severity,
        confidence_pct: 65,
        path: file.relative_path.clone(),
        summary: string_of(&summary),
        reasons,
        evidence,
        suggested_next_step: string_of(&next),
        estimated_tokens: None,
    })
}

} // verus!
