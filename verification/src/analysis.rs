//! One analysis run over parsed files: every heuristic applied, the
//! findings sorted by severity, and the totals of the report.
use vstd::prelude::*;
use crate::cli::Threshold;
use crate::discovery::files::RustFile;
use crate::graph::import_graph::{fan_in_spec, fan_out_spec, total_uses, ImportGraph};
use crate::heuristics::context_bombs;
use crate::heuristics::coupling;
use crate::heuristics::dead_weight;
use crate::heuristics::duplication;
use crate::heuristics::reexport_entropy;
use crate::heuristics::unused_imports;
use crate::parsing::extractor::FileStructure;
use crate::paths::{same_path, same_path_exec};
use crate::text::{chars_of, dec, push_dec, push_str, string_of, sviews};
use crate::types::{by_severity, lemma_by_severity_same, same_findings, sort_by_severity, Finding};

verus! {

/// Heuristic `h` (0: context bomb, 1: re-export entropy, 2: coupling,
/// 3: unused imports) fires on file `i`.
pub open spec fn fires_at(files: Seq<RustFile>, structures: Seq<FileStructure>, t: Threshold, h: int, i: int) -> bool {
    if h == 0 {
        context_bombs::fires(files[i], t)
    } else if h == 1 {
        reexport_entropy::fires(structures[i], t)
    } else if h == 2 {
        coupling::fires(fan_in_spec(structures, files[i].path@), fan_out_spec(structures, files[i].path@), t)
    } else {
        unused_imports::fires(structures[i])
    }
}

/// How many of the first `i` files heuristic `h` fires on.
pub open spec fn fired_before(files: Seq<RustFile>, structures: Seq<FileStructure>, t: Threshold, h: int, i: int) -> nat
    decreases i,
{
    if i <= 0 {
        0
    } else {
        fired_before(files, structures, t, h, i - 1) + if fires_at(files, structures, t, h, i - 1) {
            1nat
        } else {
            0nat
        }
    }
}

/// `f` is the finding of heuristic `h` on file `i`, numbered after those
/// of the files before it.
pub open spec fn slot_ok(files: Seq<RustFile>, structures: Seq<FileStructure>, t: Threshold, h: int, i: int, f: Finding) -> bool {
    let n = fired_before(files, structures, t, h, i) + 1;
    if h == 0 {
        context_bombs::expected(files[i], structures[i], t, n, f)
    } else if h == 1 {
        reexport_entropy::expected(files[i], structures[i], t, n, f)
    } else if h == 2 {
        coupling::expected(
            files[i],
            fan_in_spec(structures, files[i].path@),
            fan_out_spec(structures, files[i].path@),
            t,
            n,
            f,
        )
    } else {
        unused_imports::expected(files[i], structures[i], n, f)
    }
}

/// The heuristics that fire on file `i`, in the order they are applied.
pub open spec fn file_slots(files: Seq<RustFile>, structures: Seq<FileStructure>, t: Threshold, i: int) -> Seq<int> {
    (if fires_at(files, structures, t, 0, i) {
        seq![0int]
    } else {
        seq![]
    }) + (if fires_at(files, structures, t, 1, i) {
        seq![1int]
    } else {
        seq![]
    }) + (if fires_at(files, structures, t, 2, i) {
        seq![2int]
    } else {
        seq![]
    }) + (if fires_at(files, structures, t, 3, i) {
        seq![3int]
    } else {
        seq![]
    })
}

/// (file, heuristic) of every per-file finding of the first `k` files, in order.
pub open spec fn all_slots(files: Seq<RustFile>, structures: Seq<FileStructure>, t: Threshold, k: int) -> Seq<(int, int)>
    decreases k,
{
    if k <= 0 {
        seq![]
    } else {
        all_slots(files, structures, t, k - 1) + file_slots(files, structures, t, k - 1).map_values(
            |h: int| (k - 1, h),
        )
    }
}

/// `part` holds the per-file findings of the first `k` files.
pub open spec fn per_file_ok(files: Seq<RustFile>, structures: Seq<FileStructure>, t: Threshold, k: int, part: Seq<Finding>) -> bool {
    let sl = all_slots(files, structures, t, k);
    &&& part.len() == sl.len()
    &&& forall|p: int| 0 <= p < sl.len() ==> slot_ok(files, structures, t, sl[p].1, sl[p].0, #[trigger] part[p])
}

/// The findings before sorting: per file (context bomb, re-export entropy,
/// coupling, unused imports), then the orphaned files, then the duplicates.
pub open spec fn unsorted_ok(
    files: Seq<RustFile>,
    structures: Seq<FileStructure>,
    t: Threshold,
    raw: Seq<Finding>,
) -> bool {
    let nf = all_slots(files, structures, t, files.len() as int).len();
    let orphans = dead_weight::orphans(files, structures);
    &&& raw.len() >= nf + orphans.len()
    &&& per_file_ok(files, structures, t, files.len() as int, raw.take(nf as int))
    &&& forall|q: int|
        0 <= q < orphans.len() ==> dead_weight::expected(orphans[q], structures, (q + 1) as nat, #[trigger] raw[nf + q])
    &&& duplication::expected_findings(
        duplication::dup_entries(structures, duplication::named_renamed(structures), duplication::named_counts(structures)),
        0,
        raw.skip((nf + orphans.len()) as int),
    )
}

/// The findings of the four per-file heuristics on file `i`, each counter
/// moved on by the findings of its heuristic.
fn file_findings(
    files: &Vec<RustFile>,
    structures: &Vec<FileStructure>,
    graph: &ImportGraph,
    threshold: &Threshold,
    i: usize,
    counters: &mut Vec<usize>,
) -> (r: Vec<Finding>)
    requires
        i < files.len() == structures.len(),
        old(counters).len() == 4,
        forall|h: int| 0 <= h < 4 ==> #[trigger] old(counters)@[h] as nat == fired_before(files@, structures@, *threshold, h, i as int),
        forall|h: int| 0 <= h < 4 ==> #[trigger] old(counters)@[h] <= i,
        forall|p: Seq<char>| #[trigger] graph.fan_in_of(p) == fan_in_spec(structures@, p),
        forall|p: Seq<char>| #[trigger] graph.fan_out_of(p) == fan_out_spec(structures@, p),
        fan_in_spec(structures@, files@[i as int].path@) + fan_out_spec(structures@, files@[i as int].path@) <= usize::MAX,
        reexport_entropy::total_items(structures@[i as int]) <= usize::MAX,
    ensures
        final(counters).len() == 4,
        forall|h: int| 0 <= h < 4 ==> #[trigger] final(counters)@[h] as nat == fired_before(files@, structures@, *threshold, h, i + 1),
        forall|h: int| 0 <= h < 4 ==> #[trigger] final(counters)@[h] <= i + 1,
        r.len() == file_slots(files@, structures@, *threshold, i as int).len(),
        forall|q: int|
            0 <= q < r.len() ==> slot_ok(
                files@,
                structures@,
                *threshold,
                file_slots(files@, structures@, *threshold, i as int)[q],
                i as int,
                #[trigger] r@[q],
            ),
{
    let file = &files[i];
    let s = &structures[i];
    let ghost fs = files@;
    let ghost ss = structures@;
    let ghost t = *threshold;
    let mut out: Vec<Finding> = Vec::new();
    let ghost mut done: Seq<int> = seq![];
    let mut c = counters[0];
    if let Some(f) = context_bombs::analyze(file, s, threshold, &mut c) {
        out.push(f);
        proof {
            done = done.push(0);
        }
    }
    counters.set(0, c);
    let mut c = counters[1];
    if let Some(f) = reexport_entropy::analyze(file, s, threshold, &mut c) {
        out.push(f);
        proof {
            done = done.push(1);
        }
    }
    counters.set(1, c);
    let mut c = counters[2];
    if let Some(f) = coupling::analyze(file, graph, threshold, &mut c) {
        out.push(f);
        proof {
            done = done.push(2);
        }
    }
    counters.set(2, c);
    let mut c = counters[3];
    if let Some(f) = unused_imports::analyze(file, s, threshold, &mut c) {
        out.push(f);
        proof {
            done = done.push(3);
        }
    }
    counters.set(3, c);
    assert(done =~= file_slots(fs, ss, t, i as int));
    out
}

proof fn lemma_orphans_len(files: Seq<RustFile>, structures: Seq<FileStructure>, k: int)
    requires
        0 <= k <= files.len(),
    ensures
        dead_weight::orphans_upto(files, structures, k).len() <= k,
    decreases k,
{
    if k > 0 {
        lemma_orphans_len(files, structures, k - 1);
    }
}

/// The findings of a run over parsed files (`files[i]` parsed into
/// `structures[i]`), sorted by severity.
pub fn collect_findings(
    files: &Vec<RustFile>,
    structures: &Vec<FileStructure>,
    threshold: &Threshold,
) -> (r: Vec<Finding>)
    requires
        files.len() == structures.len(),
        total_uses(structures@) <= usize::MAX,
        forall|i: int|
            0 <= i < files.len() ==> fan_in_spec(structures@, (#[trigger] files@[i]).path@) + fan_out_spec(
                structures@,
                files@[i].path@,
            ) <= usize::MAX,
        forall|i: int| 0 <= i < structures.len() ==> reexport_entropy::total_items(#[trigger] structures@[i]) <= usize::MAX,
        duplication::bodies_upto(structures@, structures@.len() as int) <= usize::MAX,
    ensures
        exists|raw: Seq<Finding>|
            #[trigger] unsorted_ok(files@, structures@, *threshold, raw) && r@ == by_severity(raw),
{
    let graph = ImportGraph::build(structures, "");
    let ghost fs = files@;
    let ghost ss = structures@;
    let ghost t = *threshold;
    let mut counters: Vec<usize> = vec![0, 0, 0, 0];
    let mut part: Vec<Finding> = Vec::new();
    let mut i: usize = 0;
    assert(part@ =~= Seq::<Finding>::empty());
    while i < files.len()
        invariant
            i <= files.len() == structures.len(),
            fs == files@,
            ss == structures@,
            t == *threshold,
            counters.len() == 4,
            forall|h: int| 0 <= h < 4 ==> #[trigger] counters@[h] as nat == fired_before(fs, ss, t, h, i as int),
            forall|h: int| 0 <= h < 4 ==> #[trigger] counters@[h] <= i,
            forall|p: Seq<char>| #[trigger] graph.fan_in_of(p) == fan_in_spec(ss, p),
            forall|p: Seq<char>| #[trigger] graph.fan_out_of(p) == fan_out_spec(ss, p),
            forall|j: int|
                0 <= j < fs.len() ==> fan_in_spec(ss, (#[trigger] fs[j]).path@) + fan_out_spec(ss, fs[j].path@)
                    <= usize::MAX,
            forall|j: int| 0 <= j < ss.len() ==> reexport_entropy::total_items(#[trigger] ss[j]) <= usize::MAX,
            per_file_ok(fs, ss, t, i as int, part@),
        decreases files.len() - i,
    {
        let ghost before = part@;
        let mut more = file_findings(files, structures, &graph, threshold, i, &mut counters);
        let ghost added = more@;
        part.append(&mut more);
        proof {
            let sl = all_slots(fs, ss, t, i + 1);
            let fsl = file_slots(fs, ss, t, i as int);
            assert(sl == all_slots(fs, ss, t, i as int) + fsl.map_values(|h: int| (i as int, h)));
            assert forall|p: int| 0 <= p < sl.len() implies slot_ok(fs, ss, t, sl[p].1, sl[p].0, #[trigger] part@[p]) by {
                if p < before.len() {
                    assert(part@[p] == before[p]);
                } else {
                    let q = p - before.len();
                    assert(part@[p] == added[q]);
                    assert(sl[p] == (i as int, fsl[q]));
                }
            }
        }
        i += 1;
    }
    let ghost nf = part@.len();
    proof {
        lemma_orphans_len(fs, ss, fs.len() as int);
    }
    let mut dw: usize = 0;
    let mut orphans = dead_weight::analyze_orphaned_files(files, structures, &mut dw);
    let ghost orph = orphans@;
    let mut dup: usize = 0;
    let mut dups = duplication::analyze_duplicates(structures, &mut dup);
    let ghost dv = dups@;
    part.append(&mut orphans);
    part.append(&mut dups);
    let ghost raw = part@;
    proof {
        assert(raw.take(nf as int) =~= raw.subrange(0, nf as int));
        let base = raw.take(nf as int);
        assert forall|p: int| 0 <= p < base.len() implies #[trigger] base[p] == raw[p] by {}
        assert(raw.skip((nf + orph.len()) as int) =~= dv);
        assert forall|q: int| 0 <= q < orph.len() implies #[trigger] raw[nf + q] == orph[q] by {}
        assert(unsorted_ok(fs, ss, t, raw));
    }
    sort_by_severity(part)
}

proof fn lemma_fires_mono(files: Seq<RustFile>, structures: Seq<FileStructure>, t1: Threshold, t2: Threshold, h: int, i: int)
    requires
        t1.leniency() <= t2.leniency(),
    ensures
        fires_at(files, structures, t2, h, i) ==> fires_at(files, structures, t1, h, i),
{
    crate::canonical::lemma_levels_ordered();
}

proof fn lemma_slots_mono(files: Seq<RustFile>, structures: Seq<FileStructure>, t1: Threshold, t2: Threshold, k: int)
    requires
        t1.leniency() <= t2.leniency(),
    ensures
        all_slots(files, structures, t1, k).len() >= all_slots(files, structures, t2, k).len(),
    decreases k,
{
    if k > 0 {
        lemma_slots_mono(files, structures, t1, t2, k - 1);
        lemma_fires_mono(files, structures, t1, t2, 0, k - 1);
        lemma_fires_mono(files, structures, t1, t2, 1, k - 1);
        lemma_fires_mono(files, structures, t1, t2, 2, k - 1);
        lemma_fires_mono(files, structures, t1, t2, 3, k - 1);
    }
}

proof fn lemma_unsorted_len(
    files: Seq<RustFile>,
    structures: Seq<FileStructure>,
    t: Threshold,
    raw: Seq<Finding>,
)
    requires
        unsorted_ok(files, structures, t, raw),
    ensures
        raw.len() == all_slots(files, structures, t, files.len() as int).len() + dead_weight::orphans(
            files,
            structures,
        ).len() + duplication::report_order(
            duplication::dup_entries(structures, duplication::named_renamed(structures), duplication::named_counts(structures)),
        ).len(),
{
}

/// A stricter threshold never finds fewer: over the same parsed files, a run
/// at a level at least as strict reports at least as many findings.
pub proof fn law_stricter_threshold_finds_no_fewer(
    files: Seq<RustFile>,
    structures: Seq<FileStructure>,
    stricter: Threshold,
    looser: Threshold,
    r1: Seq<Finding>,
    r2: Seq<Finding>,
)
    requires
        stricter.leniency() <= looser.leniency(),
        exists|raw: Seq<Finding>| #[trigger] unsorted_ok(files, structures, stricter, raw) && r1 == by_severity(raw),
        exists|raw: Seq<Finding>| #[trigger] unsorted_ok(files, structures, looser, raw) && r2 == by_severity(raw),
    ensures
        r1.len() >= r2.len(),
{
    let raw1 = choose|raw: Seq<Finding>| #[trigger] unsorted_ok(files, structures, stricter, raw) && r1 == by_severity(raw);
    let raw2 = choose|raw: Seq<Finding>| #[trigger] unsorted_ok(files, structures, looser, raw) && r2 == by_severity(raw);
    lemma_unsorted_len(files, structures, stricter, raw1);
    lemma_unsorted_len(files, structures, looser, raw2);
    lemma_slots_mono(files, structures, stricter, looser, files.len() as int);
    crate::types::lemma_by_severity_len(raw1);
    crate::types::lemma_by_severity_len(raw2);
}

/// A run is deterministic: over the same parsed files and threshold, two
/// runs report the same findings, field for field, in the same order.
pub proof fn law_runs_are_deterministic(
    files: Seq<RustFile>,
    structures: Seq<FileStructure>,
    t: Threshold,
    r1: Seq<Finding>,
    r2: Seq<Finding>,
)
    requires
        exists|raw: Seq<Finding>| #[trigger] unsorted_ok(files, structures, t, raw) && r1 == by_severity(raw),
        exists|raw: Seq<Finding>| #[trigger] unsorted_ok(files, structures, t, raw) && r2 == by_severity(raw),
    ensures
        same_findings(r1, r2),
{
    let raw1 = choose|raw: Seq<Finding>| #[trigger] unsorted_ok(files, structures, t, raw) && r1 == by_severity(raw);
    let raw2 = choose|raw: Seq<Finding>| #[trigger] unsorted_ok(files, structures, t, raw) && r2 == by_severity(raw);
    lemma_unsorted_len(files, structures, t, raw1);
    lemma_unsorted_len(files, structures, t, raw2);
    let sl = all_slots(files, structures, t, files.len() as int);
    let nf = sl.len() as int;
    let orphans = dead_weight::orphans(files, structures);
    let k = nf + orphans.len();
    duplication::law_duplicates_deterministic(structures, 0, raw1.skip(k), raw2.skip(k));
    assert forall|p: int| 0 <= p < raw1.len() implies (#[trigger] raw1[p]).same_as(raw2[p]) by {
        if p < nf {
            assert(raw1.take(nf)[p] == raw1[p]);
            assert(raw2.take(nf)[p] == raw2[p]);
            assert(slot_ok(files, structures, t, sl[p].1, sl[p].0, raw1.take(nf)[p]));
            assert(slot_ok(files, structures, t, sl[p].1, sl[p].0, raw2.take(nf)[p]));
        } else if p < k {
            let q = p - nf;
            assert(dead_weight::expected(orphans[q], structures, (q + 1) as nat, raw1[nf + q]));
            assert(dead_weight::expected(orphans[q], structures, (q + 1) as nat, raw2[nf + q]));
        } else {
            assert(raw1.skip(k)[p - k] == raw1[p]);
            assert(raw2.skip(k)[p - k] == raw2[p]);
            assert(raw1.skip(k)[p - k].same_as(raw2.skip(k)[p - k]));
        }
    }
    lemma_by_severity_same(raw1, raw2);
}

// ---------------------------------------------------------------------------
// Totals and the explanation of one file
// ---------------------------------------------------------------------------

/// Lines of the first `k` files.
pub open spec fn lines_upto(files: Seq<RustFile>, k: int) -> nat
    decreases k,
{
    if k <= 0 || k > files.len() {
        0
    } else {
        lines_upto(files, k - 1) + files[k - 1].line_count as nat
    }
}

/// Estimated tokens of the first `k` files.
pub open spec fn tokens_upto(files: Seq<RustFile>, k: int) -> nat
    decreases k,
{
    if k <= 0 || k > files.len() {
        0
    } else {
        tokens_upto(files, k - 1) + context_bombs::tokens_of(files[k - 1].size_bytes)
    }
}

proof fn lemma_totals_mono(files: Seq<RustFile>, a: int, b: int)
    requires
        0 <= a <= b <= files.len(),
    ensures
        lines_upto(files, a) <= lines_upto(files, b),
        tokens_upto(files, a) <= tokens_upto(files, b),
    decreases b - a,
{
    if a < b {
        lemma_totals_mono(files, a, b - 1);
    }
}

/// Total lines and total estimated tokens of the files.
pub fn totals(files: &Vec<RustFile>) -> (r: (usize, usize))
    requires
        lines_upto(files@, files@.len() as int) <= usize::MAX,
        tokens_upto(files@, files@.len() as int) <= usize::MAX,
    ensures
        r.0 == lines_upto(files@, files@.len() as int),
        r.1 == tokens_upto(files@, files@.len() as int),
{
    let mut lines: usize = 0;
    let mut tokens: usize = 0;
    let mut i: usize = 0;
    while i < files.len()
        invariant
            i <= files.len(),
            lines_upto(files@, files@.len() as int) <= usize::MAX,
            tokens_upto(files@, files@.len() as int) <= usize::MAX,
            lines == lines_upto(files@, i as int),
            tokens == tokens_upto(files@, i as int),
        decreases files.len() - i,
    {
        proof {
            lemma_totals_mono(files@, i + 1, files@.len() as int);
        }
        lines = lines + files[i].line_count;
        tokens = tokens + context_bombs::estimate_tokens(files[i].size_bytes);
        i += 1;
    }
    (lines, tokens)
}

/// The first file whose path or relative path is `target` (as paths).
pub open spec fn target_index(files: Seq<RustFile>, target: Seq<char>) -> Option<int>
    decreases files.len(),
{
    if files.len() == 0 {
        None
    } else if same_path(files[0].path@, target) || same_path(files[0].relative_path@, target) {
        Some(0)
    } else {
        match target_index(files.drop_first(), target) {
            Some(i) => Some(i + 1),
            None => None,
        }
    }
}

proof fn lemma_target_index(files: Seq<RustFile>, target: Seq<char>)
    ensures
        target_index(files, target) matches Some(i) ==> 0 <= i < files.len() && (same_path(files[i].path@, target)
            || same_path(files[i].relative_path@, target)) && forall|j: int|
            0 <= j < i ==> !(same_path(#[trigger] files[j].path@, target) || same_path(files[j].relative_path@, target)),
        target_index(files, target) is None ==> forall|j: int|
            0 <= j < files.len() ==> !(same_path(#[trigger] files[j].path@, target) || same_path(
                files[j].relative_path@,
                target,
            )),
    decreases files.len(),
{
    if files.len() > 0 {
        let rest = files.drop_first();
        lemma_target_index(rest, target);
        assert forall|j: int| 0 < j < files.len() implies files[j] == rest[j - 1] by {}
        if !(same_path(files[0].path@, target) || same_path(files[0].relative_path@, target)) {
            if let Some(k) = target_index(rest, target) {
                assert forall|j: int| 0 <= j < k + 1 implies !(same_path(#[trigger] files[j].path@, target)
                    || same_path(files[j].relative_path@, target)) by {
                    if j > 0 {
                        assert(files[j] == rest[j - 1]);
                    }
                }
            } else {
                assert forall|j: int| 0 <= j < files.len() implies !(same_path(#[trigger] files[j].path@, target)
                    || same_path(files[j].relative_path@, target)) by {
                    if j > 0 {
                        assert(files[j] == rest[j - 1]);
                    }
                }
            }
        }
    }
}

/// The file that `target` names, by its path or its relative path.
pub fn find_file(files: &Vec<RustFile>, target: &str) -> (r: Option<usize>)
    ensures
        r matches Some(i) ==> target_index(files@, target@) == Some(i as int),
        r is None ==> target_index(files@, target@) is None,
{
    proof {
        lemma_target_index(files@, target@);
    }
    let mut i: usize = 0;
    while i < files.len()
        invariant
            i <= files.len(),
            forall|j: int|
                0 <= j < i ==> !(same_path(#[trigger] files@[j].path@, target@) || same_path(
                    files@[j].relative_path@,
                    target@,
                )),
        decreases files.len() - i,
    {
        if same_path_exec(files[i].path.as_str(), target) || same_path_exec(files[i].relative_path.as_str(), target) {
            proof {
                lemma_target_index(files@, target@);
            }
            return Some(i);
        }
        i += 1;
    }
    None
}

/// The lines that explain one file: its module path, size, estimated
/// tokens, functions, impl blocks, re-exports, fan-in and fan-out.
pub open spec fn explain_text(file: RustFile, s: FileStructure, fan_in: nat, fan_out: nat) -> Seq<Seq<char>> {
    seq![
        "\n═══ "@ + file.relative_path@ + " ═══\n"@,
        "Module path:           "@ + s.mod_path@,
        "Lines of code:         "@ + dec(file.line_count as nat),
        "Est. LLM tokens:       ~"@ + dec(context_bombs::tokens_of(file.size_bytes)),
        "Functions:             "@ + dec(s.function_count as nat) + " ("@ + dec(s.public_function_count as nat)
            + " public)"@,
        "Impl blocks:           "@ + dec(s.impl_block_count as nat),
        "Pub re-exports:        "@ + dec(s.pub_use_paths@.len()),
        "Import fan-in:         "@ + dec(fan_in),
        "Import fan-out:        "@ + dec(fan_out),
    ]
}

fn line_with(prefix: &str, n: usize) -> (r: String)
    ensures
        r@ == prefix@ + dec(n as nat),
{
    let mut v = chars_of(prefix);
    push_dec(&mut v, n as u64);
    string_of(&v)
}

/// The lines that explain one file, given its import fan-in and fan-out.
pub fn explain_lines(file: &RustFile, s: &FileStructure, fan_in: usize, fan_out: usize) -> (r: Vec<String>)
    ensures
        sviews(r@) == explain_text(*file, *s, fan_in as nat, fan_out as nat),
{
    let mut out: Vec<String> = Vec::new();
    let mut head = chars_of("\n═══ ");
    push_str(&mut head, file.relative_path.as_str());
    push_str(&mut head, " ═══\n");
    out.push(string_of(&head));
    let mut mp = chars_of("Module path:           ");
    push_str(&mut mp, s.mod_path.as_str());
    out.push(string_of(&mp));
    out.push(line_with("Lines of code:         ", file.line_count));
    let mut tok = chars_of("Est. LLM tokens:       ~");
    push_dec(&mut tok, context_bombs::estimate_tokens(file.size_bytes) as u64);
    out.push(string_of(&tok));
    let mut fns = chars_of("Functions:             ");
    push_dec(&mut fns, s.function_count as u64);
    push_str(&mut fns, " (");
    push_dec(&mut fns, s.public_function_count as u64);
    push_str(&mut fns, " public)");
    out.push(string_of(&fns));
    out.push(line_with("Impl blocks:           ", s.impl_block_count));
    out.push(line_with("Pub re-exports:        ", s.pub_use_paths.len()));
    out.push(line_with("Import fan-in:         ", fan_in));
    out.push(line_with("Import fan-out:        ", fan_out));
    assert(sviews(out@) =~= explain_text(*file, *s, fan_in as nat, fan_out as nat));
    out
}

} // verus!
