//! Import diversity: files whose `use` items reach into too many unrelated
//! domains (first path segments), a sign of a file that does too much.
//!
//! A file fires when the number of distinct domains exceeds the level's
//! limit; severity is High from three times the limit, Medium from twice,
//! Low otherwise.
use vstd::prelude::*;
use crate::cli::Threshold;
use crate::discovery::files::RustFile;
use crate::graph::import_graph::{all_uses, uses_of};
use crate::parsing::extractor::FileStructure;
use crate::text::{
    chars_of, dec, eq_chars, eq_str, join, join_exec, lemma_lex_asymmetric, lemma_lex_irreflexive,
    lemma_lex_total, lemma_lex_transitive, lex_lt, lex_lt_exec, split, split_exec, strictly_sorted,
    sviews, trim, trim_exec, vviews,
};
use crate::types::{finding_id, kv, kv_num, kv_text, next_finding_id, Finding, FindingKind, Severity};

verus! {

/// A domain with its ` as alias` suffix and surrounding whitespace removed.
pub open spec fn clean_domain(s: Seq<char>) -> Seq<char> {
    trim(split(s, " as "@)[0])
}

/// The domain of a use path: its first segment (the second after `crate`);
/// none for `self` and `super` paths.
pub open spec fn extract_domain(path: Seq<char>) -> Option<Seq<char>> {
    let parts = split(path, "::"@);
    if parts[0] == "self"@ || parts[0] == "super"@ {
        None
    } else if parts[0] == "crate"@ {
        if parts.len() > 1 {
            Some(clean_domain(parts[1]))
        } else {
            None
        }
    } else {
        Some(clean_domain(parts[0]))
    }
}

/// `d` is the domain of one of the file's use paths.
pub open spec fn has_domain(structure: FileStructure, d: Seq<char>) -> bool {
    exists|i: int| 0 <= i < all_uses(structure).len() && #[trigger] extract_domain(all_uses(structure)[i]) == Some(d)
}

/// The distinct domains of the file's use paths.
pub open spec fn domain_set(structure: FileStructure) -> Set<Seq<char>> {
    Set::new(|d: Seq<char>| has_domain(structure, d))
}

pub open spec fn fires(structure: FileStructure, threshold: Threshold) -> bool {
    domain_set(structure).len() > threshold.values().import_domain_limit
}

pub open spec fn severity_for(count: nat, limit: nat) -> Severity {
    if count >= limit * 3 {
        Severity::High
    } else if count >= limit * 2 {
        Severity::Medium
    } else {
        Severity::Low
    }
}

/// The first (at most) eight domains.
pub open spec fn top_domains(ds: Seq<Seq<char>>) -> Seq<Seq<char>> {
    if ds.len() <= 8 {
        ds
    } else {
        ds.take(8)
    }
}

/// The finding lists the domains in `String` order, the first eight of them.
pub open spec fn expected(file: RustFile, structure: FileStructure, threshold: Threshold, n: nat, f: Finding) -> bool {
    let count = domain_set(structure).len();
    let limit = threshold.values().import_domain_limit as nat;
    exists|ds: Seq<Seq<char>>|
        #![trigger strictly_sorted(ds)]
        strictly_sorted(ds) && ds.to_set() == domain_set(structure) && f.is(
            finding_id("id"@, n),
            FindingKind::ImportDiversity,
            severity_for(count, limit),
            70,
            file.relative_path@,
            Seq::empty(),
            Seq::empty(),
            seq![
                kv("domain_count"@, dec(count)),
                kv("domains"@, join(top_domains(ds), ", "@)),
                kv("limit"@, dec(limit)),
            ],
            Seq::empty(),
            None,
        )
}

/// The domain with its alias and surrounding whitespace removed, computed.
fn clean_domain_exec(s: &Vec<char>) -> (r: Vec<char>)
    ensures
        r@ == clean_domain(s@),
{
    let sep = chars_of(" as ");
    proof {
        reveal_strlit(" as ");
    }
    let pieces = split_exec(s, &sep);
    assert(vviews(pieces@)[0] == pieces@[0]@);
    trim_exec(&pieces[0])
}

/// The domain of a use path, computed.
fn extract_domain_exec(path: &Vec<char>) -> (r: Option<Vec<char>>)
    ensures
        r matches Some(d) ==> extract_domain(path@) == Some(d@),
        r is None ==> extract_domain(path@) is None,
{
    let sep = chars_of("::");
    proof {
        reveal_strlit("::");
    }
    let parts = split_exec(path, &sep);
    assert(vviews(parts@)[0] == parts@[0]@);
    if eq_str(&parts[0], "self") || eq_str(&parts[0], "super") {
        None
    } else if eq_str(&parts[0], "crate") {
        if parts.len() > 1 {
            assert(vviews(parts@)[1] == parts@[1]@);
            Some(clean_domain_exec(&parts[1]))
        } else {
            None
        }
    } else {
        Some(clean_domain_exec(&parts[0]))
    }
}

proof fn lemma_contains_insert(s: Seq<Seq<char>>, p: int, d: Seq<char>, x: Seq<char>)
    requires
        0 <= p <= s.len(),
    ensures
        s.insert(p, d).contains(x) <==> (s.contains(x) || x == d),
{
    let t = s.insert(p, d);
    if s.contains(x) {
        let i = choose|i: int| 0 <= i < s.len() && s[i] == x;
        if i < p {
            assert(t[i] == x);
        } else {
            assert(t[i + 1] == x);
        }
    }
    if x == d {
        assert(t[p] == d);
    }
    if t.contains(x) {
        let i = choose|i: int| 0 <= i < t.len() && t[i] == x;
        if i < p {
            assert(s[i] == x);
        } else if i > p {
            assert(s[i - 1] == x);
        }
    }
}

/// Adds `d` to the sorted list of distinct domains, keeping it sorted.
fn insert_domain(ds: &mut Vec<Vec<char>>, d: Vec<char>)
    requires
        strictly_sorted(vviews(old(ds)@)),
    ensures
        strictly_sorted(vviews(final(ds)@)),
        forall|x: Seq<char>| #[trigger] vviews(final(ds)@).contains(x) <==> (vviews(old(ds)@).contains(x) || x == d@),
{
    let ghost old_v = vviews(ds@);
    let mut p: usize = 0;
    while p < ds.len() && lex_lt_exec(&ds[p], &d)
        invariant
            p <= ds.len(),
            vviews(ds@) == old_v,
            forall|i: int| 0 <= i < p ==> lex_lt(#[trigger] old_v[i], d@),
        decreases ds.len() - p,
    {
        p += 1;
    }
    if p < ds.len() && eq_chars(&ds[p], &d) {
        assert(old_v[p as int] == d@);
        assert forall|x: Seq<char>| #[trigger] vviews(ds@).contains(x) <==> (old_v.contains(x) || x == d@) by {
            if x == d@ {
                assert(old_v[p as int] == x);
            }
        }
        return;
    }
    proof {
        if p < ds.len() {
            lemma_lex_total(old_v[p as int], d@);
            assert(lex_lt(d@, old_v[p as int]));
        }
    }
    let ghost dv = d@;
    ds.insert(p, d);
    let ghost nv = vviews(ds@);
    assert(nv =~= old_v.insert(p as int, dv));
    assert forall|i: int, j: int| 0 <= i < j < nv.len() implies lex_lt(#[trigger] nv[i], #[trigger] nv[j]) by {
        if j < p {
            assert(nv[i] == old_v[i] && nv[j] == old_v[j]);
        } else if j == p {
            assert(nv[i] == old_v[i]);
        } else if i < p {
            assert(nv[i] == old_v[i] && nv[j] == old_v[j - 1]);
            if j - 1 > p {
                assert(lex_lt(old_v[p as int], old_v[j - 1]));
                lemma_lex_transitive(dv, old_v[p as int], old_v[j - 1]);
            }
            lemma_lex_transitive(old_v[i], dv, old_v[j - 1]);
        } else if i == p {
            assert(nv[j] == old_v[j - 1]);
            if j - 1 > p {
                assert(lex_lt(old_v[p as int], old_v[j - 1]));
                lemma_lex_transitive(dv, old_v[p as int], old_v[j - 1]);
            }
        } else {
            assert(nv[i] == old_v[i - 1] && nv[j] == old_v[j - 1]);
        }
    }
    assert forall|x: Seq<char>| #[trigger] vviews(ds@).contains(x) <==> (old_v.contains(x) || x == dv) by {
        lemma_contains_insert(old_v, p as int, dv, x);
    }
}

/// The distinct domains of the file's use paths, sorted.
fn sorted_domains(structure: &FileStructure) -> (ds: Vec<Vec<char>>)
    ensures
        strictly_sorted(vviews(ds@)),
        vviews(ds@).to_set() == domain_set(*structure),
{
    let uses = uses_of(structure);
    let mut ds: Vec<Vec<char>> = Vec::new();
    let mut k: usize = 0;
    while k < uses.len()
        invariant
            k <= uses.len(),
            vviews(uses@) == all_uses(*structure),
            strictly_sorted(vviews(ds@)),
            forall|x: Seq<char>| #[trigger] vviews(ds@).contains(x) <==> exists|i: int|
                0 <= i < k && #[trigger] extract_domain(all_uses(*structure)[i]) == Some(x),
        decreases uses.len() - k,
    {
        assert(all_uses(*structure)[k as int] == uses@[k as int]@);
        let ghost before = vviews(ds@);
        match extract_domain_exec(&uses[k]) {
            Some(d) => {
                let ghost dv = d@;
                insert_domain(&mut ds, d);
                assert forall|x: Seq<char>| #[trigger] vviews(ds@).contains(x) <==> exists|i: int|
                    0 <= i < k + 1 && #[trigger] extract_domain(all_uses(*structure)[i]) == Some(x) by {
                    assert(before.contains(x) <==> exists|i: int|
                        0 <= i < k && #[trigger] extract_domain(all_uses(*structure)[i]) == Some(x));
                    if exists|i: int| 0 <= i < k + 1 && #[trigger] extract_domain(all_uses(*structure)[i]) == Some(x) {
                        let i = choose|i: int| 0 <= i < k + 1 && #[trigger] extract_domain(all_uses(*structure)[i]) == Some(x);
                        if i < k {
                            assert(exists|i2: int| 0 <= i2 < k && #[trigger] extract_domain(all_uses(*structure)[i2]) == Some(x));
                        }
                    }
                }
            },
            None => {
                assert forall|x: Seq<char>| #[trigger] vviews(ds@).contains(x) <==> exists|i: int|
                    0 <= i < k + 1 && #[trigger] extract_domain(all_uses(*structure)[i]) == Some(x) by {
                    if exists|i: int| 0 <= i < k + 1 && #[trigger] extract_domain(all_uses(*structure)[i]) == Some(x) {
                        let i = choose|i: int| 0 <= i < k + 1 && #[trigger] extract_domain(all_uses(*structure)[i]) == Some(x);
                        if i < k {
                            assert(exists|i2: int| 0 <= i2 < k && #[trigger] extract_domain(all_uses(*structure)[i2]) == Some(x));
                        }
                    }
                }
            },
        }
        k += 1;
    }
    assert(vviews(ds@).to_set() =~= domain_set(*structure));
    ds
}

/// A strictly sorted list holds each element once.
proof fn lemma_sorted_no_duplicates(s: Seq<Seq<char>>)
    requires
        strictly_sorted(s),
    ensures
        s.no_duplicates(),
        s.to_set().len() == s.len(),
{
    assert forall|i: int, j: int| 0 <= i < s.len() && 0 <= j < s.len() && i != j implies s[i] != s[j] by {
        if i < j {
            assert(lex_lt(s[i], s[j]));
            lemma_lex_irreflexive(s[i]);
        } else {
            assert(lex_lt(s[j], s[i]));
            lemma_lex_irreflexive(s[j]);
        }
    }
    s.unique_seq_to_set();
}

pub fn analyze(file: &RustFile, structure: &FileStructure, threshold: &Threshold, counter: &mut usize) -> (r: Option<Finding>)
    requires
        fires(*structure, *threshold) ==> *old(counter) < usize::MAX,
    ensures
        r is Some <==> fires(*structure, *threshold),
        r is None ==> *final(counter) == *old(counter),
        r matches Some(f) ==> *final(counter) == *old(counter) + 1 && expected(
            *file,
            *structure,
            *threshold,
            *final(counter) as nat,
            f,
        ),
{
    let limit = threshold.import_domain_limit();
    let ds = sorted_domains(structure);
    proof {
        lemma_sorted_no_duplicates(vviews(ds@));
    }
    let count = ds.len();
    if count <= limit {
        return None;
    }
    let severity = if count >= limit * 3 {
        Severity::High
    } else if count >= limit * 2 {
        Severity::Medium
    } else {
        Severity::Low
    };
    let mut top: Vec<Vec<char>> = Vec::new();
    let mut i: usize = 0;
    while i < ds.len() && i < 8
        invariant
            i <= ds.len(),
            i <= 8,
            vviews(top@) == vviews(ds@).take(i as int),
        decreases ds.len() - i,
    {
        let ghost before = top@;
        top.push(ds[i].clone());
        assert(vviews(top@) =~= vviews(before).push(ds@[i as int]@));
        assert(vviews(top@) =~= vviews(ds@).take(i + 1));
        i += 1;
    }
    assert(vviews(top@) =~= top_domains(vviews(ds@)));
    let sep = chars_of(", ");
    let joined = join_exec(&top, &sep);
    let id = next_finding_id("id", counter);
    let mut evidence: Vec<String> = Vec::new();
    evidence.push(kv_num("domain_count", count));
    evidence.push(kv_text("domains", &joined));
    evidence.push(kv_num("limit", limit));
    let f = Finding::new(id, FindingKind::ImportDiversity, severity, 70, file.relative_path.clone(), evidence);
    assert(sviews(evidence@) =~= seq![
        kv("domain_count"@, dec(count as nat)),
        kv("domains"@, join(top_domains(vviews(ds@)), ", "@)),
        kv("limit"@, dec(limit as nat)),
    ]);
    assert(strictly_sorted(vviews(ds@)));
    Some(f)
}

} // verus!
