//! Dead weight: files that no `mod` declaration and no `use` item of the
//! workspace reaches, so that they only cost context.
use vstd::prelude::*;
use crate::discovery::files::RustFile;
use crate::graph::import_graph::{all_uses, resolve_spec, resolve_to_module_path, uses_of};
use crate::heuristics::context_bombs::{estimate_tokens, tokens_of};
use crate::parsing::extractor::FileStructure;
use crate::paths::{same_path, same_path_chars};
use crate::parsing::root_layout::{file_stem, file_stem_exec};
use crate::text::{chars_of, dec, eq_chars, eq_str, join, push_str, push_vec, split, split_exec, string_of, sviews, vviews};
use crate::types::{finding_id, kv, kv_num, kv_text, next_finding_id, Finding, FindingKind, Severity};

verus! {

// ---------------------------------------------------------------------------
// What the workspace references
// ---------------------------------------------------------------------------

/// The first `len` segments of the `::` path `m`, joined back.
pub open spec fn path_prefix(m: Seq<char>, len: int) -> Seq<char> {
    join(split(m, "::"@).take(len), "::"@)
}

/// `x` is a prefix of the `::` path `m`: its first segment, its first two, ... or all of them.
pub open spec fn is_prefix_path(m: Seq<char>, x: Seq<char>) -> bool {
    exists|len: int| 1 <= len <= split(m, "::"@).len() && #[trigger] path_prefix(m, len) == x
}

/// The use path `u`, written in `s`, resolves to a module path of which `x` is a prefix.
pub open spec fn use_references(s: FileStructure, u: Seq<char>, x: Seq<char>) -> bool {
    match resolve_spec(u, s.mod_path@) {
        Some(abs) => is_prefix_path(abs, x),
        None => false,
    }
}

/// `x` is a prefix of one of `s`'s `mod` declarations or of one of its resolved uses.
pub open spec fn references(s: FileStructure, x: Seq<char>) -> bool {
    ||| exists|i: int| 0 <= i < s.mod_declarations@.len() && is_prefix_path(#[trigger] s.mod_declarations@[i]@, x)
    ||| exists|i: int| 0 <= i < all_uses(s).len() && #[trigger] use_references(s, all_uses(s)[i], x)
}

/// Some file of the workspace references the module path `x`.
pub open spec fn referenced(structures: Seq<FileStructure>, x: Seq<char>) -> bool {
    exists|k: int| 0 <= k < structures.len() && #[trigger] references(structures[k], x)
}

// ---------------------------------------------------------------------------
// Which files are orphaned
// ---------------------------------------------------------------------------

/// Index of the first structure whose file is the path `p`.
pub open spec fn first_with_path(structures: Seq<FileStructure>, p: Seq<char>) -> Option<int>
    decreases structures.len(),
{
    if structures.len() == 0 {
        None
    } else if same_path(structures[0].path@, p) {
        Some(0)
    } else {
        match first_with_path(structures.drop_first(), p) {
            Some(i) => Some(i + 1),
            None => None,
        }
    }
}

/// The module path of a file: that of its first structure, else its package
/// name and stem.
pub open spec fn file_module(file: RustFile, structures: Seq<FileStructure>) -> Seq<char> {
    match first_with_path(structures, file.path@) {
        Some(i) => structures[i].mod_path@,
        None => file.package_name@ + "::"@ + file_stem(file.path@),
    }
}

/// `lib.rs`, `main.rs` and `mod.rs` are entry points, never orphaned.
pub open spec fn is_entry_stem(stem: Seq<char>) -> bool {
    stem == "lib"@ || stem == "main"@ || stem == "mod"@
}

/// The module path, or one of its proper prefixes, is referenced.
pub open spec fn module_referenced(structures: Seq<FileStructure>, mp: Seq<char>) -> bool {
    referenced(structures, mp) || exists|len: int|
        1 <= len < split(mp, "::"@).len() && referenced(structures, #[trigger] path_prefix(mp, len))
}

pub open spec fn is_orphan(file: RustFile, structures: Seq<FileStructure>) -> bool {
    !is_entry_stem(file_stem(file.path@)) && !module_referenced(structures, file_module(file, structures))
}

/// The orphaned files among the first `k`, in order.
pub open spec fn orphans_upto(files: Seq<RustFile>, structures: Seq<FileStructure>, k: int) -> Seq<RustFile>
    decreases k,
{
    if k <= 0 || k > files.len() {
        seq![]
    } else {
        let prev = orphans_upto(files, structures, k - 1);
        if is_orphan(files[k - 1], structures) {
            prev.push(files[k - 1])
        } else {
            prev
        }
    }
}

pub open spec fn orphans(files: Seq<RustFile>, structures: Seq<FileStructure>) -> Seq<RustFile> {
    orphans_upto(files, structures, files.len() as int)
}

pub open spec fn severity_for(lines: nat) -> Severity {
    if lines >= 1000 {
        Severity::Critical
    } else if lines >= 500 {
        Severity::High
    } else {
        Severity::Medium
    }
}

pub open spec fn summary_text(rel: Seq<char>, mp: Seq<char>) -> Seq<char> {
    "Orphaned file: "@ + rel + " (module '"@ + mp + "') not referenced by any use or mod declaration"@
}

pub open spec fn reason_text(mp: Seq<char>) -> Seq<char> {
    "Module path '"@ + mp + "' not found in any use or mod declaration"@
}

pub open spec fn next_text(rel: Seq<char>, stem: Seq<char>) -> Seq<char> {
    "Verify "@ + rel + " is still needed; add `mod "@ + stem + "` or delete it"@
}

pub open spec fn expected(file: RustFile, structures: Seq<FileStructure>, n: nat, f: Finding) -> bool {
    let mp = file_module(file, structures);
    f.is(
        finding_id("dw"@, n),
        FindingKind::DeadWeight,
        severity_for(file.line_count as nat),
        60,
        file.relative_path@,
        summary_text(file.relative_path@, mp),
        seq![reason_text(mp)],
        seq![kv("module_path"@, mp), kv("line_count"@, dec(file.line_count as nat))],
        next_text(file.relative_path@, file_stem(file.path@)),
        Some(tokens_of(file.size_bytes) as usize),
    )
}


// ---------------------------------------------------------------------------
// Computing it
// ---------------------------------------------------------------------------

proof fn lemma_contains_push(s: Seq<Seq<char>>, y: Seq<char>, x: Seq<char>)
    ensures
        s.push(y).contains(x) <==> (s.contains(x) || x == y),
{
    if s.contains(x) {
        let i = choose|i: int| 0 <= i < s.len() && s[i] == x;
        assert(s.push(y)[i] == x);
    }
    if x == y {
        assert(s.push(y)[s.len() as int] == y);
    }
    if s.push(y).contains(x) {
        let i = choose|i: int| 0 <= i < s.push(y).len() && s.push(y)[i] == x;
        if i < s.len() {
            assert(s[i] == x);
        }
    }
}

/// `x` occurs in `v`, computed.
fn holds(v: &Vec<Vec<char>>, x: &Vec<char>) -> (b: bool)
    ensures
        b == vviews(v@).contains(x@),
{
    let mut i: usize = 0;
    while i < v.len()
        invariant
            i <= v.len(),
            forall|j: int| 0 <= j < i ==> vviews(v@)[j] != x@,
        decreases v.len() - i,
    {
        if eq_chars(&v[i], x) {
            assert(vviews(v@)[i as int] == x@);
            return true;
        }
        i += 1;
    }
    false
}

/// Appends every prefix of the `::` path `m` to `refs`.
fn push_prefixes(refs: &mut Vec<Vec<char>>, m: &Vec<char>)
    ensures
        forall|x: Seq<char>|
            #[trigger] vviews(final(refs)@).contains(x) <==> (vviews(old(refs)@).contains(x) || is_prefix_path(m@, x)),
{
    let sep = chars_of("::");
    proof {
        reveal_strlit("::");
    }
    let parts = split_exec(m, &sep);
    let ghost pv = vviews(parts@);
    let mut cur: Vec<char> = parts[0].clone();
    assert(pv.take(1) =~= seq![pv[0]]);
    assert(cur@ == path_prefix(m@, 1));
    let ghost before = vviews(refs@);
    refs.push(cur.clone());
    assert(vviews(refs@) =~= before.push(cur@));
    assert forall|x: Seq<char>| #[trigger] vviews(refs@).contains(x) <==> (vviews(old(refs)@).contains(x) || exists|l: int|
        1 <= l <= 1 && #[trigger] path_prefix(m@, l) == x) by {
        lemma_contains_push(before, cur@, x);
    }
    let mut len: usize = 1;
    while len < parts.len()
        invariant
            1 <= len <= parts.len(),
            pv == vviews(parts@),
            pv == split(m@, "::"@),
            sep@ == "::"@,
            cur@ == path_prefix(m@, len as int),
            forall|x: Seq<char>| #[trigger] vviews(refs@).contains(x) <==> (vviews(old(refs)@).contains(x) || exists|l: int|
                1 <= l <= len && #[trigger] path_prefix(m@, l) == x),
        decreases parts.len() - len,
    {
        let ghost t = pv.take(len + 1);
        assert(t.drop_last() =~= pv.take(len as int));
        assert(t.last() == parts@[len as int]@);
        push_vec(&mut cur, &sep);
        push_vec(&mut cur, &parts[len]);
        assert(cur@ =~= path_prefix(m@, len + 1));
        let ghost before = vviews(refs@);
        refs.push(cur.clone());
        assert(vviews(refs@) =~= before.push(cur@));
        assert forall|x: Seq<char>| #[trigger] vviews(refs@).contains(x) <==> (vviews(old(refs)@).contains(x) || exists|l: int|
            1 <= l <= len + 1 && #[trigger] path_prefix(m@, l) == x) by {
            lemma_contains_push(before, cur@, x);
            if exists|l: int| 1 <= l <= len + 1 && #[trigger] path_prefix(m@, l) == x {
                let l = choose|l: int| 1 <= l <= len + 1 && #[trigger] path_prefix(m@, l) == x;
                if l <= len {
                    assert(exists|l2: int| 1 <= l2 <= len && #[trigger] path_prefix(m@, l2) == x);
                }
            }
        }
        len += 1;
    }
}

/// Every module path that a file references, with repeats.
fn referenced_paths(structures: &Vec<FileStructure>) -> (refs: Vec<Vec<char>>)
    ensures
        forall|x: Seq<char>| #[trigger] vviews(refs@).contains(x) <==> referenced(structures@, x),
{
    let mut refs: Vec<Vec<char>> = Vec::new();
    let mut k: usize = 0;
    while k < structures.len()
        invariant
            k <= structures.len(),
            forall|x: Seq<char>| #[trigger] vviews(refs@).contains(x) <==> exists|j: int|
                0 <= j < k && #[trigger] references(structures@[j], x),
        decreases structures.len() - k,
    {
        let s = &structures[k];
        let ghost base = vviews(refs@);
        let mut i: usize = 0;
        while i < s.mod_declarations.len()
            invariant
                i <= s.mod_declarations.len(),
                forall|x: Seq<char>| #[trigger] base.contains(x) <==> exists|j: int|
                    0 <= j < k && #[trigger] references(structures@[j], x),
                k < structures.len(),
                *s == structures@[k as int],
                forall|x: Seq<char>| #[trigger] vviews(refs@).contains(x) <==> (base.contains(x) || exists|i2: int|
                    0 <= i2 < i && is_prefix_path(#[trigger] s.mod_declarations@[i2]@, x)),
            decreases s.mod_declarations.len() - i,
        {
            let m = chars_of(s.mod_declarations[i].as_str());
            let ghost mid = vviews(refs@);
            push_prefixes(&mut refs, &m);
            assert forall|x: Seq<char>| #[trigger] vviews(refs@).contains(x) <==> (base.contains(x) || exists|i2: int|
                0 <= i2 < i + 1 && is_prefix_path(#[trigger] s.mod_declarations@[i2]@, x)) by {
                assert(mid.contains(x) <==> (base.contains(x) || exists|i2: int|
                    0 <= i2 < i && is_prefix_path(#[trigger] s.mod_declarations@[i2]@, x)));
                if exists|i2: int| 0 <= i2 < i + 1 && is_prefix_path(#[trigger] s.mod_declarations@[i2]@, x) {
                    let i2 = choose|i2: int| 0 <= i2 < i + 1 && is_prefix_path(#[trigger] s.mod_declarations@[i2]@, x);
                    if i2 < i {
                        assert(exists|i3: int| 0 <= i3 < i && is_prefix_path(#[trigger] s.mod_declarations@[i3]@, x));
                    }
                }
            }
            i += 1;
        }
        let ghost after_mods = vviews(refs@);
        let uses = uses_of(s);
        let mp = chars_of(s.mod_path.as_str());
        let mut u: usize = 0;
        while u < uses.len()
            invariant
                u <= uses.len(),
                forall|x: Seq<char>| #[trigger] base.contains(x) <==> exists|j: int|
                    0 <= j < k && #[trigger] references(structures@[j], x),
                k < structures.len(),
                *s == structures@[k as int],
                vviews(uses@) == all_uses(*s),
                mp@ == s.mod_path@,
                forall|x: Seq<char>| #[trigger] after_mods.contains(x) <==> (base.contains(x) || exists|i2: int|
                    0 <= i2 < s.mod_declarations@.len() && is_prefix_path(#[trigger] s.mod_declarations@[i2]@, x)),
                forall|x: Seq<char>| #[trigger] vviews(refs@).contains(x) <==> (after_mods.contains(x) || exists|i2: int|
                    0 <= i2 < u && #[trigger] use_references(*s, all_uses(*s)[i2], x)),
            decreases uses.len() - u,
        {
            assert(all_uses(*s)[u as int] == uses@[u as int]@);
            let ghost mid = vviews(refs@);
            match resolve_to_module_path(&uses[u], &mp) {
                Some(abs) => {
                    push_prefixes(&mut refs, &abs);
                    assert forall|x: Seq<char>| #[trigger] vviews(refs@).contains(x) <==> (after_mods.contains(x)
                        || exists|i2: int| 0 <= i2 < u + 1 && #[trigger] use_references(*s, all_uses(*s)[i2], x)) by {
                        assert(mid.contains(x) <==> (after_mods.contains(x) || exists|i2: int|
                            0 <= i2 < u && #[trigger] use_references(*s, all_uses(*s)[i2], x)));
                        assert(use_references(*s, all_uses(*s)[u as int], x) == is_prefix_path(abs@, x));
                        if exists|i2: int| 0 <= i2 < u + 1 && #[trigger] use_references(*s, all_uses(*s)[i2], x) {
                            let i2 = choose|i2: int| 0 <= i2 < u + 1 && #[trigger] use_references(*s, all_uses(*s)[i2], x);
                            if i2 < u {
                                assert(exists|i3: int| 0 <= i3 < u && #[trigger] use_references(*s, all_uses(*s)[i3], x));
                            }
                        }
                    }
                },
                None => {
                    assert forall|x: Seq<char>| #[trigger] vviews(refs@).contains(x) <==> (after_mods.contains(x)
                        || exists|i2: int| 0 <= i2 < u + 1 && #[trigger] use_references(*s, all_uses(*s)[i2], x)) by {
                        assert(mid.contains(x) <==> (after_mods.contains(x) || exists|i2: int|
                            0 <= i2 < u && #[trigger] use_references(*s, all_uses(*s)[i2], x)));
                        assert(!use_references(*s, all_uses(*s)[u as int], x));
                        if exists|i2: int| 0 <= i2 < u + 1 && #[trigger] use_references(*s, all_uses(*s)[i2], x) {
                            let i2 = choose|i2: int| 0 <= i2 < u + 1 && #[trigger] use_references(*s, all_uses(*s)[i2], x);
                            if i2 < u {
                                assert(exists|i3: int| 0 <= i3 < u && #[trigger] use_references(*s, all_uses(*s)[i3], x));
                            }
                        }
                    }
                },
            }
            u += 1;
        }
        assert forall|x: Seq<char>| #[trigger] vviews(refs@).contains(x) <==> exists|j: int|
            0 <= j < k + 1 && #[trigger] references(structures@[j], x) by {
            assert(base.contains(x) <==> exists|j: int| 0 <= j < k && #[trigger] references(structures@[j], x));
            assert(after_mods.contains(x) <==> (base.contains(x) || exists|i2: int|
                0 <= i2 < s.mod_declarations@.len() && is_prefix_path(#[trigger] s.mod_declarations@[i2]@, x)));
            assert(*s == structures@[k as int]);
            assert(u == all_uses(*s).len());
            assert(vviews(refs@).contains(x) <==> (after_mods.contains(x) || exists|i2: int|
                0 <= i2 < all_uses(*s).len() && #[trigger] use_references(*s, all_uses(*s)[i2], x)));
            assert(references(structures@[k as int], x) <==> (exists|i2: int|
                0 <= i2 < s.mod_declarations@.len() && is_prefix_path(#[trigger] s.mod_declarations@[i2]@, x)) || (exists|i2: int|
                0 <= i2 < all_uses(*s).len() && #[trigger] use_references(*s, all_uses(*s)[i2], x)));
            if references(structures@[k as int], x) {
                assert(exists|j: int| 0 <= j < k + 1 && #[trigger] references(structures@[j], x));
            }
            if exists|j: int| 0 <= j < k + 1 && #[trigger] references(structures@[j], x) {
                let j = choose|j: int| 0 <= j < k + 1 && #[trigger] references(structures@[j], x);
                if j < k {
                    assert(exists|j2: int| 0 <= j2 < k && #[trigger] references(structures@[j2], x));
                }
            }
        }
        k += 1;
    }
    refs
}

proof fn lemma_first_with_path(structures: Seq<FileStructure>, p: Seq<char>)
    ensures
        first_with_path(structures, p) matches Some(i) ==> 0 <= i < structures.len() && same_path(structures[i].path@, p)
            && forall|j: int| 0 <= j < i ==> !same_path(structures[j].path@, p),
        first_with_path(structures, p) is None ==> forall|j: int|
            0 <= j < structures.len() ==> !same_path(structures[j].path@, p),
    decreases structures.len(),
{
    if structures.len() > 0 && !same_path(structures[0].path@, p) {
        let rest = structures.drop_first();
        lemma_first_with_path(rest, p);
        assert forall|j: int| 0 < j < structures.len() implies structures[j] == rest[j - 1] by {}
    }
}

/// Index of the first structure of the file `p`, computed.
fn first_with_path_exec(structures: &Vec<FileStructure>, p: &Vec<char>) -> (r: Option<usize>)
    ensures
        r matches Some(i) ==> first_with_path(structures@, p@) == Some(i as int),
        r is None ==> first_with_path(structures@, p@) is None,
{
    proof {
        lemma_first_with_path(structures@, p@);
    }
    let mut i: usize = 0;
    while i < structures.len()
        invariant
            i <= structures.len(),
            forall|j: int| 0 <= j < i ==> !same_path(structures@[j].path@, p@),
        decreases structures.len() - i,
    {
        let sp = chars_of(structures[i].path.as_str());
        if same_path_chars(&sp, p) {
            proof {
                lemma_first_with_path(structures@, p@);
            }
            return Some(i);
        }
        i += 1;
    }
    None
}

/// Whether the module path or one of its proper prefixes is among `refs`.
fn module_referenced_exec(refs: &Vec<Vec<char>>, mp: &Vec<char>, Ghost(structures): Ghost<Seq<FileStructure>>) -> (b: bool)
    requires
        forall|x: Seq<char>| #[trigger] vviews(refs@).contains(x) <==> referenced(structures, x),
    ensures
        b == module_referenced(structures, mp@),
{
    if holds(refs, mp) {
        return true;
    }
    let sep = chars_of("::");
    proof {
        reveal_strlit("::");
    }
    let parts = split_exec(mp, &sep);
    let ghost pv = vviews(parts@);
    let mut cur: Vec<char> = parts[0].clone();
    assert(pv.take(1) =~= seq![pv[0]]);
    let mut len: usize = 1;
    while len < parts.len()
        invariant
            1 <= len <= parts.len(),
            pv == vviews(parts@),
            pv == split(mp@, "::"@),
            sep@ == "::"@,
            cur@ == path_prefix(mp@, len as int),
            forall|x: Seq<char>| #[trigger] vviews(refs@).contains(x) <==> referenced(structures, x),
            forall|l: int| 1 <= l < len ==> !referenced(structures, #[trigger] path_prefix(mp@, l)),
        decreases parts.len() - len,
    {
        if holds(refs, &cur) {
            return true;
        }
        let ghost t = pv.take(len + 1);
        assert(t.drop_last() =~= pv.take(len as int));
        assert(t.last() == parts@[len as int]@);
        push_vec(&mut cur, &sep);
        push_vec(&mut cur, &parts[len]);
        assert(cur@ =~= path_prefix(mp@, len + 1));
        len += 1;
    }
    false
}

/// Findings for the files that no `mod` declaration and no resolved `use`
/// reaches, in the order of `files`.
pub fn analyze_orphaned_files(files: &Vec<RustFile>, structures: &Vec<FileStructure>, counter: &mut usize) -> (r: Vec<Finding>)
    requires
        *old(counter) + orphans(files@, structures@).len() <= usize::MAX,
    ensures
        r.len() == orphans(files@, structures@).len(),
        *final(counter) == *old(counter) + r.len(),
        forall|i: int|
            0 <= i < r.len() ==> expected(
                orphans(files@, structures@)[i],
                structures@,
                (*old(counter) + i + 1) as nat,
                #[trigger] r@[i],
            ),
{
    let refs = referenced_paths(structures);
    let mut findings: Vec<Finding> = Vec::new();
    let ghost start = *counter;
    let mut k: usize = 0;
    while k < files.len()
        invariant
            k <= files.len(),
            start + orphans(files@, structures@).len() <= usize::MAX,
            forall|x: Seq<char>| #[trigger] vviews(refs@).contains(x) <==> referenced(structures@, x),
            findings.len() == orphans_upto(files@, structures@, k as int).len(),
            *counter == start + findings.len(),
            forall|i: int|
                0 <= i < findings.len() ==> expected(
                    orphans_upto(files@, structures@, k as int)[i],
                    structures@,
                    (start + i + 1) as nat,
                    #[trigger] findings@[i],
                ),
        decreases files.len() - k,
    {
        proof {
            lemma_orphans_len_mono(files@, structures@, k + 1, files@.len() as int);
        }
        let file = &files[k];
        let path = chars_of(file.path.as_str());
        let stem = file_stem_exec(&path);
        if eq_str(&stem, "lib") || eq_str(&stem, "main") || eq_str(&stem, "mod") {
            k += 1;
            continue;
        }
        proof {
            lemma_first_with_path(structures@, path@);
        }
        let mp: Vec<char> = match first_with_path_exec(structures, &path) {
            Some(i) => chars_of(structures[i].mod_path.as_str()),
            None => {
                let mut v = chars_of(file.package_name.as_str());
                push_str(&mut v, "::");
                push_vec(&mut v, &stem);
                v
            },
        };
        assert(mp@ == file_module(*file, structures@));
        if module_referenced_exec(&refs, &mp, Ghost(structures@)) {
            k += 1;
            continue;
        }
        let severity = if file.line_count >= 1000 {
            Severity::Critical
        } else if file.line_count >= 500 {
            Severity::High
        } else {
            Severity::Medium
        };
        let id = next_finding_id("dw", counter);
        let rel = chars_of(file.relative_path.as_str());
        let mut summary = chars_of("Orphaned file: ");
        push_vec(&mut summary, &rel);
        push_str(&mut summary, " (module '");
        push_vec(&mut summary, &mp);
        push_str(&mut summary, "') not referenced by any use or mod declaration");
        assert(summary@ =~= summary_text(file.relative_path@, mp@));
        let mut reason = chars_of("Module path '");
        push_vec(&mut reason, &mp);
        push_str(&mut reason, "' not found in any use or mod declaration");
        assert(reason@ =~= reason_text(mp@));
        let mut next = chars_of("Verify ");
        push_vec(&mut next, &rel);
        push_str(&mut next, " is still needed; add `mod ");
        push_vec(&mut next, &stem);
        push_str(&mut next, "` or delete it");
        assert(next@ =~= next_text(file.relative_path@, file_stem(file.path@)));
        let mut reasons: Vec<String> = Vec::new();
        reasons.push(string_of(&reason));
        let mut evidence: Vec<String> = Vec::new();
        evidence.push(kv_text("module_path", &mp));
        evidence.push(kv_num("line_count", file.line_count));
        assert(sviews(reasons@) =~= seq![reason_text(mp@)]);
        assert(sviews(evidence@) =~= seq![kv("module_path"@, mp@), kv("line_count"@, dec(file.line_count as nat))]);
        let f = Finding {
            id,
            kind: FindingKind::DeadWeight,
            severity,
            confidence_pct: 60,
            path: file.relative_path.clone(),
            summary: string_of(&summary),
            reasons,
            evidence,
            suggested_next_step: string_of(&next),
            estimated_tokens: Some(estimate_tokens(file.size_bytes)),
        };
        let ghost before = findings@;
        findings.push(f);
        proof {
            let o = orphans_upto(files@, structures@, k + 1);
            assert(o == orphans_upto(files@, structures@, k as int).push(files@[k as int]));
            assert forall|i: int| 0 <= i < findings.len() implies expected(
                o[i],
                structures@,
                (start + i + 1) as nat,
                #[trigger] findings@[i],
            ) by {
                if i < before.len() {
                    assert(findings@[i] == before[i]);
                }
            }
        }
        k += 1;
    }
    findings
}

/// Fewer files never give more orphans.
proof fn lemma_orphans_len_mono(files: Seq<RustFile>, structures: Seq<FileStructure>, a: int, b: int)
    requires
        0 <= a <= b <= files.len(),
    ensures
        orphans_upto(files, structures, a).len() <= orphans_upto(files, structures, b).len(),
    decreases b - a,
{
    if a < b {
        lemma_orphans_len_mono(files, structures, a, b - 1);
    }
}


proof fn lemma_orphans_upto_members(files: Seq<RustFile>, structures: Seq<FileStructure>, k: int)
    requires
        0 <= k <= files.len(),
    ensures
        forall|f: RustFile|
            #[trigger] orphans_upto(files, structures, k).contains(f) <==> (exists|i: int|
                0 <= i < k && files[i] == f) && is_orphan(f, structures),
    decreases k,
{
    if k > 0 {
        lemma_orphans_upto_members(files, structures, k - 1);
        let prev = orphans_upto(files, structures, k - 1);
        let cur = orphans_upto(files, structures, k);
        assert forall|f: RustFile| #[trigger] cur.contains(f) <==> (exists|i: int| 0 <= i < k && files[i] == f)
            && is_orphan(f, structures) by {
            if cur.contains(f) {
                let j = choose|j: int| 0 <= j < cur.len() && cur[j] == f;
                if j < prev.len() {
                    assert(prev[j] == f);
                    assert(prev.contains(f));
                } else {
                    assert(files[k - 1] == f);
                }
            }
            if (exists|i: int| 0 <= i < k && files[i] == f) && is_orphan(f, structures) {
                let i = choose|i: int| 0 <= i < k && files[i] == f;
                if i < k - 1 {
                    assert(prev.contains(f));
                    let j = choose|j: int| 0 <= j < prev.len() && prev[j] == f;
                    assert(cur[j] == f);
                } else {
                    assert(cur[cur.len() - 1] == f);
                }
            }
        }
    }
}

/// The files reported as dead weight are exactly the scanned files that are
/// no entry point (`lib.rs`, `main.rs`, `mod.rs`) and whose module no `mod`
/// declaration and no `use` item of the workspace reaches.
pub proof fn law_dead_weight_is_unreferenced_non_entry(files: Seq<RustFile>, structures: Seq<FileStructure>)
    ensures
        forall|f: RustFile|
            #[trigger] orphans(files, structures).contains(f) <==> files.contains(f) && !is_entry_stem(
                file_stem(f.path@),
            ) && !module_referenced(structures, file_module(f, structures)),
{
    lemma_orphans_upto_members(files, structures, files.len() as int);
}

} // verus!
