//! Fan-in and fan-out of every file, from the `use` items that resolve to
//! another file of the workspace.
use vstd::prelude::*;
use crate::parsing::extractor::{FileStructure, PubUseEntry};
use crate::paths::{same_path, same_path_chars};
use crate::text::{
    chars_of, eq_chars, eq_str, join, join_exec, push_str, push_vec, slice_chars, split, split_exec,
    string_of, sviews, vviews,
};

verus! {

// ---------------------------------------------------------------------------
// Resolving use paths
// ---------------------------------------------------------------------------

/// `a::b` when `b` is non-empty, else `a`.
pub open spec fn with_rest(base: Seq<char>, rest: Seq<Seq<char>>) -> Seq<char> {
    if rest.len() == 0 {
        base
    } else {
        base + "::"@ + join(rest, "::"@)
    }
}

/// Resolve a use path to an absolute module path given the current file's module path.
///
/// - `crate::foo::bar` → the package (first segment of the current module) then `foo::bar`
/// - `super::foo::bar` → the parent of the current module, then `foo::bar`
///   (nothing when the current module has no parent)
/// - `self::foo::bar`  → the current module, then `foo::bar`
/// - `foo::bar`        → as written (an external crate or a local module)
pub open spec fn resolve_spec(use_path: Seq<char>, current: Seq<char>) -> Option<Seq<char>> {
    let parts = split(use_path, "::"@);
    let rest = parts.drop_first();
    if parts[0] == "crate"@ {
        Some(with_rest(split(current, "::"@)[0], rest))
    } else if parts[0] == "super"@ {
        let cp = split(current, "::"@);
        if cp.len() < 2 {
            None
        } else {
            Some(with_rest(join(cp.drop_last(), "::"@), rest))
        }
    } else if parts[0] == "self"@ {
        Some(with_rest(current, rest))
    } else {
        Some(use_path)
    }
}

fn with_rest_exec(base: &Vec<char>, parts: &Vec<Vec<char>>) -> (r: Vec<char>)
    requires
        parts.len() >= 1,
    ensures
        r@ == with_rest(base@, vviews(parts@).drop_first()),
{
    let mut r: Vec<char> = Vec::new();
    push_vec(&mut r, base);
    if parts.len() > 1 {
        let mut rest: Vec<Vec<char>> = Vec::new();
        let mut i: usize = 1;
        while i < parts.len()
            invariant
                1 <= i <= parts.len(),
                vviews(rest@) == vviews(parts@).subrange(1, i as int),
            decreases parts.len() - i,
        {
            let ghost before = rest@;
            let item = parts[i].clone();
            rest.push(item);
            assert(vviews(rest@) =~= vviews(before).push(parts@[i as int]@));
            assert(vviews(rest@) =~= vviews(parts@).subrange(1, i + 1));
            i += 1;
        }
        assert(vviews(rest@) =~= vviews(parts@).drop_first());
        push_str(&mut r, "::");
        let sep = chars_of("::");
        let j = join_exec(&rest, &sep);
        push_vec(&mut r, &j);
    } else {
        assert(vviews(parts@).drop_first() =~= Seq::<Seq<char>>::empty());
    }
    r
}

/// Resolve a use path to an absolute module path given the current file's module path.
pub fn resolve_to_module_path(use_path: &Vec<char>, current: &Vec<char>) -> (r: Option<Vec<char>>)
    ensures
        r matches Some(v) ==> resolve_spec(use_path@, current@) == Some(v@),
        r is None ==> resolve_spec(use_path@, current@) is None,
{
    let sep = chars_of("::");
    proof {
        reveal_strlit("::");
    }
    let parts = split_exec(use_path, &sep);
    assert(vviews(parts@)[0] == parts@[0]@);
    if eq_str(&parts[0], "crate") {
        let cp = split_exec(current, &sep);
        assert(vviews(cp@)[0] == cp@[0]@);
        Some(with_rest_exec(&cp[0], &parts))
    } else if eq_str(&parts[0], "super") {
        let cp = split_exec(current, &sep);
        if cp.len() < 2 {
            return None;
        }
        let mut parent = cp;
        parent.pop();
        let ghost cpv = split(current@, "::"@);
        assert(vviews(parent@) =~= cpv.drop_last());
        let pj = join_exec(&parent, &sep);
        Some(with_rest_exec(&pj, &parts))
    } else if eq_str(&parts[0], "self") {
        Some(with_rest_exec(current, &parts))
    } else {
        Some(use_path.clone())
    }
}

// ---------------------------------------------------------------------------
// Module table and longest-prefix matching
// ---------------------------------------------------------------------------

/// The file providing module `m`: the path of the last structure whose
/// (non-empty) module path is `m`.
pub open spec fn module_file(structures: Seq<FileStructure>, m: Seq<char>) -> Option<Seq<char>>
    decreases structures.len(),
{
    if structures.len() == 0 {
        None
    } else if structures.last().mod_path@.len() > 0 && structures.last().mod_path@ == m {
        Some(structures.last().path@)
    } else {
        module_file(structures.drop_last(), m)
    }
}

/// Longest prefix (of at most `len` segments) of `parts` that names a module
/// of the workspace, and the file providing it.
pub open spec fn longest_prefix_file(structures: Seq<FileStructure>, parts: Seq<Seq<char>>, len: int) -> Option<Seq<char>>
    decreases len,
{
    if len <= 0 {
        None
    } else {
        match module_file(structures, join(parts.subrange(0, len), "::"@)) {
            Some(p) => Some(p),
            None => longest_prefix_file(structures, parts, len - 1),
        }
    }
}

/// Find the file that provides the given absolute module path using longest-prefix matching.
pub open spec fn resolve_import_spec(structures: Seq<FileStructure>, abs: Seq<char>) -> Option<Seq<char>> {
    let parts = split(abs, "::"@);
    longest_prefix_file(structures, parts, parts.len() as int)
}

fn module_file_exec(structures: &Vec<FileStructure>, m: &Vec<char>) -> (r: Option<Vec<char>>)
    ensures
        r matches Some(p) ==> module_file(structures@, m@) == Some(p@),
        r is None ==> module_file(structures@, m@) is None,
{
    let mut i = structures.len();
    assert(structures@.take(i as int) =~= structures@);
    while i > 0
        invariant
            i <= structures.len(),
            module_file(structures@, m@) == module_file(structures@.take(i as int), m@),
        decreases i,
    {
        let ghost t = structures@.take(i as int);
        assert(t.drop_last() =~= structures@.take(i - 1));
        assert(t.last() == structures@[i - 1]);
        let s = &structures[i - 1];
        let mp = chars_of(s.mod_path.as_str());
        if mp.len() > 0 && eq_chars(&mp, m) {
            return Some(chars_of(s.path.as_str()));
        }
        i -= 1;
    }
    None
}

/// Find the file that provides the given absolute module path using longest-prefix matching.
pub fn resolve_import(abs: &Vec<char>, structures: &Vec<FileStructure>) -> (r: Option<Vec<char>>)
    ensures
        r matches Some(p) ==> resolve_import_spec(structures@, abs@) == Some(p@),
        r is None ==> resolve_import_spec(structures@, abs@) is None,
{
    let sep = chars_of("::");
    proof {
        reveal_strlit("::");
    }
    let parts = split_exec(abs, &sep);
    let ghost pv = vviews(parts@);
    let mut len = parts.len();
    while len > 0
        invariant
            len <= parts.len(),
            pv == vviews(parts@),
            sep@ == "::"@,
            resolve_import_spec(structures@, abs@) == longest_prefix_file(structures@, pv, len as int),
        decreases len,
    {
        let mut prefix: Vec<Vec<char>> = Vec::new();
        let mut k: usize = 0;
        while k < len
            invariant
                k <= len <= parts.len(),
                pv == vviews(parts@),
                vviews(prefix@) == pv.subrange(0, k as int),
            decreases len - k,
        {
            let ghost before = prefix@;
            prefix.push(parts[k].clone());
            assert(vviews(prefix@) =~= vviews(before).push(pv[k as int]));
            assert(vviews(prefix@) =~= pv.subrange(0, k + 1));
            k += 1;
        }
        let candidate = join_exec(&prefix, &sep);
        assert(candidate@ == join(pv.subrange(0, len as int), "::"@));
        assert(longest_prefix_file(structures@, pv, len as int) == match module_file(
            structures@,
            join(pv.subrange(0, len as int), "::"@),
        ) {
            Some(p) => Some(p),
            None => longest_prefix_file(structures@, pv, len - 1),
        });
        match module_file_exec(structures, &candidate) {
            Some(p) => {
                return Some(p);
            },
            None => {},
        }
        len -= 1;
    }
    None
}

// ---------------------------------------------------------------------------
// Edges
// ---------------------------------------------------------------------------

pub open spec fn pub_use_views(entries: Seq<PubUseEntry>) -> Seq<Seq<char>> {
    entries.map_values(|e: PubUseEntry| e.path@)
}

/// Every use path of a file: private ones first, then the `pub use` ones.
pub open spec fn all_uses(s: FileStructure) -> Seq<Seq<char>> {
    sviews(s.use_paths@) + pub_use_views(s.pub_use_paths@)
}

/// The file an import of `use_path` from `s` counts towards, if any: the
/// resolved file, unless it is `s`'s own file (compared as paths).
pub open spec fn edge_target(structures: Seq<FileStructure>, s: FileStructure, use_path: Seq<char>) -> Option<Seq<char>> {
    match resolve_spec(use_path, s.mod_path@) {
        Some(abs) => match resolve_import_spec(structures, abs) {
            Some(t) => if !same_path(t, s.path@) {
                Some(t)
            } else {
                None
            },
            None => None,
        },
        None => None,
    }
}

/// Targets of the first `k` uses of `s`, in order.
pub open spec fn edges_upto(structures: Seq<FileStructure>, s: FileStructure, k: int) -> Seq<Seq<char>>
    decreases k,
{
    if k <= 0 || k > all_uses(s).len() {
        seq![]
    } else {
        let prev = edges_upto(structures, s, k - 1);
        match edge_target(structures, s, all_uses(s)[k - 1]) {
            Some(t) => prev.push(t),
            None => prev,
        }
    }
}

/// The files `s` imports, one entry per counted `use`.
pub open spec fn edges_of(structures: Seq<FileStructure>, s: FileStructure) -> Seq<Seq<char>> {
    edges_upto(structures, s, all_uses(s).len() as int)
}

/// How many elements of `v` are the path `x`.
pub open spec fn occurrences(v: Seq<Seq<char>>, x: Seq<char>) -> nat
    decreases v.len(),
{
    if v.len() == 0 {
        0
    } else {
        occurrences(v.drop_last(), x) + if same_path(v.last(), x) {
            1nat
        } else {
            0nat
        }
    }
}

/// Imports of `p` counted over the first `k` structures.
pub open spec fn fan_in_upto(structures: Seq<FileStructure>, p: Seq<char>, k: int) -> nat
    decreases k,
{
    if k <= 0 || k > structures.len() {
        0
    } else {
        fan_in_upto(structures, p, k - 1) + occurrences(edges_of(structures, structures[k - 1]), p)
    }
}

/// How many counted imports, over all files, lead to `p`.
pub open spec fn fan_in_spec(structures: Seq<FileStructure>, p: Seq<char>) -> nat {
    fan_in_upto(structures, p, structures.len() as int)
}

/// Index of the last structure whose file is the path `p`.
pub open spec fn last_with_path(structures: Seq<FileStructure>, p: Seq<char>) -> Option<int>
    decreases structures.len(),
{
    if structures.len() == 0 {
        None
    } else if same_path(structures.last().path@, p) {
        Some(structures.len() - 1)
    } else {
        last_with_path(structures.drop_last(), p)
    }
}

/// How many counted imports the file `p` makes (its last structure's, when
/// the same file occurs twice).
pub open spec fn fan_out_spec(structures: Seq<FileStructure>, p: Seq<char>) -> nat {
    match last_with_path(structures, p) {
        Some(i) => edges_of(structures, structures[i]).len(),
        None => 0,
    }
}

/// The value recorded for the path `key`: the first entry's whose key is
/// the same path, or 0 when there is none.
pub open spec fn lookup(entries: Seq<(String, usize)>, key: Seq<char>) -> nat
    decreases entries.len(),
{
    if entries.len() == 0 {
        0
    } else if same_path(entries[0].0@, key) {
        entries[0].1 as nat
    } else {
        lookup(entries.drop_first(), key)
    }
}

/// Per-file fan-in (how many imports lead to the file) and fan-out (how many
/// imports it makes), keyed by the file's path.
#[derive(Debug, Clone)]
pub struct ImportGraph {
    pub fan_in: Vec<(String, usize)>,
    pub fan_out: Vec<(String, usize)>,
}

/// Number of use paths over the first `k` structures.
pub open spec fn uses_upto(structures: Seq<FileStructure>, k: int) -> nat
    decreases k,
{
    if k <= 0 || k > structures.len() {
        0
    } else {
        uses_upto(structures, k - 1) + all_uses(structures[k - 1]).len()
    }
}

pub open spec fn total_uses(structures: Seq<FileStructure>) -> nat {
    uses_upto(structures, structures.len() as int)
}

impl ImportGraph {
    pub open spec fn fan_in_of(self, p: Seq<char>) -> nat {
        lookup(self.fan_in@, p)
    }

    pub open spec fn fan_out_of(self, p: Seq<char>) -> nat {
        lookup(self.fan_out@, p)
    }

    pub fn get_fan_in(&self, path: &str) -> (r: usize)
        ensures
            r as nat == self.fan_in_of(path@),
    {
        lookup_exec(&self.fan_in, path)
    }

    pub fn get_fan_out(&self, path: &str) -> (r: usize)
        ensures
            r as nat == self.fan_out_of(path@),
    {
        lookup_exec(&self.fan_out, path)
    }
}

/// The use paths of a file, private ones first.
pub fn uses_of(s: &FileStructure) -> (r: Vec<Vec<char>>)
    ensures
        vviews(r@) == all_uses(*s),
{
    let mut r: Vec<Vec<char>> = Vec::new();
    let mut i: usize = 0;
    while i < s.use_paths.len()
        invariant
            i <= s.use_paths.len(),
            vviews(r@) == sviews(s.use_paths@).take(i as int),
        decreases s.use_paths.len() - i,
    {
        let ghost before = r@;
        r.push(chars_of(s.use_paths[i].as_str()));
        assert(vviews(r@) =~= vviews(before).push(s.use_paths@[i as int]@));
        assert(vviews(r@) =~= sviews(s.use_paths@).take(i + 1));
        i += 1;
    }
    assert(sviews(s.use_paths@).take(i as int) =~= sviews(s.use_paths@));
    let mut j: usize = 0;
    while j < s.pub_use_paths.len()
        invariant
            j <= s.pub_use_paths.len(),
            vviews(r@) == sviews(s.use_paths@) + pub_use_views(s.pub_use_paths@).take(j as int),
        decreases s.pub_use_paths.len() - j,
    {
        let ghost before = r@;
        r.push(chars_of(s.pub_use_paths[j].path.as_str()));
        assert(vviews(r@) =~= vviews(before).push(s.pub_use_paths@[j as int].path@));
        assert(vviews(r@) =~= sviews(s.use_paths@) + pub_use_views(s.pub_use_paths@).take(j + 1));
        j += 1;
    }
    assert(pub_use_views(s.pub_use_paths@).take(j as int) =~= pub_use_views(s.pub_use_paths@));
    r
}

/// The file an import of `use_path` from `s` counts towards, computed.
fn edge_target_exec(structures: &Vec<FileStructure>, s: &FileStructure, use_path: &Vec<char>) -> (r: Option<Vec<char>>)
    ensures
        r matches Some(t) ==> edge_target(structures@, *s, use_path@) == Some(t@),
        r is None ==> edge_target(structures@, *s, use_path@) is None,
{
    let mp = chars_of(s.mod_path.as_str());
    match resolve_to_module_path(use_path, &mp) {
        Some(abs) => match resolve_import(&abs, structures) {
            Some(t) => {
                let sp = chars_of(s.path.as_str());
                if same_path_chars(&t, &sp) {
                    None
                } else {
                    Some(t)
                }
            },
            None => None,
        },
        None => None,
    }
}

/// The files `s` imports, computed.
fn edges_exec(structures: &Vec<FileStructure>, s: &FileStructure) -> (r: Vec<Vec<char>>)
    ensures
        vviews(r@) == edges_of(structures@, *s),
        r.len() <= all_uses(*s).len(),
{
    let uses = uses_of(s);
    let mut r: Vec<Vec<char>> = Vec::new();
    let mut k: usize = 0;
    while k < uses.len()
        invariant
            k <= uses.len(),
            vviews(uses@) == all_uses(*s),
            vviews(r@) == edges_upto(structures@, *s, k as int),
            r.len() <= k,
        decreases uses.len() - k,
    {
        assert(all_uses(*s)[k as int] == uses@[k as int]@);
        let ghost before = r@;
        match edge_target_exec(structures, s, &uses[k]) {
            Some(t) => {
                r.push(t);
                assert(vviews(r@) =~= vviews(before).push(t@));
            },
            None => {},
        }
        k += 1;
    }
    r
}

/// How many times `x` occurs in `v`, computed.
fn occurrences_exec(v: &Vec<Vec<char>>, x: &Vec<char>) -> (r: usize)
    ensures
        r as nat == occurrences(vviews(v@), x@),
        r <= v.len(),
{
    let mut r: usize = 0;
    let mut i: usize = 0;
    while i < v.len()
        invariant
            i <= v.len(),
            r <= i,
            r as nat == occurrences(vviews(v@).take(i as int), x@),
        decreases v.len() - i,
    {
        let ghost t = vviews(v@).take(i + 1);
        assert(t.drop_last() =~= vviews(v@).take(i as int));
        assert(t.last() == v@[i as int]@);
        if same_path_chars(&v[i], x) {
            r += 1;
        }
        i += 1;
    }
    assert(vviews(v@).take(v.len() as int) =~= vviews(v@));
    r
}

/// Lookup in a list whose every entry records `f` of its key, for an `f`
/// that gives the same value for the same path, gives `f(key)` for a listed
/// path and 0 for any other.
proof fn lemma_lookup_consistent(entries: Seq<(String, usize)>, key: Seq<char>, f: spec_fn(Seq<char>) -> nat)
    requires
        forall|j: int| 0 <= j < entries.len() ==> #[trigger] entries[j].1 as nat == f(entries[j].0@),
        forall|a: Seq<char>| same_path(a, key) ==> #[trigger] f(a) == f(key),
    ensures
        (exists|j: int| 0 <= j < entries.len() && #[trigger] same_path(entries[j].0@, key)) ==> lookup(entries, key)
            == f(key),
        !(exists|j: int| 0 <= j < entries.len() && #[trigger] same_path(entries[j].0@, key)) ==> lookup(entries, key)
            == 0,
    decreases entries.len(),
{
    if entries.len() > 0 {
        let rest = entries.drop_first();
        assert forall|j: int| 0 <= j < rest.len() implies #[trigger] rest[j].1 as nat == f(rest[j].0@) by {
            assert(rest[j] == entries[j + 1]);
        }
        lemma_lookup_consistent(rest, key, f);
        if !same_path(entries[0].0@, key) {
            if exists|j: int| 0 <= j < entries.len() && #[trigger] same_path(entries[j].0@, key) {
                let j = choose|j: int| 0 <= j < entries.len() && #[trigger] same_path(entries[j].0@, key);
                assert(rest[j - 1] == entries[j]);
            }
            if exists|j: int| 0 <= j < rest.len() && #[trigger] same_path(rest[j].0@, key) {
                let j = choose|j: int| 0 <= j < rest.len() && #[trigger] same_path(rest[j].0@, key);
                assert(rest[j] == entries[j + 1]);
            }
        } else {
            assert(entries[0].1 as nat == f(entries[0].0@));
        }
    }
}

fn lookup_exec(entries: &Vec<(String, usize)>, key: &str) -> (r: usize)
    ensures
        r as nat == lookup(entries@, key@),
{
    let kv = chars_of(key);
    let mut i: usize = 0;
    assert(entries@.subrange(0, entries@.len() as int) =~= entries@);
    while i < entries.len()
        invariant
            i <= entries.len(),
            kv@ == key@,
            lookup(entries@, key@) == lookup(entries@.subrange(i as int, entries@.len() as int), key@),
        decreases entries.len() - i,
    {
        let ghost rest = entries@.subrange(i as int, entries@.len() as int);
        assert(rest.drop_first() =~= entries@.subrange(i + 1, entries@.len() as int));
        assert(rest[0] == entries@[i as int]);
        assert(lookup(rest, key@) == if same_path(rest[0].0@, key@) {
            rest[0].1 as nat
        } else {
            lookup(rest.drop_first(), key@)
        });
        let k = chars_of(entries[i].0.as_str());
        if same_path_chars(&k, &kv) {
            return entries[i].1;
        }
        i += 1;
    }
    let ghost rest = entries@.subrange(i as int, entries@.len() as int);
    assert(rest.len() == 0);
    0
}


// ---------------------------------------------------------------------------
// Building the graph
// ---------------------------------------------------------------------------

proof fn lemma_occurrences_le(v: Seq<Seq<char>>, x: Seq<char>)
    ensures
        occurrences(v, x) <= v.len(),
    decreases v.len(),
{
    if v.len() > 0 {
        lemma_occurrences_le(v.drop_last(), x);
    }
}

/// No occurrence of a path that no element of the sequence is.
proof fn lemma_occurrences_absent(v: Seq<Seq<char>>, x: Seq<char>)
    requires
        forall|i: int| 0 <= i < v.len() ==> !same_path(v[i], x),
    ensures
        occurrences(v, x) == 0,
    decreases v.len(),
{
    if v.len() > 0 {
        lemma_occurrences_absent(v.drop_last(), x);
    }
}

proof fn lemma_edges_upto_len(structures: Seq<FileStructure>, s: FileStructure, k: int)
    requires
        0 <= k <= all_uses(s).len(),
    ensures
        edges_upto(structures, s, k).len() <= k,
    decreases k,
{
    if k > 0 {
        lemma_edges_upto_len(structures, s, k - 1);
    }
}

/// `p` is the file of one of the structures.
pub open spec fn listed(structures: Seq<FileStructure>, p: Seq<char>) -> bool {
    exists|j: int| 0 <= j < structures.len() && #[trigger] structures[j].path@ == p
}

/// The file that `module_file` names is one of the structures' files.
proof fn lemma_module_file_listed(structures: Seq<FileStructure>, m: Seq<char>)
    ensures
        module_file(structures, m) matches Some(p) ==> listed(structures, p),
    decreases structures.len(),
{
    if structures.len() > 0 {
        let init = structures.drop_last();
        lemma_module_file_listed(init, m);
        if structures.last().mod_path@.len() > 0 && structures.last().mod_path@ == m {
            assert(structures[structures.len() - 1].path@ == structures.last().path@);
        } else if let Some(p) = module_file(init, m) {
            let j = choose|j: int| 0 <= j < init.len() && #[trigger] init[j].path@ == p;
            assert(structures[j] == init[j]);
        }
    }
}

proof fn lemma_longest_prefix_listed(structures: Seq<FileStructure>, parts: Seq<Seq<char>>, len: int)
    ensures
        longest_prefix_file(structures, parts, len) matches Some(p) ==> listed(structures, p),
    decreases len,
{
    if len > 0 {
        lemma_module_file_listed(structures, join(parts.subrange(0, len), "::"@));
        lemma_longest_prefix_listed(structures, parts, len - 1);
    }
}

/// Every edge leads to the file of one of the structures.
proof fn lemma_edges_listed(structures: Seq<FileStructure>, s: FileStructure, k: int)
    ensures
        forall|i: int|
            0 <= i < edges_upto(structures, s, k).len() ==> listed(
                structures,
                #[trigger] edges_upto(structures, s, k)[i],
            ),
    decreases k,
{
    if k > 0 && k <= all_uses(s).len() {
        lemma_edges_listed(structures, s, k - 1);
        let u = all_uses(s)[k - 1];
        if let Some(abs) = resolve_spec(u, s.mod_path@) {
            let parts = split(abs, "::"@);
            lemma_longest_prefix_listed(structures, parts, parts.len() as int);
        }
        let prev = edges_upto(structures, s, k - 1);
        let cur = edges_upto(structures, s, k);
        assert forall|i: int| 0 <= i < cur.len() implies listed(structures, #[trigger] cur[i]) by {
            if i < prev.len() {
                assert(cur[i] == prev[i]);
            }
        }
    }
}

/// Imports counted towards a file that is none of the structures' files: none.
proof fn lemma_fan_in_unlisted(structures: Seq<FileStructure>, p: Seq<char>, k: int)
    requires
        forall|j: int| 0 <= j < structures.len() ==> !same_path(structures[j].path@, p),
    ensures
        fan_in_upto(structures, p, k) == 0,
    decreases k,
{
    if k > 0 && k <= structures.len() {
        lemma_fan_in_unlisted(structures, p, k - 1);
        let s = structures[k - 1];
        let n = all_uses(s).len() as int;
        lemma_edges_listed(structures, s, n);
        let e = edges_of(structures, s);
        assert forall|i: int| 0 <= i < e.len() implies !same_path(e[i], p) by {
            assert(listed(structures, e[i]));
            let j = choose|j: int| 0 <= j < structures.len() && #[trigger] structures[j].path@ == e[i];
            assert(!same_path(structures[j].path@, p));
        }
        lemma_occurrences_absent(e, p);
    }
}

proof fn lemma_fan_in_bounded(structures: Seq<FileStructure>, p: Seq<char>, k: int)
    requires
        0 <= k <= structures.len(),
    ensures
        fan_in_upto(structures, p, k) <= uses_upto(structures, k),
    decreases k,
{
    if k > 0 {
        lemma_fan_in_bounded(structures, p, k - 1);
        let s = structures[k - 1];
        lemma_occurrences_le(edges_of(structures, s), p);
        lemma_edges_upto_len(structures, s, all_uses(s).len() as int);
    }
}

proof fn lemma_uses_monotone(structures: Seq<FileStructure>, k: int, n: int)
    requires
        0 <= k <= n <= structures.len(),
    ensures
        uses_upto(structures, k) <= uses_upto(structures, n),
    decreases n - k,
{
    if k < n {
        lemma_uses_monotone(structures, k, n - 1);
    }
}

/// Index of the last structure whose file is `p`, computed.
fn last_with_path_exec(structures: &Vec<FileStructure>, p: &Vec<char>) -> (r: Option<usize>)
    ensures
        r matches Some(i) ==> last_with_path(structures@, p@) == Some(i as int),
        r is None ==> last_with_path(structures@, p@) is None,
{
    let mut i = structures.len();
    assert(structures@.take(i as int) =~= structures@);
    while i > 0
        invariant
            i <= structures.len(),
            last_with_path(structures@, p@) == last_with_path(structures@.take(i as int), p@),
        decreases i,
    {
        let ghost t = structures@.take(i as int);
        assert(t.drop_last() =~= structures@.take(i - 1));
        assert(t.last() == structures@[i - 1]);
        let sp = chars_of(structures[i - 1].path.as_str());
        if same_path_chars(&sp, p) {
            return Some(i - 1);
        }
        i -= 1;
    }
    None
}

impl ImportGraph {
    /// Count, for every file, the imports that lead to it (fan-in) and the
    /// imports it makes (fan-out). An import counts when its path resolves
    /// to a file of the workspace other than the importing file itself.
    pub fn build(structures: &Vec<FileStructure>, root: &str) -> (g: ImportGraph)
        requires
            total_uses(structures@) <= usize::MAX,
        ensures
            forall|p: Seq<char>| #[trigger] g.fan_in_of(p) == fan_in_spec(structures@, p),
            forall|p: Seq<char>| #[trigger] g.fan_out_of(p) == fan_out_spec(structures@, p),
            g.fan_in@.len() == structures@.len(),
            g.fan_out@.len() == structures@.len(),
            forall|j: int| 0 <= j < structures@.len() ==> (#[trigger] g.fan_in@[j]).0@ == structures@[j].path@,
            forall|j: int| 0 <= j < structures@.len() ==> (#[trigger] g.fan_out@[j]).0@ == structures@[j].path@,
    {
        let n = structures.len();
        let mut edges: Vec<Vec<Vec<char>>> = Vec::new();
        let mut i: usize = 0;
        while i < n
            invariant
                n == structures.len(),
                i <= n,
                edges.len() == i,
                forall|j: int| 0 <= j < i ==> vviews(#[trigger] edges@[j]@) == edges_of(structures@, structures@[j]),
            decreases n - i,
        {
            let e = edges_exec(structures, &structures[i]);
            edges.push(e);
            i += 1;
        }
        let mut fan_in: Vec<(String, usize)> = Vec::new();
        let mut fan_out: Vec<(String, usize)> = Vec::new();
        let mut k: usize = 0;
        while k < n
            invariant
                n == structures.len(),
                k <= n,
                edges.len() == n,
                total_uses(structures@) <= usize::MAX,
                forall|j: int| 0 <= j < n ==> vviews(#[trigger] edges@[j]@) == edges_of(structures@, structures@[j]),
                fan_in.len() == k,
                fan_out.len() == k,
                forall|j: int| 0 <= j < k ==> #[trigger] fan_in@[j].0@ == structures@[j].path@,
                forall|j: int| 0 <= j < k ==> #[trigger] fan_out@[j].0@ == structures@[j].path@,
                forall|j: int| 0 <= j < k ==> #[trigger] fan_in@[j].1 as nat == fan_in_spec(structures@, fan_in@[j].0@),
                forall|j: int| 0 <= j < k ==> #[trigger] fan_out@[j].1 as nat == fan_out_spec(structures@, fan_out@[j].0@),
            decreases n - k,
        {
            let p = chars_of(structures[k].path.as_str());
            let mut sum: usize = 0;
            let mut m: usize = 0;
            while m < n
                invariant
                    n == structures.len(),
                    m <= n,
                    edges.len() == n,
                    total_uses(structures@) <= usize::MAX,
                    forall|j: int| 0 <= j < n ==> vviews(#[trigger] edges@[j]@) == edges_of(structures@, structures@[j]),
                    sum as nat == fan_in_upto(structures@, p@, m as int),
                decreases n - m,
            {
                proof {
                    lemma_fan_in_bounded(structures@, p@, m + 1);
                    lemma_uses_monotone(structures@, m + 1, n as int);
                }
                let c = occurrences_exec(&edges[m], &p);
                sum = sum + c;
                m += 1;
            }
            proof {
                lemma_last_with_path_found(structures@, p@);
            }
            let out: usize = match last_with_path_exec(structures, &p) {
                Some(j) => {
                    assert(vviews(edges@[j as int]@).len() == edges@[j as int]@.len());
                    edges[j].len()
                },
                None => 0,
            };
            fan_in.push((structures[k].path.clone(), sum));
            fan_out.push((structures[k].path.clone(), out));
            k += 1;
        }
        proof {
            let fi = |p: Seq<char>| fan_in_spec(structures@, p);
            let fo = |p: Seq<char>| fan_out_spec(structures@, p);
            assert forall|p: Seq<char>| #[trigger] lookup(fan_in@, p) == fan_in_spec(structures@, p) by {
                assert forall|a: Seq<char>| same_path(a, p) implies #[trigger] fi(a) == fi(p) by {
                    lemma_fan_in_same_path(structures@, a, p, structures@.len() as int);
                }
                lemma_lookup_consistent(fan_in@, p, fi);
                if !(exists|j: int| 0 <= j < fan_in@.len() && #[trigger] same_path(fan_in@[j].0@, p)) {
                    assert forall|j: int| 0 <= j < structures@.len() implies !same_path(structures@[j].path@, p) by {
                        assert(fan_in@[j].0@ == structures@[j].path@);
                    }
                    lemma_fan_in_unlisted(structures@, p, structures@.len() as int);
                }
            }
            assert forall|p: Seq<char>| #[trigger] lookup(fan_out@, p) == fan_out_spec(structures@, p) by {
                assert forall|a: Seq<char>| same_path(a, p) implies #[trigger] fo(a) == fo(p) by {
                    lemma_last_with_path_same_path(structures@, a, p);
                }
                lemma_lookup_consistent(fan_out@, p, fo);
                if !(exists|j: int| 0 <= j < fan_out@.len() && #[trigger] same_path(fan_out@[j].0@, p)) {
                    assert forall|j: int| 0 <= j < structures@.len() implies !same_path(structures@[j].path@, p) by {
                        assert(fan_out@[j].0@ == structures@[j].path@);
                    }
                    lemma_last_with_path_absent(structures@, p);
                }
            }
        }
        ImportGraph { fan_in, fan_out }
    }
}

proof fn lemma_last_with_path_absent(structures: Seq<FileStructure>, p: Seq<char>)
    requires
        forall|j: int| 0 <= j < structures.len() ==> !same_path(structures[j].path@, p),
    ensures
        last_with_path(structures, p) is None,
    decreases structures.len(),
{
    if structures.len() > 0 {
        let init = structures.drop_last();
        assert forall|j: int| 0 <= j < init.len() implies !same_path(init[j].path@, p) by {
            assert(init[j] == structures[j]);
        }
        assert(structures.last() == structures[structures.len() - 1]);
        lemma_last_with_path_absent(init, p);
    }
}

/// The last structure with a given file has that file.
proof fn lemma_last_with_path_found(structures: Seq<FileStructure>, p: Seq<char>)
    ensures
        last_with_path(structures, p) matches Some(i) ==> 0 <= i < structures.len() && same_path(
            structures[i].path@,
            p,
        ),
    decreases structures.len(),
{
    if structures.len() > 0 {
        let init = structures.drop_last();
        lemma_last_with_path_found(init, p);
        if let Some(i) = last_with_path(init, p) {
            assert(init[i] == structures[i]);
        }
    }
}


proof fn lemma_no_self_edges(structures: Seq<FileStructure>, s: FileStructure, k: int)
    ensures
        forall|i: int|
            0 <= i < edges_upto(structures, s, k).len() ==> !same_path(
                #[trigger] edges_upto(structures, s, k)[i],
                s.path@,
            ),
    decreases k,
{
    if k > 0 && k <= all_uses(s).len() {
        lemma_no_self_edges(structures, s, k - 1);
        let prev = edges_upto(structures, s, k - 1);
        let cur = edges_upto(structures, s, k);
        assert forall|i: int| 0 <= i < cur.len() implies !same_path(#[trigger] cur[i], s.path@) by {
            if i < prev.len() {
                assert(cur[i] == prev[i]);
            }
        }
    }
}

/// A file's imports of its own module are never counted: none of its edges
/// leads back to it, so they add nothing to its own fan-in.
pub proof fn law_self_imports_not_counted(structures: Seq<FileStructure>, s: FileStructure)
    ensures
        forall|i: int|
            0 <= i < edges_of(structures, s).len() ==> !same_path(#[trigger] edges_of(structures, s)[i], s.path@),
        occurrences(edges_of(structures, s), s.path@) == 0,
{
    lemma_no_self_edges(structures, s, all_uses(s).len() as int);
    lemma_occurrences_absent(edges_of(structures, s), s.path@);
}

/// Imports that resolve outside the scanned files (another crate, a
/// missing module) are never counted: a path that is no scanned file has
/// neither fan-in nor fan-out.
pub proof fn law_only_scanned_files_are_coupled(structures: Seq<FileStructure>, p: Seq<char>)
    requires
        forall|j: int| 0 <= j < structures.len() ==> !same_path((#[trigger] structures[j]).path@, p),
    ensures
        fan_in_spec(structures, p) == 0,
        fan_out_spec(structures, p) == 0,
{
    lemma_fan_in_unlisted(structures, p, structures.len() as int);
    lemma_last_with_path_absent(structures, p);
}


proof fn lemma_occurrences_same_path(v: Seq<Seq<char>>, a: Seq<char>, b: Seq<char>)
    requires
        same_path(a, b),
    ensures
        occurrences(v, a) == occurrences(v, b),
    decreases v.len(),
{
    if v.len() > 0 {
        lemma_occurrences_same_path(v.drop_last(), a, b);
    }
}

/// Fan-in is the same for two texts of the same path.
proof fn lemma_fan_in_same_path(structures: Seq<FileStructure>, a: Seq<char>, b: Seq<char>, k: int)
    requires
        same_path(a, b),
    ensures
        fan_in_upto(structures, a, k) == fan_in_upto(structures, b, k),
    decreases k,
{
    if k > 0 && k <= structures.len() {
        lemma_fan_in_same_path(structures, a, b, k - 1);
        lemma_occurrences_same_path(edges_of(structures, structures[k - 1]), a, b);
    }
}

/// The last structure of a path is the same for two texts of that path.
proof fn lemma_last_with_path_same_path(structures: Seq<FileStructure>, a: Seq<char>, b: Seq<char>)
    requires
        same_path(a, b),
    ensures
        last_with_path(structures, a) == last_with_path(structures, b),
    decreases structures.len(),
{
    if structures.len() > 0 {
        lemma_last_with_path_same_path(structures.drop_last(), a, b);
    }
}

// ---------------------------------------------------------------------------
// The graph as a whole
// ---------------------------------------------------------------------------

/// No two structures are of the same file.
pub open spec fn distinct_paths(structures: Seq<FileStructure>) -> bool {
    forall|i: int, j: int|
        0 <= i < j < structures.len() ==> !same_path(#[trigger] structures[i].path@, #[trigger] structures[j].path@)
}

/// Fan-in over the first `m` structures' imports, summed over the files of the first `k` structures.
pub open spec fn fan_in_total(structures: Seq<FileStructure>, k: int, m: int) -> nat
    decreases k,
{
    if k <= 0 || k > structures.len() {
        0
    } else {
        fan_in_total(structures, k - 1, m) + fan_in_upto(structures, structures[k - 1].path@, m)
    }
}

/// The fan-in of every file, summed.
pub open spec fn fan_in_sum(structures: Seq<FileStructure>) -> nat {
    fan_in_total(structures, structures.len() as int, structures.len() as int)
}

/// The fan-out of the files of the first `k` structures, summed.
pub open spec fn fan_out_total(structures: Seq<FileStructure>, k: int) -> nat
    decreases k,
{
    if k <= 0 || k > structures.len() {
        0
    } else {
        fan_out_total(structures, k - 1) + fan_out_spec(structures, structures[k - 1].path@)
    }
}

/// The fan-out of every file, summed.
pub open spec fn fan_out_sum(structures: Seq<FileStructure>) -> nat {
    fan_out_total(structures, structures.len() as int)
}

/// Counted imports of the first `m` structures.
pub open spec fn edges_total(structures: Seq<FileStructure>, m: int) -> nat
    decreases m,
{
    if m <= 0 || m > structures.len() {
        0
    } else {
        edges_total(structures, m - 1) + edges_of(structures, structures[m - 1]).len()
    }
}

/// How often the elements of `v` are the files of the first `k` structures.
pub open spec fn occ_sum(structures: Seq<FileStructure>, v: Seq<Seq<char>>, k: int) -> nat
    decreases k,
{
    if k <= 0 || k > structures.len() {
        0
    } else {
        occ_sum(structures, v, k - 1) + occurrences(v, structures[k - 1].path@)
    }
}

/// How many of the first `k` structures are of the file `x`.
pub open spec fn hits(structures: Seq<FileStructure>, x: Seq<char>, k: int) -> nat
    decreases k,
{
    if k <= 0 || k > structures.len() {
        0
    } else {
        hits(structures, x, k - 1) + if same_path(x, structures[k - 1].path@) {
            1nat
        } else {
            0nat
        }
    }
}

proof fn lemma_occ_sum_empty(structures: Seq<FileStructure>, k: int)
    ensures
        occ_sum(structures, seq![], k) == 0,
    decreases k,
{
    if k > 0 && k <= structures.len() {
        lemma_occ_sum_empty(structures, k - 1);
    }
}

proof fn lemma_occ_sum_push(structures: Seq<FileStructure>, v: Seq<Seq<char>>, x: Seq<char>, k: int)
    requires
        0 <= k <= structures.len(),
    ensures
        occ_sum(structures, v.push(x), k) == occ_sum(structures, v, k) + hits(structures, x, k),
    decreases k,
{
    if k > 0 {
        lemma_occ_sum_push(structures, v, x, k - 1);
        assert(v.push(x).drop_last() =~= v);
    }
}

proof fn lemma_hits_one(structures: Seq<FileStructure>, x: Seq<char>, i: int, k: int)
    requires
        distinct_paths(structures),
        0 <= i < structures.len(),
        structures[i].path@ == x,
        0 <= k <= structures.len(),
    ensures
        hits(structures, x, k) == if i < k {
            1nat
        } else {
            0nat
        },
    decreases k,
{
    if k > 0 {
        lemma_hits_one(structures, x, i, k - 1);
        if k - 1 < i {
            assert(!same_path(structures[k - 1].path@, structures[i].path@));
        } else if k - 1 > i {
            assert(!same_path(structures[i].path@, structures[k - 1].path@));
        }
    }
}

/// Each element of a list of scanned files is one file: summed over all
/// files, its occurrences are its length.
proof fn lemma_occ_sum_full(structures: Seq<FileStructure>, v: Seq<Seq<char>>)
    requires
        distinct_paths(structures),
        forall|t: int| 0 <= t < v.len() ==> listed(structures, #[trigger] v[t]),
    ensures
        occ_sum(structures, v, structures.len() as int) == v.len(),
    decreases v.len(),
{
    if v.len() == 0 {
        lemma_occ_sum_empty(structures, structures.len() as int);
        assert(v =~= seq![]);
    } else {
        let w = v.drop_last();
        let x = v.last();
        assert forall|t: int| 0 <= t < w.len() implies listed(structures, #[trigger] w[t]) by {
            assert(w[t] == v[t]);
        }
        lemma_occ_sum_full(structures, w);
        assert(v =~= w.push(x));
        lemma_occ_sum_push(structures, w, x, structures.len() as int);
        assert(listed(structures, v[v.len() - 1]));
        let i = choose|i: int| 0 <= i < structures.len() && #[trigger] structures[i].path@ == x;
        lemma_hits_one(structures, x, i, structures.len() as int);
    }
}

proof fn lemma_fan_in_total_zero(structures: Seq<FileStructure>, k: int)
    ensures
        fan_in_total(structures, k, 0) == 0,
    decreases k,
{
    if k > 0 && k <= structures.len() {
        lemma_fan_in_total_zero(structures, k - 1);
    }
}

proof fn lemma_fan_in_total_step(structures: Seq<FileStructure>, k: int, m: int)
    requires
        0 < m <= structures.len(),
        0 <= k <= structures.len(),
    ensures
        fan_in_total(structures, k, m) == fan_in_total(structures, k, m - 1) + occ_sum(
            structures,
            edges_of(structures, structures[m - 1]),
            k,
        ),
    decreases k,
{
    if k > 0 {
        lemma_fan_in_total_step(structures, k - 1, m);
    }
}

proof fn lemma_fan_in_total(structures: Seq<FileStructure>, m: int)
    requires
        distinct_paths(structures),
        0 <= m <= structures.len(),
    ensures
        fan_in_total(structures, structures.len() as int, m) == edges_total(structures, m),
    decreases m,
{
    let n = structures.len() as int;
    if m == 0 {
        lemma_fan_in_total_zero(structures, n);
    } else {
        lemma_fan_in_total(structures, m - 1);
        lemma_fan_in_total_step(structures, n, m);
        let s = structures[m - 1];
        lemma_edges_listed(structures, s, all_uses(s).len() as int);
        lemma_occ_sum_full(structures, edges_of(structures, s));
    }
}

/// With distinct files, the last structure of a file is its only one.
proof fn lemma_last_with_path_own(structures: Seq<FileStructure>, j: int)
    requires
        distinct_paths(structures),
        0 <= j < structures.len(),
    ensures
        last_with_path(structures, structures[j].path@) == Some(j),
    decreases structures.len(),
{
    let n = structures.len() as int;
    if j < n - 1 {
        let init = structures.drop_last();
        assert(!same_path(structures[j].path@, structures[n - 1].path@));
        assert(structures.last() == structures[n - 1]);
        assert forall|a: int, b: int| 0 <= a < b < init.len() implies !same_path(
            #[trigger] init[a].path@,
            #[trigger] init[b].path@,
        ) by {
            assert(init[a] == structures[a] && init[b] == structures[b]);
        }
        assert(init[j] == structures[j]);
        lemma_last_with_path_own(init, j);
    }
}

proof fn lemma_fan_out_total(structures: Seq<FileStructure>, k: int)
    requires
        distinct_paths(structures),
        0 <= k <= structures.len(),
    ensures
        fan_out_total(structures, k) == edges_total(structures, k),
    decreases k,
{
    if k > 0 {
        lemma_fan_out_total(structures, k - 1);
        lemma_last_with_path_own(structures, k - 1);
    }
}

/// When no two structures are of the same file, every counted import has
/// one end at each side: the files' fan-ins add up to their fan-outs. A
/// file's fan-out is the number of its own counted imports, never more than
/// its `use` paths.
pub proof fn law_fan_in_and_fan_out_balance(structures: Seq<FileStructure>)
    requires
        distinct_paths(structures),
    ensures
        fan_in_sum(structures) == fan_out_sum(structures),
        forall|j: int|
            0 <= j < structures.len() ==> fan_out_spec(structures, (#[trigger] structures[j]).path@) == edges_of(
                structures,
                structures[j],
            ).len() && edges_of(structures, structures[j]).len() <= all_uses(structures[j]).len(),
{
    let n = structures.len() as int;
    lemma_fan_in_total(structures, n);
    lemma_fan_out_total(structures, n);
    assert forall|j: int| 0 <= j < n implies fan_out_spec(structures, (#[trigger] structures[j]).path@) == edges_of(
        structures,
        structures[j],
    ).len() && edges_of(structures, structures[j]).len() <= all_uses(structures[j]).len() by {
        lemma_last_with_path_own(structures, j);
        lemma_edges_upto_len(structures, structures[j], all_uses(structures[j]).len() as int);
    }
}
} // verus!
