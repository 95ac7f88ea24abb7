//! The packages of a workspace and their source roots, from what Cargo's
//! metadata says of them, or from the directory alone when there is none.
use vstd::prelude::*;
use crate::paths::{
    components, comps_lt, lemma_comps_irreflexive, lemma_comps_total, lemma_comps_transitive, path_lt, path_lt_exec,
    same_path, same_path_exec,
};
use crate::text::{chars_of, push_str, push_vec, string_of, sviews};

verus! {

/// One package: its name, its manifest and the directories its targets'
/// sources live in.
#[derive(Debug, Clone)]
pub struct PackageInfo {
    pub name: String,
    pub manifest_path: String,
    /// Source roots for this package, derived from Cargo target src paths.
    pub source_roots: Vec<String>,
}

/// The workspace: its root directory and its packages.
#[derive(Debug, Clone)]
pub struct WorkspaceInfo {
    pub root: String,
    pub packages: Vec<PackageInfo>,
    pub is_workspace: bool,
}

// ---------------------------------------------------------------------------
// Path operations
// ---------------------------------------------------------------------------

/// `dir.join(name)` for a relative `name`: a `/` between them unless `dir`
/// is empty or already ends with one.
pub open spec fn join_path(dir: Seq<char>, name: Seq<char>) -> Seq<char> {
    if dir.len() == 0 || dir.last() == '/' {
        dir + name
    } else {
        dir + "/"@ + name
    }
}

/// `dir.join(name)` for a relative `name`, computed.
pub fn join_path_exec(dir: &str, name: &str) -> (r: String)
    requires
        name@.len() == 0 || name@[0] != '/',
    ensures
        r@ == join_path(dir@, name@),
{
    let d = chars_of(dir);
    let mut v = chars_of(dir);
    if d.len() > 0 && d[d.len() - 1] != '/' {
        push_str(&mut v, "/");
    }
    push_str(&mut v, name);
    string_of(&v)
}

/// What `Path::parent` gives for `p`.
pub uninterp spec fn parent_path(p: Seq<char>) -> Option<Seq<char>>;

/// `Path::parent`: the path without its final component. As its
/// documentation says, there is none exactly when the path ends in a root
/// or is empty; the text of the parent is named, not described.
#[verifier::external_body]
fn parent_of(p: &str) -> (r: Option<String>)
    ensures
        r matches Some(x) ==> parent_path(p@) == Some(x@),
        r is None ==> parent_path(p@) is None,
        r is None <==> (components(p@).len() == 0 || components(p@).last() == "/"@),
{
    std::path::Path::new(p).parent().map(|q| q.to_string_lossy().into_owned())
}

// ---------------------------------------------------------------------------
// Sorting paths
// ---------------------------------------------------------------------------

/// `r` holds, in `Path` order, the first of each distinct path of `paths`
/// (what a stable sort followed by removing repeats gives).
pub open spec fn paths_by_order(paths: Seq<Seq<char>>, r: Seq<Seq<char>>) -> bool {
    &&& forall|i: int, j: int| 0 <= i < j < r.len() ==> path_lt(#[trigger] r[i], #[trigger] r[j])
    &&& forall|k: int| 0 <= k < r.len() ==> first_path(paths, #[trigger] r[k])
    &&& forall|i: int| 0 <= i < paths.len() ==> listed_path(r, #[trigger] paths[i])
}

/// `p` is in `paths`, and no earlier element is the same path.
pub open spec fn first_path(paths: Seq<Seq<char>>, p: Seq<char>) -> bool {
    exists|i: int|
        0 <= i < paths.len() && p == #[trigger] paths[i] && forall|j: int|
            0 <= j < i ==> !same_path(#[trigger] paths[j], paths[i])
}

/// Some element of `r` is the same path as `p`.
pub open spec fn listed_path(r: Seq<Seq<char>>, p: Seq<char>) -> bool {
    exists|k: int| 0 <= k < r.len() && same_path(#[trigger] r[k], p)
}

proof fn lemma_keep(pre: Seq<Seq<char>>, out: Seq<Seq<char>>, f: Seq<char>, p: int)
    requires
        paths_by_order(pre, out),
        0 <= p < out.len(),
        same_path(out[p], f),
    ensures
        paths_by_order(pre.push(f), out),
{
    let cur = pre.push(f);
    assert forall|k2: int| 0 <= k2 < out.len() implies first_path(cur, #[trigger] out[k2]) by {
        assert(first_path(pre, out[k2]));
        let i = choose|i: int|
            0 <= i < pre.len() && out[k2] == #[trigger] pre[i] && forall|j: int|
                0 <= j < i ==> !same_path(#[trigger] pre[j], pre[i]);
        assert(cur[i] == pre[i]);
        assert forall|j: int| 0 <= j < i implies !same_path(#[trigger] cur[j], cur[i]) by {
            assert(cur[j] == pre[j]);
        }
    }
    assert forall|i: int| 0 <= i < cur.len() implies listed_path(out, #[trigger] cur[i]) by {
        if i < pre.len() {
            assert(cur[i] == pre[i]);
            assert(listed_path(out, pre[i]));
        } else {
            assert(same_path(out[p], cur[i]));
        }
    }
}

proof fn lemma_insert(pre: Seq<Seq<char>>, out: Seq<Seq<char>>, f: Seq<char>, p: int)
    requires
        paths_by_order(pre, out),
        0 <= p <= out.len(),
        forall|j: int| 0 <= j < p ==> path_lt(#[trigger] out[j], f),
        p < out.len() ==> path_lt(f, out[p]),
    ensures
        paths_by_order(pre.push(f), out.insert(p, f)),
{
    lemma_new(pre, out, f, p);
    lemma_insert_sorted(out, f, p);
    lemma_insert_first(pre, out, f, p);
    lemma_insert_listed(pre, out, f, p);
}

proof fn lemma_new(pre: Seq<Seq<char>>, out: Seq<Seq<char>>, f: Seq<char>, p: int)
    requires
        paths_by_order(pre, out),
        0 <= p <= out.len(),
        forall|j: int| 0 <= j < p ==> path_lt(#[trigger] out[j], f),
        p < out.len() ==> path_lt(f, out[p]),
    ensures
        forall|j: int| 0 <= j < pre.len() ==> !same_path(#[trigger] pre[j], f),
{
    assert forall|j: int| 0 <= j < pre.len() implies !same_path(#[trigger] pre[j], f) by {
        assert(listed_path(out, pre[j]));
        let k2 = choose|k2: int| 0 <= k2 < out.len() && same_path(#[trigger] out[k2], pre[j]);
        lemma_comps_irreflexive(components(f));
        if k2 > p {
            assert(path_lt(out[p], out[k2]));
            lemma_comps_transitive(components(f), components(out[p]), components(out[k2]));
        }
    }
}

proof fn lemma_insert_sorted(out: Seq<Seq<char>>, f: Seq<char>, p: int)
    requires
        forall|i: int, j: int| 0 <= i < j < out.len() ==> path_lt(#[trigger] out[i], #[trigger] out[j]),
        0 <= p <= out.len(),
        forall|j: int| 0 <= j < p ==> path_lt(#[trigger] out[j], f),
        p < out.len() ==> path_lt(f, out[p]),
    ensures
        forall|i: int, j: int|
            0 <= i < j < out.insert(p, f).len() ==> path_lt(#[trigger] out.insert(p, f)[i], #[trigger] out.insert(p, f)[j]),
{
    let nv = out.insert(p, f);
    assert forall|i: int, j: int| 0 <= i < j < nv.len() implies path_lt(#[trigger] nv[i], #[trigger] nv[j]) by {
        if j < p {
            assert(nv[i] == out[i] && nv[j] == out[j]);
        } else if j == p {
            assert(nv[i] == out[i]);
        } else if i < p {
            assert(nv[i] == out[i] && nv[j] == out[j - 1]);
            if j - 1 > p {
                assert(path_lt(out[p], out[j - 1]));
                lemma_comps_transitive(components(f), components(out[p]), components(out[j - 1]));
            }
            lemma_comps_transitive(components(out[i]), components(f), components(out[j - 1]));
        } else if i == p {
            assert(nv[j] == out[j - 1]);
            if j - 1 > p {
                assert(path_lt(out[p], out[j - 1]));
                lemma_comps_transitive(components(f), components(out[p]), components(out[j - 1]));
            }
        } else {
            assert(nv[i] == out[i - 1] && nv[j] == out[j - 1]);
        }
    }
}

proof fn lemma_insert_first(pre: Seq<Seq<char>>, out: Seq<Seq<char>>, f: Seq<char>, p: int)
    requires
        forall|k: int| 0 <= k < out.len() ==> first_path(pre, #[trigger] out[k]),
        0 <= p <= out.len(),
        forall|j: int| 0 <= j < pre.len() ==> !same_path(#[trigger] pre[j], f),
    ensures
        forall|k: int| 0 <= k < out.insert(p, f).len() ==> first_path(pre.push(f), #[trigger] out.insert(p, f)[k]),
{
    let cur = pre.push(f);
    let nv = out.insert(p, f);
    assert forall|k2: int| 0 <= k2 < nv.len() implies first_path(cur, #[trigger] nv[k2]) by {
        if k2 == p {
            assert(nv[k2] == cur[pre.len() as int]);
            assert forall|j: int| 0 <= j < pre.len() implies !same_path(#[trigger] cur[j], cur[pre.len() as int]) by {
                assert(cur[j] == pre[j]);
            }
        } else {
            let k3 = if k2 < p {
                k2
            } else {
                k2 - 1
            };
            assert(nv[k2] == out[k3]);
            assert(first_path(pre, out[k3]));
            let i = choose|i: int|
                0 <= i < pre.len() && out[k3] == #[trigger] pre[i] && forall|j: int|
                    0 <= j < i ==> !same_path(#[trigger] pre[j], pre[i]);
            assert(cur[i] == pre[i]);
            assert forall|j: int| 0 <= j < i implies !same_path(#[trigger] cur[j], cur[i]) by {
                assert(cur[j] == pre[j]);
            }
        }
    }
}

proof fn lemma_insert_listed(pre: Seq<Seq<char>>, out: Seq<Seq<char>>, f: Seq<char>, p: int)
    requires
        forall|i: int| 0 <= i < pre.len() ==> listed_path(out, #[trigger] pre[i]),
        0 <= p <= out.len(),
    ensures
        forall|i: int| 0 <= i < pre.push(f).len() ==> listed_path(out.insert(p, f), #[trigger] pre.push(f)[i]),
{
    let cur = pre.push(f);
    let nv = out.insert(p, f);
    assert forall|i: int| 0 <= i < cur.len() implies listed_path(nv, #[trigger] cur[i]) by {
        if i < pre.len() {
            assert(cur[i] == pre[i]);
            assert(listed_path(out, pre[i]));
            let k3 = choose|k3: int| 0 <= k3 < out.len() && same_path(#[trigger] out[k3], pre[i]);
            if k3 < p {
                assert(nv[k3] == out[k3]);
            } else {
                assert(nv[k3 + 1] == out[k3]);
            }
        } else {
            assert(nv[p] == cur[i]);
        }
    }
}

/// Adds a path to the paths kept so far, unless the same path is there.
fn insert_path(out: &mut Vec<String>, f: String, Ghost(pre): Ghost<Seq<Seq<char>>>)
    requires
        paths_by_order(pre, sviews(old(out)@)),
    ensures
        paths_by_order(pre.push(f@), sviews(final(out)@)),
{
    let ghost old_out = sviews(out@);
    let mut p: usize = 0;
    while p < out.len() && path_lt_exec(out[p].as_str(), f.as_str())
        invariant
            p <= out.len(),
            sviews(out@) == old_out,
            forall|j: int| 0 <= j < p ==> path_lt(#[trigger] old_out[j], f@),
        decreases out.len() - p,
    {
        assert(old_out[p as int] == out@[p as int]@);
        p += 1;
    }
    if p < out.len() && same_path_exec(out[p].as_str(), f.as_str()) {
        proof {
            assert(old_out[p as int] == out@[p as int]@);
            lemma_keep(pre, old_out, f@, p as int);
        }
        return;
    }
    proof {
        if p < out.len() {
            assert(old_out[p as int] == out@[p as int]@);
            lemma_comps_total(components(old_out[p as int]), components(f@));
        }
        lemma_insert(pre, old_out, f@, p as int);
    }
    let ghost fv = f@;
    out.insert(p, f);
    assert(sviews(out@) =~= old_out.insert(p as int, fv));
}

/// Paths sorted in `Path` order, each path once (the first kept).
pub fn sort_paths(paths: Vec<String>) -> (r: Vec<String>)
    ensures
        paths_by_order(sviews(paths@), sviews(r@)),
{
    let ghost input = sviews(paths@);
    let ghost all = paths@;
    let n = paths.len();
    let mut rest = paths;
    let mut out: Vec<String> = Vec::new();
    let mut k: usize = 0;
    assert(input.take(0) =~= Seq::<Seq<char>>::empty());
    assert(sviews(out@) =~= Seq::<Seq<char>>::empty());
    while rest.len() > 0
        invariant
            k + rest.len() == all.len(),
            all.len() == n,
            input == sviews(all),
            rest@ == all.skip(k as int),
            paths_by_order(input.take(k as int), sviews(out@)),
        decreases rest.len(),
    {
        assert(rest@[0] == all[k as int]);
        let f = rest.remove(0);
        assert(rest@ =~= all.skip(k + 1));
        assert(input.take(k + 1) =~= input.take(k as int).push(f@));
        insert_path(&mut out, f, Ghost(input.take(k as int)));
        k += 1;
    }
    assert(input.take(k as int) =~= input);
    out
}

// ---------------------------------------------------------------------------
// Packages and the workspace
// ---------------------------------------------------------------------------

/// The paths that are there, in order.
pub open spec fn present(ps: Seq<Option<String>>) -> Seq<Seq<char>>
    decreases ps.len(),
{
    if ps.len() == 0 {
        seq![]
    } else {
        match ps.last() {
            Some(x) => present(ps.drop_last()).push(x@),
            None => present(ps.drop_last()),
        }
    }
}

/// The parents (as `Path::parent` gives them) of the paths that have one, in order.
pub open spec fn parents(ps: Seq<Seq<char>>) -> Seq<Seq<char>>
    decreases ps.len(),
{
    if ps.len() == 0 {
        seq![]
    } else {
        match parent_path(ps.last()) {
            Some(x) => parents(ps.drop_last()).push(x),
            None => parents(ps.drop_last()),
        }
    }
}

/// The source roots of a package: the directories of its targets' source
/// files in `Path` order, each once; `dir/src` when there are none.
pub open spec fn roots_ok(dirs: Seq<Seq<char>>, manifest_dir: Seq<char>, roots: Seq<Seq<char>>) -> bool {
    if dirs.len() == 0 {
        roots == seq![join_path(manifest_dir, "src"@)]
    } else {
        paths_by_order(dirs, roots)
    }
}

/// A package from its name, its manifest, the manifest's directory (none
/// when it has no parent, and then the workspace root is used) and the
/// directories of its targets' source files.
pub fn package_info_from(
    name: String,
    manifest_path: String,
    manifest_dir: Option<String>,
    src_dirs: Vec<Option<String>>,
    workspace_root: &str,
) -> (p: PackageInfo)
    ensures
        p.name == name,
        p.manifest_path == manifest_path,
        roots_ok(
            present(src_dirs@),
            match manifest_dir {
                Some(d) => d@,
                None => workspace_root@,
            },
            sviews(p.source_roots@),
        ),
{
    let dir: String = match manifest_dir {
        Some(d) => d,
        None => string_of(&chars_of(workspace_root)),
    };
    let mut dirs: Vec<String> = Vec::new();
    let ghost all = src_dirs@;
    let n = src_dirs.len();
    let mut i: usize = 0;
    let mut rest = src_dirs;
    assert(all.take(0) =~= Seq::<Option<String>>::empty());
    assert(sviews(dirs@) =~= present(all.take(0)));
    while rest.len() > 0
        invariant
            i + rest.len() == all.len(),
            all.len() == n,
            rest@ == all.skip(i as int),
            sviews(dirs@) == present(all.take(i as int)),
        decreases rest.len(),
    {
        assert(rest@[0] == all[i as int]);
        let d = rest.remove(0);
        assert(rest@ =~= all.skip(i + 1));
        let ghost t = all.take(i + 1);
        assert(t.drop_last() =~= all.take(i as int));
        assert(t.last() == all[i as int]);
        match d {
            Some(x) => {
                let ghost before = sviews(dirs@);
                dirs.push(x);
                assert(sviews(dirs@) =~= before.push(dirs@.last()@));
            },
            None => {},
        }
        i += 1;
    }
    assert(all.take(i as int) =~= all);
    let source_roots = if dirs.len() == 0 {
        let mut v: Vec<String> = Vec::new();
        proof {
            reveal_strlit("src");
        }
        v.push(join_path_exec(dir.as_str(), "src"));
        assert(sviews(v@) =~= seq![join_path(dir@, "src"@)]);
        v
    } else {
        sort_paths(dirs)
    };
    PackageInfo { name, manifest_path, source_roots }
}

/// A package from its name, its manifest and its targets' source files.
pub fn package_info(name: String, manifest_path: String, target_src_paths: &Vec<String>, workspace_root: &str) -> (p:
    PackageInfo)
    ensures
        p.name == name,
        p.manifest_path == manifest_path,
        roots_ok(
            parents(sviews(target_src_paths@)),
            match parent_path(manifest_path@) {
                Some(d) => d,
                None => workspace_root@,
            },
            sviews(p.source_roots@),
        ),
{
    let manifest_dir = parent_of(manifest_path.as_str());
    let mut dirs: Vec<Option<String>> = Vec::new();
    let ghost tv = sviews(target_src_paths@);
    let mut i: usize = 0;
    while i < target_src_paths.len()
        invariant
            i <= target_src_paths.len(),
            tv == sviews(target_src_paths@),
            present(dirs@) == parents(tv.take(i as int)),
        decreases target_src_paths.len() - i,
    {
        let ghost t = tv.take(i + 1);
        assert(t.drop_last() =~= tv.take(i as int));
        assert(t.last() == target_src_paths@[i as int]@);
        let ghost before = dirs@;
        let d = parent_of(target_src_paths[i].as_str());
        dirs.push(d);
        assert(dirs@.drop_last() =~= before);
        i += 1;
    }
    assert(tv.take(i as int) =~= tv);
    package_info_from(name, manifest_path, manifest_dir, dirs, workspace_root)
}

/// The workspace of the given packages; a workspace proper when it has
/// more than one.
pub fn workspace_info(root: String, packages: Vec<PackageInfo>) -> (w: WorkspaceInfo)
    ensures
        w.root == root,
        w.packages@ == packages@,
        w.is_workspace == (packages@.len() > 1),
{
    let is_workspace = packages.len() > 1;
    WorkspaceInfo { root, packages, is_workspace }
}

/// A directory that is not a Cargo workspace, taken as one package named
/// `unknown` whose source root is its `src` directory when there is one,
/// else the directory itself.
pub fn fallback_workspace(canonical: String, src_exists: bool) -> (w: WorkspaceInfo)
    ensures
        w.root == canonical,
        !w.is_workspace,
        w.packages@.len() == 1,
        w.packages@[0].name@ == "unknown"@,
        w.packages@[0].manifest_path@ == join_path(canonical@, "Cargo.toml"@),
        sviews(w.packages@[0].source_roots@) == seq![
            if src_exists {
                join_path(canonical@, "src"@)
            } else {
                canonical@
            },
        ],
{
    proof {
        reveal_strlit("src");
        reveal_strlit("Cargo.toml");
    }
    let root_dir = if src_exists {
        join_path_exec(canonical.as_str(), "src")
    } else {
        canonical.clone()
    };
    let mut roots: Vec<String> = Vec::new();
    roots.push(root_dir);
    let manifest_path = join_path_exec(canonical.as_str(), "Cargo.toml");
    let mut packages: Vec<PackageInfo> = Vec::new();
    packages.push(PackageInfo { name: string_of(&chars_of("unknown")), manifest_path, source_roots: roots });
    assert(sviews(packages@[0].source_roots@) =~= seq![
        if src_exists {
            join_path(canonical@, "src"@)
        } else {
            canonical@
        },
    ]);
    WorkspaceInfo { root: canonical, packages, is_workspace: false }
}

} // verus!
