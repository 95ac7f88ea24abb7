//! The source files of a workspace and the rules that pick them.
use vstd::prelude::*;
use crate::parsing::source_text::{count_lines, lines_of};
use crate::paths::{
    components, components_exec, file_name, file_name_exec, last_index_of, last_index_of_exec, lemma_comps_irreflexive,
    lemma_comps_total, lemma_comps_transitive, lemma_last_index_of, path_lt, path_lt_exec, same_path, same_path_exec,
    comps_lt,
};
use crate::text::{chars_of, ends_with, ends_with_exec, eq_str, slice_chars, string_of, vviews};

verus! {

/// One source file to analyze.
#[derive(Debug, Clone)]
pub struct RustFile {
    pub path: String,
    pub relative_path: String,
    pub package_name: String,
    pub size_bytes: u64,
    pub line_count: usize,
}

// ---------------------------------------------------------------------------
// Which files are taken
// ---------------------------------------------------------------------------

/// `Path::extension`: the text after the last `.` of the file name, unless
/// that `.` starts the name.
pub open spec fn extension(p: Seq<char>) -> Option<Seq<char>> {
    match file_name(p) {
        Some(n) => match last_index_of(n, '.') {
            Some(d) => if d == 0 {
                None
            } else {
                Some(n.skip(d + 1))
            },
            None => None,
        },
        None => None,
    }
}

/// The file name, empty when there is none.
pub open spec fn name_or_empty(p: Seq<char>) -> Seq<char> {
    match file_name(p) {
        Some(n) => n,
        None => seq![],
    }
}

/// A `.rs` file outside any `target` directory; unless tests are included,
/// not a `*_test.rs` or `tests.rs` file and not inside a `tests` directory.
pub open spec fn keep_path(p: Seq<char>, include_tests: bool) -> bool {
    &&& extension(p) == Some("rs"@)
    &&& !components(p).contains("target"@)
    &&& (include_tests || !(ends_with(name_or_empty(p), "_test.rs"@) || name_or_empty(p) == "tests.rs"@
        || components(p).contains("tests"@)))
}

fn holds_component(cs: &Vec<Vec<char>>, x: &str) -> (b: bool)
    ensures
        b == vviews(cs@).contains(x@),
{
    let mut i: usize = 0;
    while i < cs.len()
        invariant
            i <= cs.len(),
            forall|j: int| 0 <= j < i ==> vviews(cs@)[j] != x@,
        decreases cs.len() - i,
    {
        if eq_str(&cs[i], x) {
            assert(vviews(cs@)[i as int] == x@);
            return true;
        }
        i += 1;
    }
    false
}

/// Whether a walked path is taken for analysis.
pub fn keep_file(path: &str, include_tests: bool) -> (b: bool)
    ensures
        b == keep_path(path@, include_tests),
{
    let pv = chars_of(path);
    let name: Vec<char> = match file_name_exec(&pv) {
        Some(n) => n,
        None => Vec::new(),
    };
    assert(name@ == name_or_empty(path@));
    let ext_rs = match file_name_exec(&pv) {
        Some(n) => {
            proof {
                lemma_last_index_of(n@, '.');
            }
            match last_index_of_exec(&n, '.') {
                Some(d) => d > 0 && eq_str(&slice_chars(&n, d + 1, n.len()), "rs"),
                None => false,
            }
        },
        None => false,
    };
    if !ext_rs {
        return false;
    }
    let cs = components_exec(&pv);
    if holds_component(&cs, "target") {
        return false;
    }
    if !include_tests {
        if ends_with_exec(&name, &chars_of("_test.rs")) || eq_str(&name, "tests.rs") {
            return false;
        }
        if holds_component(&cs, "tests") {
            return false;
        }
    }
    true
}

// ---------------------------------------------------------------------------
// One file's record
// ---------------------------------------------------------------------------

/// What `Path::strip_prefix` gives for `path` and `base`: the path that,
/// joined onto `base`, yields `path`.
pub uninterp spec fn stripped(path: Seq<char>, base: Seq<char>) -> Seq<char>;

/// The components of `a` start the components of `b`.
pub open spec fn comps_prefix(a: Seq<Seq<char>>, b: Seq<Seq<char>>) -> bool {
    a.len() <= b.len() && b.take(a.len() as int) == a
}

/// `Path::strip_prefix`. As its documentation says, it fails exactly when
/// `base` is not a prefix of `path` component by component; the text of
/// the remainder is named, not described.
#[verifier::external_body]
fn strip_prefix(path: &str, base: &str) -> (r: Option<String>)
    ensures
        r is Some <==> comps_prefix(components(base@), components(path@)),
        r matches Some(x) ==> x@ == stripped(path@, base@),
{
    std::path::Path::new(path).strip_prefix(base).ok().map(|p| p.to_string_lossy().into_owned())
}

/// The path shown for a file: relative to the workspace root when it lies
/// inside it, else the path itself.
pub open spec fn shown_path(path: Seq<char>, root: Seq<char>) -> Seq<char> {
    if comps_prefix(components(root), components(path)) {
        stripped(path, root)
    } else {
        path
    }
}

/// The record of one walked file, given what `Path::strip_prefix` gave for
/// it and the workspace root (`None` when the file lies outside the root).
pub fn file_record(path: String, relative: Option<String>, package_name: &str, size_bytes: u64, content: &str) -> (f:
    RustFile)
    ensures
        f.path == path,
        f.relative_path@ == (match relative {
            Some(r) => r@,
            None => path@,
        }),
        f.package_name@ == package_name@,
        f.size_bytes == size_bytes,
        f.line_count == lines_of(content@).len(),
{
    let relative_path = match relative {
        Some(r) => r,
        None => path.clone(),
    };
    RustFile {
        path,
        relative_path,
        package_name: string_of(&chars_of(package_name)),
        size_bytes,
        line_count: count_lines(content),
    }
}

/// The record of one walked file: its path, its path relative to the
/// workspace root, its package, its size and its number of lines.
pub fn rust_file(path: String, workspace_root: &str, package_name: &str, size_bytes: u64, content: &str) -> (f: RustFile)
    ensures
        f.path == path,
        f.relative_path@ == shown_path(path@, workspace_root@),
        f.package_name@ == package_name@,
        f.size_bytes == size_bytes,
        f.line_count == lines_of(content@).len(),
{
    let relative = strip_prefix(path.as_str(), workspace_root);
    file_record(path, relative, package_name, size_bytes, content)
}

// ---------------------------------------------------------------------------
// All files, by path
// ---------------------------------------------------------------------------

/// The files come in `Path` order, no path twice.
pub open spec fn sorted_by_path(r: Seq<RustFile>) -> bool {
    forall|i: int, j: int| 0 <= i < j < r.len() ==> path_lt(#[trigger] r[i].path@, #[trigger] r[j].path@)
}

/// `files[i]` is the first file with its path.
pub open spec fn first_of_path(files: Seq<RustFile>, i: int) -> bool {
    forall|j: int| 0 <= j < i ==> !same_path(#[trigger] files[j].path@, files[i].path@)
}

/// `f` is the first file of `files` with its path.
pub open spec fn first_found(files: Seq<RustFile>, f: RustFile) -> bool {
    exists|i: int| 0 <= i < files.len() && f == #[trigger] files[i] && first_of_path(files, i)
}

/// Some file of `r` has the path `p`.
pub open spec fn path_listed(r: Seq<RustFile>, p: Seq<char>) -> bool {
    exists|k: int| 0 <= k < r.len() && same_path(#[trigger] r[k].path@, p)
}

/// `r` holds, in `Path` order, the first file of each distinct path of `files`.
pub open spec fn by_path(files: Seq<RustFile>, r: Seq<RustFile>) -> bool {
    &&& sorted_by_path(r)
    &&& forall|k: int| 0 <= k < r.len() ==> first_found(files, #[trigger] r[k])
    &&& forall|i: int| 0 <= i < files.len() ==> path_listed(r, #[trigger] files[i].path@)
}

/// Keeping `out` when a file with `f`'s path is already in it.
proof fn lemma_keep(pre: Seq<RustFile>, out: Seq<RustFile>, f: RustFile, p: int)
    requires
        by_path(pre, out),
        0 <= p < out.len(),
        same_path(out[p].path@, f.path@),
    ensures
        by_path(pre.push(f), out),
{
    let cur = pre.push(f);
    assert forall|k2: int| 0 <= k2 < out.len() implies first_found(cur, #[trigger] out[k2]) by {
        assert(first_found(pre, out[k2]));
        let i = choose|i: int| 0 <= i < pre.len() && out[k2] == #[trigger] pre[i] && first_of_path(pre, i);
        assert(cur[i] == pre[i]);
        assert forall|j: int| 0 <= j < i implies !same_path(#[trigger] cur[j].path@, cur[i].path@) by {
            assert(cur[j] == pre[j]);
        }
    }
    assert forall|i: int| 0 <= i < cur.len() implies path_listed(out, #[trigger] cur[i].path@) by {
        if i < pre.len() {
            assert(cur[i] == pre[i]);
            assert(path_listed(out, pre[i].path@));
        } else {
            assert(same_path(out[p].path@, cur[i].path@));
        }
    }
}

/// A path placed before `out[p]` and after everything before it is not in `out`.
proof fn lemma_new_path(pre: Seq<RustFile>, out: Seq<RustFile>, f: RustFile, p: int)
    requires
        by_path(pre, out),
        0 <= p <= out.len(),
        forall|j: int| 0 <= j < p ==> path_lt(#[trigger] out[j].path@, f.path@),
        p < out.len() ==> path_lt(f.path@, out[p].path@),
    ensures
        forall|j: int| 0 <= j < pre.len() ==> !same_path(#[trigger] pre[j].path@, f.path@),
{
    assert forall|j: int| 0 <= j < pre.len() implies !same_path(#[trigger] pre[j].path@, f.path@) by {
        assert(path_listed(out, pre[j].path@));
        let k2 = choose|k2: int| 0 <= k2 < out.len() && same_path(#[trigger] out[k2].path@, pre[j].path@);
        lemma_comps_irreflexive(components(f.path@));
        if k2 > p {
            assert(path_lt(out[p].path@, out[k2].path@));
            lemma_comps_transitive(components(f.path@), components(out[p].path@), components(out[k2].path@));
        }
    }
}

/// Inserting `f` at `p` keeps the order and records it as the first of its path.
proof fn lemma_insert(pre: Seq<RustFile>, out: Seq<RustFile>, f: RustFile, p: int)
    requires
        by_path(pre, out),
        0 <= p <= out.len(),
        forall|j: int| 0 <= j < p ==> path_lt(#[trigger] out[j].path@, f.path@),
        p < out.len() ==> path_lt(f.path@, out[p].path@),
    ensures
        by_path(pre.push(f), out.insert(p, f)),
{
    lemma_new_path(pre, out, f, p);
    lemma_insert_sorted(out, f, p);
    lemma_insert_first(pre, out, f, p);
    lemma_insert_listed(pre, out, f, p);
}

proof fn lemma_insert_sorted(out: Seq<RustFile>, f: RustFile, p: int)
    requires
        sorted_by_path(out),
        0 <= p <= out.len(),
        forall|j: int| 0 <= j < p ==> path_lt(#[trigger] out[j].path@, f.path@),
        p < out.len() ==> path_lt(f.path@, out[p].path@),
    ensures
        sorted_by_path(out.insert(p, f)),
{
    let nv = out.insert(p, f);
    assert forall|i: int, j: int| 0 <= i < j < nv.len() implies path_lt(#[trigger] nv[i].path@, #[trigger] nv[j].path@) by {
        if j < p {
            assert(nv[i] == out[i] && nv[j] == out[j]);
        } else if j == p {
            assert(nv[i] == out[i]);
        } else if i < p {
            assert(nv[i] == out[i] && nv[j] == out[j - 1]);
            if j - 1 > p {
                assert(path_lt(out[p].path@, out[j - 1].path@));
                lemma_comps_transitive(components(f.path@), components(out[p].path@), components(out[j - 1].path@));
            }
            lemma_comps_transitive(components(out[i].path@), components(f.path@), components(out[j - 1].path@));
        } else if i == p {
            assert(nv[j] == out[j - 1]);
            if j - 1 > p {
                assert(path_lt(out[p].path@, out[j - 1].path@));
                lemma_comps_transitive(components(f.path@), components(out[p].path@), components(out[j - 1].path@));
            }
        } else {
            assert(nv[i] == out[i - 1] && nv[j] == out[j - 1]);
        }
    }
}

proof fn lemma_insert_first(pre: Seq<RustFile>, out: Seq<RustFile>, f: RustFile, p: int)
    requires
        forall|k: int| 0 <= k < out.len() ==> first_found(pre, #[trigger] out[k]),
        0 <= p <= out.len(),
        forall|j: int| 0 <= j < pre.len() ==> !same_path(#[trigger] pre[j].path@, f.path@),
    ensures
        forall|k: int| 0 <= k < out.insert(p, f).len() ==> first_found(pre.push(f), #[trigger] out.insert(p, f)[k]),
{
    let cur = pre.push(f);
    let nv = out.insert(p, f);
    assert forall|k2: int| 0 <= k2 < nv.len() implies first_found(cur, #[trigger] nv[k2]) by {
        if k2 == p {
            assert(nv[k2] == cur[pre.len() as int]);
            assert forall|j: int| 0 <= j < pre.len() implies !same_path(#[trigger] cur[j].path@, cur[pre.len() as int].path@) by {
                assert(cur[j] == pre[j]);
            }
        } else {
            let k3 = if k2 < p {
                k2
            } else {
                k2 - 1
            };
            assert(nv[k2] == out[k3]);
            assert(first_found(pre, out[k3]));
            let i = choose|i: int| 0 <= i < pre.len() && out[k3] == #[trigger] pre[i] && first_of_path(pre, i);
            assert(cur[i] == pre[i]);
            assert forall|j: int| 0 <= j < i implies !same_path(#[trigger] cur[j].path@, cur[i].path@) by {
                assert(cur[j] == pre[j]);
            }
        }
    }
}

proof fn lemma_insert_listed(pre: Seq<RustFile>, out: Seq<RustFile>, f: RustFile, p: int)
    requires
        forall|i: int| 0 <= i < pre.len() ==> path_listed(out, #[trigger] pre[i].path@),
        0 <= p <= out.len(),
    ensures
        forall|i: int| 0 <= i < pre.push(f).len() ==> path_listed(out.insert(p, f), #[trigger] pre.push(f)[i].path@),
{
    let cur = pre.push(f);
    let nv = out.insert(p, f);
    assert forall|i: int| 0 <= i < cur.len() implies path_listed(nv, #[trigger] cur[i].path@) by {
        if i < pre.len() {
            assert(cur[i] == pre[i]);
            assert(path_listed(out, pre[i].path@));
            let k3 = choose|k3: int| 0 <= k3 < out.len() && same_path(#[trigger] out[k3].path@, pre[i].path@);
            if k3 < p {
                assert(nv[k3] == out[k3]);
            } else {
                assert(nv[k3 + 1] == out[k3]);
            }
        } else {
            assert(nv[p] == cur[i]);
        }
    }
}

/// Adds a found file to the files kept so far, unless its path is there.
fn insert_by_path(out: &mut Vec<RustFile>, f: RustFile, Ghost(pre): Ghost<Seq<RustFile>>)
    requires
        by_path(pre, old(out)@),
    ensures
        by_path(pre.push(f), final(out)@),
{
    let ghost old_out = out@;
    let mut p: usize = 0;
    while p < out.len() && path_lt_exec(out[p].path.as_str(), f.path.as_str())
        invariant
            p <= out.len(),
            out@ == old_out,
            forall|j: int| 0 <= j < p ==> path_lt(#[trigger] out@[j].path@, f.path@),
        decreases out.len() - p,
    {
        p += 1;
    }
    if p < out.len() && same_path_exec(out[p].path.as_str(), f.path.as_str()) {
        proof {
            lemma_keep(pre, old_out, f, p as int);
        }
        return;
    }
    proof {
        if p < out.len() {
            lemma_comps_total(components(out@[p as int].path@), components(f.path@));
        }
        lemma_insert(pre, old_out, f, p as int);
    }
    out.insert(p, f);
}

/// All found files sorted by path, each path once (the first file found
/// with it is kept), as a stable sort followed by removing repeats gives.
pub fn enumerate_rust_files(files: Vec<RustFile>) -> (r: Vec<RustFile>)
    ensures
        by_path(files@, r@),
{
    let ghost input = files@;
    let n = files.len();
    let mut rest = files;
    let mut out: Vec<RustFile> = Vec::new();
    let mut k: usize = 0;
    assert(input.take(0) =~= Seq::<RustFile>::empty());
    while rest.len() > 0
        invariant
            k + rest.len() == input.len(),
            input.len() == n,
            rest@ == input.skip(k as int),
            by_path(input.take(k as int), out@),
        decreases rest.len(),
    {
        assert(rest@[0] == input[k as int]);
        let f = rest.remove(0);
        assert(rest@ =~= input.skip(k + 1));
        assert(input.take(k + 1) =~= input.take(k as int).push(f));
        insert_by_path(&mut out, f, Ghost(input.take(k as int)));
        k += 1;
    }
    assert(input.take(k as int) =~= input);
    out
}

} // verus!
