//! Module paths for files laid out with `src/` as the first component of their
//! path relative to the package root (the workspace-level layout).
use vstd::prelude::*;
use crate::parsing::extractor::drop_mod;
use crate::paths::{file_name, file_name_exec, kept_of, kept_of_exec, last_index_of, last_index_of_exec, normal_of, normal_of_exec, pieces, pieces_exec};
use crate::text::{chars_of, eq_str, join, join_exec, slice_chars, string_of, vviews};

verus! {

/// `Path::file_stem` of a normal component: the text before its last `.`,
/// unless that `.` is the first character (or there is none).
pub open spec fn stem_of(name: Seq<char>) -> Seq<char> {
    match last_index_of(name, '.') {
        Some(d) => if d == 0 {
            name
        } else {
            name.subrange(0, d)
        },
        None => name,
    }
}

/// `Path::file_stem` of a path: the stem of its file name, empty when it has none.
pub open spec fn file_stem(path: Seq<char>) -> Seq<char> {
    match file_name(path) {
        Some(n) => stem_of(n),
        None => Seq::empty(),
    }
}

/// The stem of a file name, computed.
pub fn stem_of_exec(name: &Vec<char>) -> (r: Vec<char>)
    ensures
        r@ == stem_of(name@),
{
    proof {
        crate::paths::lemma_last_index_of(name@, '.');
    }
    match last_index_of_exec(name, '.') {
        Some(d) => if d == 0 {
            name.clone()
        } else {
            slice_chars(name, 0, d)
        },
        None => name.clone(),
    }
}

/// `Path::file_stem` of a path, computed.
pub fn file_stem_exec(path: &Vec<char>) -> (r: Vec<char>)
    ensures
        r@ == file_stem(path@),
{
    match file_name_exec(path) {
        Some(n) => stem_of_exec(&n),
        None => Vec::new(),
    }
}

/// The pieces left after a leading `src` component.
pub open spec fn without_leading_src(ps: Seq<Seq<char>>) -> Seq<Seq<char>> {
    if ps.len() > 0 && ps[0] == "src"@ {
        ps.drop_first()
    } else {
        ps
    }
}

/// Normal components after `Path::with_extension("")`: the last component, when
/// it is a normal one, is cut down to its stem.
pub open spec fn without_extension(ps: Seq<Seq<char>>) -> Seq<Seq<char>> {
    let k = kept_of(ps);
    if k.len() > 0 && k.last() != ".."@ {
        normal_of(k.drop_last().push(stem_of(k.last())))
    } else {
        normal_of(ps)
    }
}

/// The unqualified module path of a file whose relative path may start with
/// `src`: that leading component dropped, the extension dropped, a trailing
/// `mod` dropped, the rest joined by `::`.
pub open spec fn root_module_path_of(rel: Seq<char>) -> Seq<char> {
    join(drop_mod(without_extension(without_leading_src(pieces(rel)))), "::"@)
}

/// Compute the unqualified Rust module path from a path relative to the workspace root.
///
/// src/foo/bar.rs  → "foo::bar"
/// src/foo/mod.rs  → "foo"
/// src/lib.rs      → "lib"
/// foo/bar.rs      → "foo::bar"  (no src/ prefix)
pub fn module_path_from_relative(rel: &str) -> (r: String)
    ensures
        r@ == root_module_path_of(rel@),
{
    let rv = chars_of(rel);
    let ps = pieces_exec(&rv);
    let ghost pv = vviews(ps@);
    let mut rest: Vec<Vec<char>> = Vec::new();
    let start: usize = if ps.len() > 0 && eq_str(&ps[0], "src") {
        1
    } else {
        0
    };
    let mut i = start;
    while i < ps.len()
        invariant
            start <= i <= ps.len(),
            start <= 1,
            pv == vviews(ps@),
            vviews(rest@) == pv.subrange(start as int, i as int),
        decreases ps.len() - i,
    {
        let ghost before = rest@;
        let item = ps[i].clone();
        assert(item@ == pv[i as int]);
        rest.push(item);
        assert(vviews(rest@) =~= vviews(before).push(pv[i as int]));
        assert(vviews(rest@) =~= pv.subrange(start as int, i + 1));
        i += 1;
    }
    assert(vviews(rest@) =~= without_leading_src(pv)) by {
        if start == 1 {
            assert(pv[0] == ps@[0]@);
        } else if ps.len() > 0 {
            assert(pv[0] == ps@[0]@);
        }
    }
    let ghost rv2 = vviews(rest@);
    let mut kept = kept_of_exec(&rest);
    let ghost kv = vviews(kept@);
    let parts = if kept.len() > 0 && !eq_str(&kept[kept.len() - 1], "..") {
        let last_idx = kept.len() - 1;
        assert(kv.last() == kept@[last_idx as int]@);
        let name = kept[last_idx].clone();
        proof {
            crate::paths::lemma_last_index_of(name@, '.');
        }
        let stem = match last_index_of_exec(&name, '.') {
            Some(d) => if d == 0 {
                name
            } else {
                slice_chars(&name, 0, d)
            },
            None => name,
        };
        kept.set(last_idx, stem);
        assert(vviews(kept@) =~= kv.drop_last().push(stem_of(kv.last())));
        normal_of_exec(&kept)
    } else {
        if kept.len() > 0 {
            assert(kv.last() == kept@[kept.len() - 1]@);
        }
        normal_of_exec(&rest)
    };
    let ghost wp = vviews(parts@);
    assert(wp == without_extension(rv2));
    let mut parts = parts;
    if parts.len() > 0 && eq_str(&parts[parts.len() - 1], "mod") {
        assert(wp.last() == parts@[parts.len() - 1]@);
        parts.pop();
        assert(vviews(parts@) =~= drop_mod(wp));
    } else {
        if parts.len() > 0 {
            assert(wp.last() == parts@[parts.len() - 1]@);
        }
        assert(vviews(parts@) =~= drop_mod(wp));
    }
    let sep = chars_of("::");
    let joined = join_exec(&parts, &sep);
    string_of(&joined)
}

} // verus!
