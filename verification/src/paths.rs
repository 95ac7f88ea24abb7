//! Slash-separated relative paths, read the way `std::path::Path` reads them
//! on Unix: components are the non-empty pieces between `/`, with `.`
//! skipped and `..` standing for the parent directory.
use vstd::prelude::*;
use crate::text::{
    eq_str, find_from, lemma_lex_asymmetric, lemma_lex_irreflexive, lemma_lex_total, lemma_lex_transitive, lex_lt,
    lex_lt_exec, split, split_exec, vviews,
};

verus! {

/// The pieces of `s` between `/` separators (empty pieces included).
pub open spec fn pieces(s: Seq<char>) -> Seq<Seq<char>> {
    split(s, "/"@)
}

/// A piece that `Path::components` reports as a normal component.
pub open spec fn is_normal(p: Seq<char>) -> bool {
    p != Seq::<char>::empty() && p != "."@ && p != ".."@
}

/// A piece that `Path::components` skips (empty, or `.` inside the path).
pub open spec fn is_skipped(p: Seq<char>) -> bool {
    p == Seq::<char>::empty() || p == "."@
}

/// The normal components among `ps`, in order.
pub open spec fn normal_of(ps: Seq<Seq<char>>) -> Seq<Seq<char>>
    decreases ps.len(),
{
    if ps.len() == 0 {
        seq![]
    } else if is_normal(ps.last()) {
        normal_of(ps.drop_last()).push(ps.last())
    } else {
        normal_of(ps.drop_last())
    }
}

/// The pieces among `ps` that are not skipped (normal components and `..`).
pub open spec fn kept_of(ps: Seq<Seq<char>>) -> Seq<Seq<char>>
    decreases ps.len(),
{
    if ps.len() == 0 {
        seq![]
    } else if !is_skipped(ps.last()) {
        kept_of(ps.drop_last()).push(ps.last())
    } else {
        kept_of(ps.drop_last())
    }
}

/// The normal components of a path.
pub open spec fn normal_parts(s: Seq<char>) -> Seq<Seq<char>> {
    normal_of(pieces(s))
}

/// `Path::file_name`: the last component, when it is a normal one.
pub open spec fn file_name(s: Seq<char>) -> Option<Seq<char>> {
    let k = kept_of(pieces(s));
    if k.len() > 0 && k.last() != ".."@ {
        Some(k.last())
    } else {
        None
    }
}

/// The pieces of a path, computed.
pub fn pieces_exec(s: &Vec<char>) -> (r: Vec<Vec<char>>)
    ensures
        vviews(r@) == pieces(s@),
        r.len() >= 1,
{
    let sep = crate::text::chars_of("/");
    proof {
        reveal_strlit("/");
    }
    split_exec(s, &sep)
}

pub fn is_normal_exec(p: &Vec<char>) -> (b: bool)
    ensures
        b == is_normal(p@),
{
    if p.len() == 0 {
        assert(p@ =~= Seq::<char>::empty());
        return false;
    }
    !eq_str(p, ".") && !eq_str(p, "..")
}

pub fn is_skipped_exec(p: &Vec<char>) -> (b: bool)
    ensures
        b == is_skipped(p@),
{
    if p.len() == 0 {
        assert(p@ =~= Seq::<char>::empty());
        return true;
    }
    eq_str(p, ".")
}

/// The normal components among `ps`.
pub fn normal_of_exec(ps: &Vec<Vec<char>>) -> (r: Vec<Vec<char>>)
    ensures
        vviews(r@) == normal_of(vviews(ps@)),
{
    let mut r: Vec<Vec<char>> = Vec::new();
    let mut i: usize = 0;
    while i < ps.len()
        invariant
            i <= ps.len(),
            vviews(r@) == normal_of(vviews(ps@).take(i as int)),
        decreases ps.len() - i,
    {
        let ghost before = r@;
        let ghost t = vviews(ps@).take(i + 1);
        assert(t.drop_last() =~= vviews(ps@).take(i as int));
        assert(t.last() == ps@[i as int]@);
        if is_normal_exec(&ps[i]) {
            r.push(ps[i].clone());
            assert(vviews(r@) =~= vviews(before).push(ps@[i as int]@));
        }
        i += 1;
    }
    assert(vviews(ps@).take(ps.len() as int) =~= vviews(ps@));
    r
}

/// The non-skipped pieces among `ps`.
pub fn kept_of_exec(ps: &Vec<Vec<char>>) -> (r: Vec<Vec<char>>)
    ensures
        vviews(r@) == kept_of(vviews(ps@)),
{
    let mut r: Vec<Vec<char>> = Vec::new();
    let mut i: usize = 0;
    while i < ps.len()
        invariant
            i <= ps.len(),
            vviews(r@) == kept_of(vviews(ps@).take(i as int)),
        decreases ps.len() - i,
    {
        let ghost before = r@;
        let ghost t = vviews(ps@).take(i + 1);
        assert(t.drop_last() =~= vviews(ps@).take(i as int));
        assert(t.last() == ps@[i as int]@);
        if !is_skipped_exec(&ps[i]) {
            r.push(ps[i].clone());
            assert(vviews(r@) =~= vviews(before).push(ps@[i as int]@));
        }
        i += 1;
    }
    assert(vviews(ps@).take(ps.len() as int) =~= vviews(ps@));
    r
}

/// The normal components of a path, computed.
pub fn normal_parts_exec(s: &Vec<char>) -> (r: Vec<Vec<char>>)
    ensures
        vviews(r@) == normal_parts(s@),
{
    let ps = pieces_exec(s);
    normal_of_exec(&ps)
}

/// `Path::file_name`, computed.
pub fn file_name_exec(s: &Vec<char>) -> (r: Option<Vec<char>>)
    ensures
        r matches Some(n) ==> file_name(s@) == Some(n@),
        r is None ==> file_name(s@) is None,
{
    let ps = pieces_exec(s);
    let k = kept_of_exec(&ps);
    if k.len() > 0 && !eq_str(&k[k.len() - 1], "..") {
        assert(vviews(k@).last() == k@[k.len() - 1]@);
        Some(k[k.len() - 1].clone())
    } else {
        if k.len() > 0 {
            assert(vviews(k@).last() == k@[k.len() - 1]@);
        }
        None
    }
}

/// Index of the last occurrence of `c` in `s`.
pub open spec fn last_index_of(s: Seq<char>, c: char) -> Option<int>
    decreases s.len(),
{
    if s.len() == 0 {
        None
    } else if s.last() == c {
        Some(s.len() - 1)
    } else {
        last_index_of(s.drop_last(), c)
    }
}

pub proof fn lemma_last_index_of(s: Seq<char>, c: char)
    ensures
        last_index_of(s, c) matches Some(i) ==> 0 <= i < s.len() && s[i] == c && (forall|j: int|
            i < j < s.len() ==> s[j] != c),
        last_index_of(s, c) is None ==> forall|j: int| 0 <= j < s.len() ==> s[j] != c,
    decreases s.len(),
{
    if s.len() > 0 && s.last() != c {
        lemma_last_index_of(s.drop_last(), c);
        assert forall|j: int| 0 <= j < s.len() - 1 implies s[j] == s.drop_last()[j] by {}
    }
}

/// Index of the last occurrence of `c`, computed.
pub fn last_index_of_exec(s: &Vec<char>, c: char) -> (r: Option<usize>)
    ensures
        r matches Some(i) ==> last_index_of(s@, c) == Some(i as int),
        r is None ==> last_index_of(s@, c) is None,
{
    let mut i = s.len();
    assert(s@.take(i as int) =~= s@);
    while i > 0
        invariant
            i <= s.len(),
            last_index_of(s@, c) == last_index_of(s@.take(i as int), c),
        decreases i,
    {
        let ghost t = s@.take(i as int);
        assert(t.drop_last() =~= s@.take(i - 1));
        if s[i - 1] == c {
            return Some(i - 1);
        }
        i -= 1;
    }
    None
}

/// `Path::components` of a path, with `/` standing for the root directory:
/// the root when the path starts with `/`, a leading `.` of a relative path,
/// then every piece that is neither empty nor `.`.
pub open spec fn components(s: Seq<char>) -> Seq<Seq<char>> {
    let ps = pieces(s);
    if s.len() > 0 && s[0] == '/' {
        seq!["/"@] + kept_of(ps)
    } else if ps[0] == "."@ {
        seq!["."@] + kept_of(ps)
    } else {
        kept_of(ps)
    }
}

/// Two paths are equal as `Path`s: they have the same components.
pub open spec fn same_path(a: Seq<char>, b: Seq<char>) -> bool {
    components(a) == components(b)
}

/// The components of a path, computed.
pub fn components_exec(s: &Vec<char>) -> (r: Vec<Vec<char>>)
    ensures
        vviews(r@) == components(s@),
{
    let ps = pieces_exec(s);
    let k = kept_of_exec(&ps);
    assert(vviews(ps@)[0] == ps@[0]@);
    let mut r: Vec<Vec<char>> = Vec::new();
    if s.len() > 0 && s[0] == '/' {
        r.push(crate::text::chars_of("/"));
    } else if eq_str(&ps[0], ".") {
        r.push(crate::text::chars_of("."));
    }
    let ghost head = vviews(r@);
    let mut i: usize = 0;
    while i < k.len()
        invariant
            i <= k.len(),
            vviews(r@) == head + vviews(k@).take(i as int),
        decreases k.len() - i,
    {
        let ghost before = vviews(r@);
        r.push(k[i].clone());
        assert(vviews(r@) =~= before.push(k@[i as int]@));
        assert(vviews(r@) =~= head + vviews(k@).take(i + 1));
        i += 1;
    }
    assert(vviews(k@).take(i as int) =~= vviews(k@));
    assert(vviews(r@) =~= components(s@));
    r
}

/// Whether two paths are equal as `Path`s, computed.
pub fn same_path_exec(a: &str, b: &str) -> (r: bool)
    ensures
        r == same_path(a@, b@),
{
    same_path_chars(&crate::text::chars_of(a), &crate::text::chars_of(b))
}

/// Whether two paths, given as characters, are equal as `Path`s.
pub fn same_path_chars(a: &Vec<char>, b: &Vec<char>) -> (r: bool)
    ensures
        r == same_path(a@, b@),
{
    let ca = components_exec(a);
    let cb = components_exec(b);
    assert(vviews(ca@) == components(a@));
    assert(vviews(cb@) == components(b@));
    if ca.len() != cb.len() {
        assert(vviews(ca@).len() != vviews(cb@).len());
        return false;
    }
    let mut i: usize = 0;
    while i < ca.len()
        invariant
            i <= ca.len() == cb.len(),
            vviews(ca@) == components(a@),
            vviews(cb@) == components(b@),
            forall|j: int| 0 <= j < i ==> vviews(ca@)[j] == vviews(cb@)[j],
        decreases ca.len() - i,
    {
        if !crate::text::eq_chars(&ca[i], &cb[i]) {
            assert(vviews(ca@)[i as int] != vviews(cb@)[i as int]);
            assert(vviews(ca@) != vviews(cb@));
            return false;
        }
        i += 1;
    }
    assert(vviews(ca@) =~= vviews(cb@));
    true
}

// ---------------------------------------------------------------------------
// The order of paths
// ---------------------------------------------------------------------------

/// The position of a component's kind in `std::path::Component`'s order:
/// the root, then `.`, then `..`, then normal components.
pub open spec fn comp_rank(c: Seq<char>) -> nat {
    if c == "/"@ {
        1
    } else if c == "."@ {
        2
    } else if c == ".."@ {
        3
    } else {
        4
    }
}

/// The order of components: by kind, normal ones by their text.
pub open spec fn comp_lt(a: Seq<char>, b: Seq<char>) -> bool {
    comp_rank(a) < comp_rank(b) || (comp_rank(a) == 4 && comp_rank(b) == 4 && lex_lt(a, b))
}

/// Lexicographic order of component lists (a proper prefix first).
pub open spec fn comps_lt(a: Seq<Seq<char>>, b: Seq<Seq<char>>) -> bool
    decreases a.len(),
{
    if a.len() == 0 {
        b.len() > 0
    } else if b.len() == 0 {
        false
    } else if a[0] != b[0] {
        comp_lt(a[0], b[0])
    } else {
        comps_lt(a.drop_first(), b.drop_first())
    }
}

/// The order of `Path`s: by their components.
pub open spec fn path_lt(a: Seq<char>, b: Seq<char>) -> bool {
    comps_lt(components(a), components(b))
}

proof fn lemma_comp_order(a: Seq<char>, b: Seq<char>, c: Seq<char>)
    ensures
        !comp_lt(a, a),
        a == b || comp_lt(a, b) || comp_lt(b, a),
        comp_lt(a, b) && comp_lt(b, c) ==> comp_lt(a, c),
        !(comp_lt(a, b) && comp_lt(b, a)),
{
    lemma_lex_irreflexive(a);
    lemma_lex_total(a, b);
    lemma_lex_asymmetric(a, b);
    if lex_lt(a, b) && lex_lt(b, c) {
        lemma_lex_transitive(a, b, c);
    }
}

pub proof fn lemma_comps_irreflexive(a: Seq<Seq<char>>)
    ensures
        !comps_lt(a, a),
    decreases a.len(),
{
    if a.len() > 0 {
        lemma_comps_irreflexive(a.drop_first());
    }
}

pub proof fn lemma_comps_transitive(a: Seq<Seq<char>>, b: Seq<Seq<char>>, c: Seq<Seq<char>>)
    requires
        comps_lt(a, b),
        comps_lt(b, c),
    ensures
        comps_lt(a, c),
    decreases a.len(),
{
    if a.len() > 0 && b.len() > 0 && c.len() > 0 {
        lemma_comp_order(a[0], b[0], c[0]);
        if a[0] == b[0] && b[0] == c[0] {
            lemma_comps_transitive(a.drop_first(), b.drop_first(), c.drop_first());
        }
    }
}

pub proof fn lemma_comps_total(a: Seq<Seq<char>>, b: Seq<Seq<char>>)
    ensures
        a == b || comps_lt(a, b) || comps_lt(b, a),
        !(comps_lt(a, b) && comps_lt(b, a)),
    decreases a.len(),
{
    if a.len() > 0 && b.len() > 0 {
        lemma_comp_order(a[0], b[0], b[0]);
        if a[0] == b[0] {
            lemma_comps_total(a.drop_first(), b.drop_first());
            if a.drop_first() == b.drop_first() {
                assert(a =~= seq![a[0]] + a.drop_first());
                assert(b =~= seq![b[0]] + b.drop_first());
            }
        }
    } else if a.len() == 0 && b.len() == 0 {
        assert(a =~= b);
    }
}

fn comp_rank_exec(c: &Vec<char>) -> (r: u8)
    ensures
        r as nat == comp_rank(c@),
{
    if eq_str(c, "/") {
        1
    } else if eq_str(c, ".") {
        2
    } else if eq_str(c, "..") {
        3
    } else {
        4
    }
}

/// Whether path `a` comes before path `b`, computed.
pub fn path_lt_exec(a: &str, b: &str) -> (r: bool)
    ensures
        r == path_lt(a@, b@),
{
    let ca = components_exec(&crate::text::chars_of(a));
    let cb = components_exec(&crate::text::chars_of(b));
    let ghost va = vviews(ca@);
    let ghost vb = vviews(cb@);
    assert(va.skip(0) =~= va);
    assert(vb.skip(0) =~= vb);
    let mut i: usize = 0;
    while i < ca.len() && i < cb.len()
        invariant
            i <= ca.len(),
            i <= cb.len(),
            va == vviews(ca@),
            vb == vviews(cb@),
            va == components(a@),
            vb == components(b@),
            comps_lt(va, vb) == comps_lt(va.skip(i as int), vb.skip(i as int)),
        decreases ca.len() - i,
    {
        assert(va.skip(i as int)[0] == ca@[i as int]@);
        assert(vb.skip(i as int)[0] == cb@[i as int]@);
        if !crate::text::eq_chars(&ca[i], &cb[i]) {
            let ra = comp_rank_exec(&ca[i]);
            let rb = comp_rank_exec(&cb[i]);
            return ra < rb || (ra == 4 && rb == 4 && lex_lt_exec(&ca[i], &cb[i]));
        }
        assert(va.skip(i as int).drop_first() =~= va.skip(i + 1));
        assert(vb.skip(i as int).drop_first() =~= vb.skip(i + 1));
        i += 1;
    }
    ca.len() < cb.len()
}

} // verus!
