//! Code duplication: function bodies that are the same up to identifier
//! names and spacing (type-2 clones) and occur in two or more files.
//!
//! Bodies of functions whose name holds `for_test`, bodies shorter than
//! `MIN_BODY_LEN` bytes once whitespace is removed, and bodies of a single
//! statement are left out. Identifier renaming is done by `syn`: a fold that
//! replaces every identifier by `_`, whose token text is the key.
use vstd::prelude::*;
use vstd::utf8::encode_utf8;
use crate::parsing::extractor::FileStructure;
use crate::text::{
    chars_of, contains, contains_exec, dec, eq_chars, join, join_exec, string_of, strip_ws, strip_ws_exec, sviews,
    utf8_len_at_least, vviews,
};
use crate::types::{finding_id, id_for, kv, kv_num, kv_text, Finding, FindingKind, Severity};

verus! {

/// Minimum length, in bytes without whitespace, of a body worth comparing.
pub const MIN_BODY_LEN: usize = 40;

/// How many statements `syn` finds in `body` read as a block; none when it
/// does not parse as one.
pub uninterp spec fn block_stmt_count(body: Seq<char>) -> Option<usize>;

/// `syn::parse_str::<syn::Block>` of `body`, and the length of the block's
/// statement list. The count is named, not described: it depends on the
/// text alone.
#[verifier::external_body]
fn parsed_stmt_count(body: &str) -> (r: Option<usize>)
    ensures
        r == block_stmt_count(body@),
{
    match syn::parse_str::<syn::Block>(body) {
        Ok(block) => Some(block.stmts.len()),
        Err(_) => None,
    }
}

/// `proc_macro2::Ident`, the identifier token that the renaming fold visits.
#[verifier::external_type_specification]
#[verifier::external_body]
pub struct ExIdent(proc_macro2::Ident);

/// A `syn` fold that replaces every identifier by `_`.
struct IdentNormalizer;

impl syn::fold::Fold for IdentNormalizer {
    #[verifier::external_body]
    fn fold_ident(&mut self, _ident: syn::Ident) -> syn::Ident {
        syn::Ident::new("_", proc_macro2::Span::call_site())
    }
}

/// The token text of `body` read as a block, after every identifier in it
/// was replaced by `_`; none when it does not parse as a block.
pub uninterp spec fn renamed_text(body: Seq<char>) -> Option<Seq<char>>;

/// `syn::parse_str::<syn::Block>` of `body`, folded by `IdentNormalizer`,
/// and printed by `quote`'s `ToTokens::to_token_stream` and `to_string`.
/// The text is named, not described: it depends on the body alone.
#[verifier::external_body]
fn renamed_body(body: &str) -> (r: Option<String>)
    ensures
        r matches Some(x) ==> renamed_text(body@) == Some(x@),
        r is None ==> renamed_text(body@) is None,
{
    let block: syn::Block = syn::parse_str(body).ok()?;
    Some(quote::ToTokens::to_token_stream(&syn::fold::Fold::fold_block(&mut IdentNormalizer, block)).to_string())
}

/// A body of at most one statement: a delegation or template, not logic.
pub open spec fn is_trivial(count: Option<usize>) -> bool {
    count matches Some(n) && n <= 1
}

/// The function takes part in the comparison.
pub open spec fn eligible(name: Seq<char>, body: Seq<char>, count: Option<usize>) -> bool {
    &&& !contains(name, "for_test"@)
    &&& encode_utf8(strip_ws(body)).len() >= MIN_BODY_LEN
    &&& !is_trivial(count)
}

/// The comparison key of a body: its identifier-renamed token text (the
/// body itself when it does not parse) without whitespace.
pub open spec fn key_of(body: Seq<char>, renamed: Option<Seq<char>>) -> Seq<char> {
    strip_ws(
        match renamed {
            Some(q) => q,
            None => body,
        },
    )
}

/// (key, file, function name) of the first `j` eligible functions of a file.
pub open spec fn file_entries(
    s: FileStructure,
    renamed: Seq<Option<Seq<char>>>,
    counts: Seq<Option<usize>>,
    j: int,
) -> Seq<(Seq<char>, Seq<char>, Seq<char>)>
    decreases j,
{
    if j <= 0 || j > s.function_bodies@.len() {
        seq![]
    } else {
        let prev = file_entries(s, renamed, counts, j - 1);
        let name = s.function_bodies@[j - 1].0@;
        let body = s.function_bodies@[j - 1].1@;
        if eligible(name, body, counts[j - 1]) {
            prev.push((key_of(body, renamed[j - 1]), s.relative_path@, name))
        } else {
            prev
        }
    }
}

/// The eligible functions of the first `k` files, in order.
pub open spec fn entries_upto(
    structures: Seq<FileStructure>,
    renamed: Seq<Seq<Option<Seq<char>>>>,
    counts: Seq<Seq<Option<usize>>>,
    k: int,
) -> Seq<(Seq<char>, Seq<char>, Seq<char>)>
    decreases k,
{
    if k <= 0 || k > structures.len() {
        seq![]
    } else {
        entries_upto(structures, renamed, counts, k - 1) + file_entries(
            structures[k - 1],
            renamed[k - 1],
            counts[k - 1],
            structures[k - 1].function_bodies@.len() as int,
        )
    }
}

/// `renamed` and `counts` hold one value per function body.
pub open spec fn shaped(
    structures: Seq<FileStructure>,
    renamed: Seq<Seq<Option<Seq<char>>>>,
    counts: Seq<Seq<Option<usize>>>,
) -> bool {
    &&& renamed.len() == structures.len()
    &&& counts.len() == structures.len()
    &&& forall|i: int| 0 <= i < structures.len() ==> #[trigger] renamed[i].len() == structures[i].function_bodies@.len()
    &&& forall|i: int| 0 <= i < structures.len() ==> #[trigger] counts[i].len() == structures[i].function_bodies@.len()
}

/// The contents of each inner list.
pub open spec fn nested<T>(v: Seq<Vec<T>>) -> Seq<Seq<T>> {
    v.map_values(|x: Vec<T>| x@)
}

/// The text of an optional string.
pub open spec fn opt_view(o: Option<String>) -> Option<Seq<char>> {
    match o {
        Some(x) => Some(x@),
        None => None,
    }
}

/// The texts of one file's renamed bodies.
pub open spec fn row_views(v: Seq<Option<String>>) -> Seq<Option<Seq<char>>> {
    v.map_values(|o: Option<String>| opt_view(o))
}

/// The texts of all files' renamed bodies.
pub open spec fn ren_views(v: Seq<Vec<Option<String>>>) -> Seq<Seq<Option<Seq<char>>>> {
    v.map_values(|x: Vec<Option<String>>| row_views(x@))
}

/// The eligible functions of all files, in order.
pub open spec fn dup_entries(
    structures: Seq<FileStructure>,
    renamed: Seq<Seq<Option<Seq<char>>>>,
    counts: Seq<Seq<Option<usize>>>,
) -> Seq<(Seq<char>, Seq<char>, Seq<char>)> {
    entries_upto(structures, renamed, counts, structures.len() as int)
}


// ---------------------------------------------------------------------------
// Groups of equal bodies
// ---------------------------------------------------------------------------

/// The distinct keys of `es`, in order of first occurrence.
pub open spec fn group_keys(es: Seq<(Seq<char>, Seq<char>, Seq<char>)>) -> Seq<Seq<char>>
    decreases es.len(),
{
    if es.len() == 0 {
        seq![]
    } else {
        let prev = group_keys(es.drop_last());
        if prev.contains(es.last().0) {
            prev
        } else {
            prev.push(es.last().0)
        }
    }
}

/// The entries with key `key`, in order.
pub open spec fn located(es: Seq<(Seq<char>, Seq<char>, Seq<char>)>, key: Seq<char>) -> Seq<(Seq<char>, Seq<char>, Seq<char>)>
    decreases es.len(),
{
    if es.len() == 0 {
        seq![]
    } else {
        let prev = located(es.drop_last(), key);
        if es.last().0 == key {
            prev.push(es.last())
        } else {
            prev
        }
    }
}

pub open spec fn loc_paths(es: Seq<(Seq<char>, Seq<char>, Seq<char>)>, key: Seq<char>) -> Seq<Seq<char>> {
    located(es, key).map_values(|e: (Seq<char>, Seq<char>, Seq<char>)| e.1)
}

pub open spec fn loc_names(es: Seq<(Seq<char>, Seq<char>, Seq<char>)>, key: Seq<char>) -> Seq<Seq<char>> {
    located(es, key).map_values(|e: (Seq<char>, Seq<char>, Seq<char>)| e.2)
}

/// How many distinct files hold a body with key `key`.
pub open spec fn file_count(es: Seq<(Seq<char>, Seq<char>, Seq<char>)>, key: Seq<char>) -> nat {
    loc_paths(es, key).to_set().len()
}

/// The keys among the first `g` group keys that occur in two or more files.
pub open spec fn qualifying_upto(es: Seq<(Seq<char>, Seq<char>, Seq<char>)>, g: int) -> Seq<Seq<char>>
    decreases g,
{
    if g <= 0 || g > group_keys(es).len() {
        seq![]
    } else {
        let prev = qualifying_upto(es, g - 1);
        let key = group_keys(es)[g - 1];
        if file_count(es, key) >= 2 {
            prev.push(key)
        } else {
            prev
        }
    }
}

pub open spec fn qualifying(es: Seq<(Seq<char>, Seq<char>, Seq<char>)>) -> Seq<Seq<char>> {
    qualifying_upto(es, group_keys(es).len() as int)
}

/// The three parallel lists hold the entries `es`.
pub open spec fn holds_entries(
    keys: Seq<Vec<char>>,
    paths: Seq<Vec<char>>,
    names: Seq<Vec<char>>,
    es: Seq<(Seq<char>, Seq<char>, Seq<char>)>,
) -> bool {
    &&& keys.len() == es.len()
    &&& paths.len() == es.len()
    &&& names.len() == es.len()
    &&& forall|t: int| 0 <= t < es.len() ==> (#[trigger] es[t]) == (keys[t]@, paths[t]@, names[t]@)
}

/// The files and function names of the entries with key `key`, computed.
fn locations(keys: &Vec<Vec<char>>, paths: &Vec<Vec<char>>, names: &Vec<Vec<char>>, key: &Vec<char>, Ghost(es): Ghost<Seq<(Seq<char>, Seq<char>, Seq<char>)>>) -> (r: (Vec<Vec<char>>, Vec<Vec<char>>))
    requires
        holds_entries(keys@, paths@, names@, es),
    ensures
        vviews(r.0@) == loc_paths(es, key@),
        vviews(r.1@) == loc_names(es, key@),
{
    let mut lp: Vec<Vec<char>> = Vec::new();
    let mut ln: Vec<Vec<char>> = Vec::new();
    let mut t: usize = 0;
    while t < keys.len()
        invariant
            t <= keys.len(),
            holds_entries(keys@, paths@, names@, es),
            vviews(lp@) == loc_paths(es.take(t as int), key@),
            vviews(ln@) == loc_names(es.take(t as int), key@),
        decreases keys.len() - t,
    {
        let ghost pre = es.take(t as int);
        let ghost cur = es.take(t + 1);
        assert(cur.drop_last() =~= pre);
        assert(cur.last() == es[t as int]);
        assert(es[t as int] == (keys@[t as int]@, paths@[t as int]@, names@[t as int]@));
        if eq_chars(&keys[t], key) {
            let ghost bp = vviews(lp@);
            let ghost bn = vviews(ln@);
            lp.push(paths[t].clone());
            ln.push(names[t].clone());
            assert(located(cur, key@) == located(pre, key@).push(es[t as int]));
            assert(vviews(lp@) =~= bp.push(paths@[t as int]@));
            assert(vviews(ln@) =~= bn.push(names@[t as int]@));
            assert(loc_paths(cur, key@) =~= loc_paths(pre, key@).push(paths@[t as int]@));
            assert(loc_names(cur, key@) =~= loc_names(pre, key@).push(names@[t as int]@));
        } else {
            assert(located(cur, key@) == located(pre, key@));
        }
        t += 1;
    }
    assert(es.take(t as int) =~= es);
    (lp, ln)
}

proof fn lemma_contains_push(s: Seq<Seq<char>>, y: Seq<char>, x: Seq<char>)
    ensures
        s.push(y).contains(x) <==> (s.contains(x) || x == y),
{
    if s.contains(x) {
        let i = choose|i: int| 0 <= i < s.len() && s[i] == x;
        assert(s.push(y)[i] == x);
    }
    if x == y {
        assert(s.push(y)[s.len() as int] == y);
    }
    if s.push(y).contains(x) {
        let i = choose|i: int| 0 <= i < s.push(y).len() && s.push(y)[i] == x;
        if i < s.len() {
            assert(s[i] == x);
        }
    }
}

/// Whether `x` is in `v`, computed.
fn listed(v: &Vec<Vec<char>>, x: &Vec<char>) -> (b: bool)
    ensures
        b == vviews(v@).contains(x@),
{
    let mut i: usize = 0;
    while i < v.len()
        invariant
            i <= v.len(),
            forall|j: int| 0 <= j < i ==> vviews(v@)[j] != x@,
        decreases v.len() - i,
    {
        if eq_chars(&v[i], x) {
            assert(vviews(v@)[i as int] == x@);
            return true;
        }
        i += 1;
    }
    false
}

/// Number of distinct elements, computed.
fn distinct_count(v: &Vec<Vec<char>>) -> (n: usize)
    ensures
        n == vviews(v@).to_set().len(),
{
    let mut d: Vec<Vec<char>> = Vec::new();
    let mut i: usize = 0;
    while i < v.len()
        invariant
            i <= v.len(),
            d.len() <= i,
            vviews(d@).no_duplicates(),
            forall|x: Seq<char>| #[trigger] vviews(d@).contains(x) <==> vviews(v@).take(i as int).contains(x),
        decreases v.len() - i,
    {
        let ghost before = vviews(d@);
        let ghost pre = vviews(v@).take(i as int);
        assert(vviews(v@).take(i + 1) =~= pre.push(v@[i as int]@));
        if !listed(&d, &v[i]) {
            d.push(v[i].clone());
            assert(vviews(d@) =~= before.push(v@[i as int]@));
            assert forall|x: Seq<char>| #[trigger] vviews(d@).contains(x) <==> vviews(v@).take(i + 1).contains(x) by {
                lemma_contains_push(before, v@[i as int]@, x);
                lemma_contains_push(pre, v@[i as int]@, x);
            }
        } else {
            assert forall|x: Seq<char>| #[trigger] vviews(d@).contains(x) <==> vviews(v@).take(i + 1).contains(x) by {
                lemma_contains_push(pre, v@[i as int]@, x);
            }
        }
        i += 1;
    }
    assert(vviews(v@).take(i as int) =~= vviews(v@));
    assert(vviews(d@).to_set() =~= vviews(v@).to_set());
    proof {
        vviews(d@).unique_seq_to_set();
    }
    d.len()
}

/// The distinct keys, in order of first occurrence, computed.
fn group_keys_exec(keys: &Vec<Vec<char>>, Ghost(es): Ghost<Seq<(Seq<char>, Seq<char>, Seq<char>)>>) -> (r: Vec<Vec<char>>)
    requires
        keys.len() == es.len(),
        forall|t: int| 0 <= t < es.len() ==> (#[trigger] es[t]).0 == keys@[t]@,
    ensures
        vviews(r@) == group_keys(es),
{
    let mut r: Vec<Vec<char>> = Vec::new();
    let mut t: usize = 0;
    while t < keys.len()
        invariant
            t <= keys.len(),
            keys.len() == es.len(),
            forall|u: int| 0 <= u < es.len() ==> (#[trigger] es[u]).0 == keys@[u]@,
            vviews(r@) == group_keys(es.take(t as int)),
        decreases keys.len() - t,
    {
        let ghost cur = es.take(t + 1);
        assert(cur.drop_last() =~= es.take(t as int));
        assert(cur.last() == es[t as int]);
        assert(es[t as int].0 == keys@[t as int]@);
        if !listed(&r, &keys[t]) {
            let ghost before = vviews(r@);
            r.push(keys[t].clone());
            assert(vviews(r@) =~= before.push(keys@[t as int]@));
        }
        t += 1;
    }
    assert(es.take(t as int) =~= es);
    r
}

// ---------------------------------------------------------------------------
// Collecting the entries
// ---------------------------------------------------------------------------

fn trivial_exec(count: Option<usize>) -> (b: bool)
    ensures
        b == is_trivial(count),
{
    match count {
        Some(n) => n <= 1,
        None => false,
    }
}

/// The eligible functions of all files, as three parallel lists.
fn collect_entries(
    structures: &Vec<FileStructure>,
    renamed: &Vec<Vec<Option<String>>>,
    counts: &Vec<Vec<Option<usize>>>,
) -> (r: (Vec<Vec<char>>, Vec<Vec<char>>, Vec<Vec<char>>))
    requires
        shaped(structures@, ren_views(renamed@), nested(counts@)),
    ensures
        holds_entries(r.0@, r.1@, r.2@, dup_entries(structures@, ren_views(renamed@), nested(counts@))),
{
    let mut keys: Vec<Vec<char>> = Vec::new();
    let mut paths: Vec<Vec<char>> = Vec::new();
    let mut names: Vec<Vec<char>> = Vec::new();
    let pat = chars_of("for_test");
    let mut k: usize = 0;
    while k < structures.len()
        invariant
            k <= structures.len(),
            pat@ == "for_test"@,
            shaped(structures@, ren_views(renamed@), nested(counts@)),
            holds_entries(keys@, paths@, names@, entries_upto(structures@, ren_views(renamed@), nested(counts@), k as int)),
        decreases structures.len() - k,
    {
        let s = &structures[k];
        let ren = &renamed[k];
        let cnt = &counts[k];
        let ghost base = entries_upto(structures@, ren_views(renamed@), nested(counts@), k as int);
        assert(ren_views(renamed@)[k as int] == row_views(ren@));
        assert(nested(counts@)[k as int] == cnt@);
        assert(ren@.len() == s.function_bodies@.len());
        assert(cnt@.len() == s.function_bodies@.len());
        let mut j: usize = 0;
        while j < s.function_bodies.len()
            invariant
                j <= s.function_bodies.len(),
                pat@ == "for_test"@,
                ren@.len() == s.function_bodies@.len(),
                cnt@.len() == s.function_bodies@.len(),
                holds_entries(keys@, paths@, names@, base + file_entries(*s, row_views(ren@), cnt@, j as int)),
            decreases s.function_bodies.len() - j,
        {
            let ghost before = base + file_entries(*s, row_views(ren@), cnt@, j as int);
            let name = chars_of(s.function_bodies[j].0.as_str());
            let body = chars_of(s.function_bodies[j].1.as_str());
            let stripped = strip_ws_exec(&body);
            let ok = !contains_exec(&name, &pat) && utf8_len_at_least(&stripped, MIN_BODY_LEN)
                && !trivial_exec(cnt[j]);
            if ok {
                let source: Vec<char> = match &ren[j] {
                    Some(q) => chars_of(q.as_str()),
                    None => body,
                };
                let key = strip_ws_exec(&source);
                assert(key@ == key_of(s.function_bodies@[j as int].1@, row_views(ren@)[j as int]));
                let ghost e = (key@, s.relative_path@, name@);
                keys.push(key);
                paths.push(chars_of(s.relative_path.as_str()));
                names.push(name);
                assert(base + file_entries(*s, row_views(ren@), cnt@, j + 1) =~= before.push(e));
            } else {
                assert(base + file_entries(*s, row_views(ren@), cnt@, j + 1) =~= before);
            }
            j += 1;
        }
        assert(entries_upto(structures@, ren_views(renamed@), nested(counts@), k + 1) == base + file_entries(
            *s,
            row_views(ren@),
            cnt@,
            s.function_bodies@.len() as int,
        ));
        k += 1;
    }
    (keys, paths, names)
}

// ---------------------------------------------------------------------------
// Findings
// ---------------------------------------------------------------------------

pub open spec fn severity_for(file_count: nat) -> Severity {
    if file_count >= 5 {
        Severity::High
    } else if file_count >= 3 {
        Severity::Medium
    } else {
        Severity::Low
    }
}

/// The first (at most) five files.
pub open spec fn first_five(ps: Seq<Seq<char>>) -> Seq<Seq<char>> {
    if ps.len() <= 5 {
        ps
    } else {
        ps.take(5)
    }
}

/// The finding for the group of bodies with key `key`, numbered `n`: it
/// points at the first location and names its function.
pub open spec fn expected_group(es: Seq<(Seq<char>, Seq<char>, Seq<char>)>, key: Seq<char>, n: nat, f: Finding) -> bool {
    let locs = located(es, key);
    f.is(
        finding_id("dup"@, n),
        FindingKind::CodeDuplication,
        severity_for(file_count(es, key)),
        85,
        locs[0].1,
        Seq::empty(),
        Seq::empty(),
        seq![
            kv("file_count"@, dec(file_count(es, key))),
            kv("fn_name"@, locs[0].2),
            kv("files"@, join(first_five(loc_paths(es, key)), ", "@)),
        ],
        Seq::empty(),
        None,
    )
}

/// Positions, among the first `m` qualifying groups, of those with severity `sev`.
pub open spec fn positions_with(es: Seq<(Seq<char>, Seq<char>, Seq<char>)>, sev: Severity, m: int) -> Seq<int>
    decreases m,
{
    if m <= 0 || m > qualifying(es).len() {
        seq![]
    } else {
        let prev = positions_with(es, sev, m - 1);
        if severity_for(file_count(es, qualifying(es)[m - 1])) == sev {
            prev.push(m - 1)
        } else {
            prev
        }
    }
}

/// The order of the findings: the groups numbered in order of first
/// occurrence, then listed High first, Medium next, Low last, each level in
/// numbering order.
pub open spec fn report_order(es: Seq<(Seq<char>, Seq<char>, Seq<char>)>) -> Seq<int> {
    let n = qualifying(es).len() as int;
    positions_with(es, Severity::High, n) + positions_with(es, Severity::Medium, n) + positions_with(
        es,
        Severity::Low,
        n,
    )
}

/// Sorted by severity, the findings for the qualifying groups, the group
/// at position `i` numbered `start + i + 1`.
pub open spec fn expected_findings(es: Seq<(Seq<char>, Seq<char>, Seq<char>)>, start: nat, r: Seq<Finding>) -> bool {
    let order = report_order(es);
    &&& r.len() == order.len()
    &&& forall|t: int|
        0 <= t < r.len() ==> expected_group(es, qualifying(es)[order[t]], (start + order[t] + 1) as nat, #[trigger] r[t])
}

fn severity_exec(fc: usize) -> (r: Severity)
    ensures
        r == severity_for(fc as nat),
{
    if fc >= 5 {
        Severity::High
    } else if fc >= 3 {
        Severity::Medium
    } else {
        Severity::Low
    }
}

/// The finding for one qualifying group.
fn group_finding(
    keys: &Vec<Vec<char>>,
    paths: &Vec<Vec<char>>,
    names: &Vec<Vec<char>>,
    key: &Vec<char>,
    n: usize,
    Ghost(es): Ghost<Seq<(Seq<char>, Seq<char>, Seq<char>)>>,
) -> (f: Finding)
    requires
        holds_entries(keys@, paths@, names@, es),
        file_count(es, key@) >= 2,
    ensures
        expected_group(es, key@, n as nat, f),
{
    let (lp, ln) = locations(keys, paths, names, key, Ghost(es));
    let fc = distinct_count(&lp);
    if lp.len() == 0 {
        assert(vviews(lp@).to_set() =~= Set::<Seq<char>>::empty());
        assert(false);
    }
    assert(loc_paths(es, key@).len() == located(es, key@).len());
    assert(loc_names(es, key@).len() == located(es, key@).len());
    assert(vviews(ln@).len() == ln@.len());
    assert(loc_paths(es, key@)[0] == located(es, key@)[0].1);
    assert(loc_names(es, key@)[0] == located(es, key@)[0].2);
    assert(vviews(lp@)[0] == lp@[0]@);
    assert(vviews(ln@)[0] == ln@[0]@);
    let mut shown: Vec<Vec<char>> = Vec::new();
    let mut i: usize = 0;
    while i < lp.len() && i < 5
        invariant
            i <= lp.len(),
            i <= 5,
            vviews(shown@) == vviews(lp@).take(i as int),
        decreases lp.len() - i,
    {
        let ghost before = shown@;
        shown.push(lp[i].clone());
        assert(vviews(shown@) =~= vviews(before).push(lp@[i as int]@));
        assert(vviews(shown@) =~= vviews(lp@).take(i + 1));
        i += 1;
    }
    assert(vviews(shown@) =~= first_five(vviews(lp@)));
    let files = join_exec(&shown, &chars_of(", "));
    let mut evidence: Vec<String> = Vec::new();
    evidence.push(kv_num("file_count", fc));
    evidence.push(kv_text("fn_name", &ln[0]));
    evidence.push(kv_text("files", &files));
    assert(sviews(evidence@) =~= seq![
        kv("file_count"@, dec(file_count(es, key@))),
        kv("fn_name"@, located(es, key@)[0].2),
        kv("files"@, join(first_five(loc_paths(es, key@)), ", "@)),
    ]);
    Finding::new(
        id_for("dup", n),
        FindingKind::CodeDuplication,
        severity_exec(fc),
        85,
        string_of(&lp[0]),
        evidence,
    )
}

proof fn lemma_qualifying(es: Seq<(Seq<char>, Seq<char>, Seq<char>)>, g: int)
    requires
        0 <= g <= group_keys(es).len(),
    ensures
        qualifying_upto(es, g).len() <= g,
        forall|i: int| 0 <= i < qualifying_upto(es, g).len() ==> file_count(es, #[trigger] qualifying_upto(es, g)[i]) >= 2,
    decreases g,
{
    if g > 0 {
        lemma_qualifying(es, g - 1);
        let prev = qualifying_upto(es, g - 1);
        let cur = qualifying_upto(es, g);
        assert forall|i: int| 0 <= i < cur.len() implies file_count(es, #[trigger] cur[i]) >= 2 by {
            if i < prev.len() {
                assert(cur[i] == prev[i]);
            }
        }
    }
}

proof fn lemma_group_keys_len(es: Seq<(Seq<char>, Seq<char>, Seq<char>)>)
    ensures
        group_keys(es).len() <= es.len(),
    decreases es.len(),
{
    if es.len() > 0 {
        lemma_group_keys_len(es.drop_last());
    }
}

/// Appends, in numbering order, the findings of the qualifying groups with severity `sev`.
fn append_with(
    out: &mut Vec<Finding>,
    sev: Severity,
    qk: &Vec<Vec<char>>,
    qfc: &Vec<usize>,
    keys: &Vec<Vec<char>>,
    paths: &Vec<Vec<char>>,
    names: &Vec<Vec<char>>,
    start: usize,
    Ghost(es): Ghost<Seq<(Seq<char>, Seq<char>, Seq<char>)>>,
)
    requires
        holds_entries(keys@, paths@, names@, es),
        vviews(qk@) == qualifying(es),
        qfc.len() == qk.len(),
        forall|i: int| 0 <= i < qk.len() ==> #[trigger] qfc@[i] as nat == file_count(es, qk@[i]@),
        start + qk.len() <= usize::MAX,
    ensures
        final(out).len() == old(out).len() + positions_with(es, sev, qk.len() as int).len(),
        forall|t: int| 0 <= t < old(out).len() ==> #[trigger] final(out)@[t] == old(out)@[t],
        forall|t: int|
            0 <= t < positions_with(es, sev, qk.len() as int).len() ==> expected_group(
                es,
                qualifying(es)[positions_with(es, sev, qk.len() as int)[t]],
                (start + positions_with(es, sev, qk.len() as int)[t] + 1) as nat,
                #[trigger] final(out)@[old(out).len() + t],
            ),
{
    proof {
        lemma_group_keys_len(es);
        lemma_qualifying(es, group_keys(es).len() as int);
    }
    let ghost base = out@;
    let mut i: usize = 0;
    while i < qk.len()
        invariant
            i <= qk.len(),
            holds_entries(keys@, paths@, names@, es),
            vviews(qk@) == qualifying(es),
            qfc.len() == qk.len(),
            forall|j: int| 0 <= j < qk.len() ==> #[trigger] qfc@[j] as nat == file_count(es, qk@[j]@),
            forall|j: int| 0 <= j < qualifying(es).len() ==> file_count(es, #[trigger] qualifying(es)[j]) >= 2,
            start + qk.len() <= usize::MAX,
            out.len() == base.len() + positions_with(es, sev, i as int).len(),
            forall|t: int| 0 <= t < base.len() ==> #[trigger] out@[t] == base[t],
            forall|t: int|
                0 <= t < positions_with(es, sev, i as int).len() ==> expected_group(
                    es,
                    qualifying(es)[positions_with(es, sev, i as int)[t]],
                    (start + positions_with(es, sev, i as int)[t] + 1) as nat,
                    #[trigger] out@[base.len() + t],
                ),
        decreases qk.len() - i,
    {
        assert(qualifying(es)[i as int] == qk@[i as int]@);
        let ghost prev = positions_with(es, sev, i as int);
        if severity_exec(qfc[i]) == sev {
            let f = group_finding(keys, paths, names, &qk[i], start + i + 1, Ghost(es));
            let ghost before = out@;
            out.push(f);
            assert(positions_with(es, sev, i + 1) == prev.push(i as int));
            assert forall|t: int|
                0 <= t < positions_with(es, sev, i + 1).len() implies expected_group(
                    es,
                    qualifying(es)[positions_with(es, sev, i + 1)[t]],
                    (start + positions_with(es, sev, i + 1)[t] + 1) as nat,
                    #[trigger] out@[base.len() + t],
                ) by {
                if t < prev.len() {
                    assert(out@[base.len() + t] == before[base.len() + t]);
                }
            }
        } else {
            assert(positions_with(es, sev, i + 1) == prev);
        }
        i += 1;
    }
}

/// Duplicate findings from the functions' identifier-renamed bodies and
/// statement counts (one value per function body of each file).
pub fn duplicates_from(
    structures: &Vec<FileStructure>,
    renamed: &Vec<Vec<Option<String>>>,
    counts: &Vec<Vec<Option<usize>>>,
    counter: &mut usize,
) -> (r: Vec<Finding>)
    requires
        shaped(structures@, ren_views(renamed@), nested(counts@)),
        *old(counter) + qualifying(dup_entries(structures@, ren_views(renamed@), nested(counts@))).len() <= usize::MAX,
    ensures
        *final(counter) == *old(counter) + qualifying(dup_entries(structures@, ren_views(renamed@), nested(counts@))).len(),
        expected_findings(dup_entries(structures@, ren_views(renamed@), nested(counts@)), *old(counter) as nat, r@),
{
    let ghost es = dup_entries(structures@, ren_views(renamed@), nested(counts@));
    let (keys, paths, names) = collect_entries(structures, renamed, counts);
    let gk = group_keys_exec(&keys, Ghost(es));
    let mut qk: Vec<Vec<char>> = Vec::new();
    let mut qfc: Vec<usize> = Vec::new();
    let mut g: usize = 0;
    while g < gk.len()
        invariant
            g <= gk.len(),
            holds_entries(keys@, paths@, names@, es),
            vviews(gk@) == group_keys(es),
            vviews(qk@) == qualifying_upto(es, g as int),
            qfc.len() == qk.len(),
            forall|i: int| 0 <= i < qk.len() ==> #[trigger] qfc@[i] as nat == file_count(es, qk@[i]@),
        decreases gk.len() - g,
    {
        let (lp, ln) = locations(&keys, &paths, &names, &gk[g], Ghost(es));
        let fc = distinct_count(&lp);
        assert(group_keys(es)[g as int] == gk@[g as int]@);
        if fc >= 2 {
            let ghost before = vviews(qk@);
            qk.push(gk[g].clone());
            qfc.push(fc);
            assert(vviews(qk@) =~= before.push(gk@[g as int]@));
        }
        g += 1;
    }
    let start = *counter;
    let mut out: Vec<Finding> = Vec::new();
    append_with(&mut out, Severity::High, &qk, &qfc, &keys, &paths, &names, start, Ghost(es));
    let ghost after_high = out@;
    append_with(&mut out, Severity::Medium, &qk, &qfc, &keys, &paths, &names, start, Ghost(es));
    let ghost after_medium = out@;
    append_with(&mut out, Severity::Low, &qk, &qfc, &keys, &paths, &names, start, Ghost(es));
    *counter = start + qk.len();
    proof {
        let n = qk.len() as int;
        let h = positions_with(es, Severity::High, n);
        let m = positions_with(es, Severity::Medium, n);
        let l = positions_with(es, Severity::Low, n);
        let order = report_order(es);
        assert(order == h + m + l);
        assert forall|t: int| 0 <= t < out@.len() implies expected_group(
            es,
            qualifying(es)[order[t]],
            (start + order[t] + 1) as nat,
            #[trigger] out@[t],
        ) by {
            if t < h.len() {
                assert(out@[t] == after_medium[t]);
                assert(after_medium[t] == after_high[t]);
                assert(order[t] == h[t]);
                assert(after_high[0 + t] == after_high[t]);
            } else if t < h.len() + m.len() {
                assert(out@[t] == after_medium[t]);
                assert(order[t] == m[t - h.len()]);
                assert(after_medium[h.len() + (t - h.len())] == after_medium[t]);
            } else {
                assert(order[t] == l[t - h.len() - m.len()]);
                assert(out@[(h.len() + m.len()) + (t - h.len() - m.len())] == out@[t]);
            }
        }
    }
    out
}

/// The statement counts that `syn` gives for every function body.
pub open spec fn named_counts(structures: Seq<FileStructure>) -> Seq<Seq<Option<usize>>> {
    Seq::new(
        structures.len(),
        |i: int|
            Seq::new(
                structures[i].function_bodies@.len(),
                |j: int| block_stmt_count(structures[i].function_bodies@[j].1@),
            ),
    )
}

/// Number of function bodies in the first `k` files.
pub open spec fn bodies_upto(structures: Seq<FileStructure>, k: int) -> nat
    decreases k,
{
    if k <= 0 || k > structures.len() {
        0
    } else {
        bodies_upto(structures, k - 1) + structures[k - 1].function_bodies@.len()
    }
}

proof fn lemma_file_entries_len(s: FileStructure, renamed: Seq<Option<Seq<char>>>, counts: Seq<Option<usize>>, j: int)
    requires
        0 <= j <= s.function_bodies@.len(),
    ensures
        file_entries(s, renamed, counts, j).len() <= j,
    decreases j,
{
    if j > 0 {
        lemma_file_entries_len(s, renamed, counts, j - 1);
    }
}

proof fn lemma_entries_len(
    structures: Seq<FileStructure>,
    renamed: Seq<Seq<Option<Seq<char>>>>,
    counts: Seq<Seq<Option<usize>>>,
    k: int,
)
    requires
        0 <= k <= structures.len(),
    ensures
        entries_upto(structures, renamed, counts, k).len() <= bodies_upto(structures, k),
    decreases k,
{
    if k > 0 {
        lemma_entries_len(structures, renamed, counts, k - 1);
        lemma_file_entries_len(
            structures[k - 1],
            renamed[k - 1],
            counts[k - 1],
            structures[k - 1].function_bodies@.len() as int,
        );
    }
}

/// The renamed texts that `syn` gives for every function body.
pub open spec fn named_renamed(structures: Seq<FileStructure>) -> Seq<Seq<Option<Seq<char>>>> {
    Seq::new(
        structures.len(),
        |i: int|
            Seq::new(
                structures[i].function_bodies@.len(),
                |j: int| renamed_text(structures[i].function_bodies@[j].1@),
            ),
    )
}

/// Findings for function bodies that are the same up to identifier names
/// in two or more files. Each body is renamed (every identifier becomes `_`)
/// and its statements counted by `syn`.
pub fn analyze_duplicates(structures: &Vec<FileStructure>, counter: &mut usize) -> (r: Vec<Finding>)
    requires
        *old(counter) + bodies_upto(structures@, structures@.len() as int) <= usize::MAX,
    ensures
        *final(counter) == *old(counter) + qualifying(
            dup_entries(structures@, named_renamed(structures@), named_counts(structures@)),
        ).len(),
        expected_findings(
            dup_entries(structures@, named_renamed(structures@), named_counts(structures@)),
            *old(counter) as nat,
            r@,
        ),
{
    let mut counts: Vec<Vec<Option<usize>>> = Vec::new();
    let mut renamed: Vec<Vec<Option<String>>> = Vec::new();
    let mut k: usize = 0;
    while k < structures.len()
        invariant
            k <= structures.len(),
            counts.len() == k,
            renamed.len() == k,
            forall|i: int| 0 <= i < k ==> (#[trigger] counts@[i])@ == named_counts(structures@)[i],
            forall|i: int| 0 <= i < k ==> row_views((#[trigger] renamed@[i])@) == named_renamed(structures@)[i],
        decreases structures.len() - k,
    {
        let bodies = &structures[k].function_bodies;
        let mut row: Vec<Option<usize>> = Vec::new();
        let mut ren: Vec<Option<String>> = Vec::new();
        let mut j: usize = 0;
        while j < bodies.len()
            invariant
                j <= bodies.len(),
                bodies@ == structures@[k as int].function_bodies@,
                row.len() == j,
                ren.len() == j,
                forall|t: int| 0 <= t < j ==> #[trigger] row@[t] == block_stmt_count(bodies@[t].1@),
                forall|t: int| 0 <= t < j ==> opt_view(#[trigger] ren@[t]) == renamed_text(bodies@[t].1@),
            decreases bodies.len() - j,
        {
            row.push(parsed_stmt_count(bodies[j].1.as_str()));
            let text = renamed_body(bodies[j].1.as_str());
            ren.push(text);
            j += 1;
        }
        assert(row@ =~= named_counts(structures@)[k as int]);
        assert(row_views(ren@) =~= named_renamed(structures@)[k as int]);
        counts.push(row);
        renamed.push(ren);
        k += 1;
    }
    assert(nested(counts@) =~= named_counts(structures@));
    assert(ren_views(renamed@) =~= named_renamed(structures@));
    let ghost es = dup_entries(structures@, named_renamed(structures@), named_counts(structures@));
    proof {
        lemma_entries_len(structures@, named_renamed(structures@), named_counts(structures@), structures@.len() as int);
        lemma_group_keys_len(es);
        lemma_qualifying(es, group_keys(es).len() as int);
    }
    duplicates_from(structures, &renamed, &counts, counter)
}


proof fn lemma_qualifying_upto_spans(es: Seq<(Seq<char>, Seq<char>, Seq<char>)>, g: int)
    ensures
        forall|t: int|
            0 <= t < qualifying_upto(es, g).len() ==> file_count(es, #[trigger] qualifying_upto(es, g)[t]) >= 2,
    decreases g,
{
    if g > 0 && g <= group_keys(es).len() {
        lemma_qualifying_upto_spans(es, g - 1);
        let prev = qualifying_upto(es, g - 1);
        let cur = qualifying_upto(es, g);
        assert forall|t: int| 0 <= t < cur.len() implies file_count(es, #[trigger] cur[t]) >= 2 by {
            if t < prev.len() {
                assert(cur[t] == prev[t]);
            }
        }
    }
}

proof fn lemma_positions_with(es: Seq<(Seq<char>, Seq<char>, Seq<char>)>, sev: Severity, m: int)
    requires
        0 <= m <= qualifying(es).len(),
    ensures
        forall|t: int|
            0 <= t < positions_with(es, sev, m).len() ==> 0 <= #[trigger] positions_with(es, sev, m)[t] < m
                && severity_for(file_count(es, qualifying(es)[positions_with(es, sev, m)[t]])) == sev,
        forall|a: int, b: int|
            0 <= a < b < positions_with(es, sev, m).len() ==> #[trigger] positions_with(es, sev, m)[a]
                < #[trigger] positions_with(es, sev, m)[b],
        forall|j: int|
            0 <= j < m && severity_for(file_count(es, qualifying(es)[j])) == sev ==> #[trigger] positions_with(
                es,
                sev,
                m,
            ).contains(j),
    decreases m,
{
    if m > 0 {
        lemma_positions_with(es, sev, m - 1);
        let prev = positions_with(es, sev, m - 1);
        let cur = positions_with(es, sev, m);
        assert forall|t: int| 0 <= t < cur.len() implies 0 <= #[trigger] cur[t] < m && severity_for(
            file_count(es, qualifying(es)[cur[t]]),
        ) == sev by {
            if t < prev.len() {
                assert(cur[t] == prev[t]);
            }
        }
        assert forall|a: int, b: int| 0 <= a < b < cur.len() implies #[trigger] cur[a] < #[trigger] cur[b] by {
            if b < prev.len() {
                assert(cur[a] == prev[a]);
                assert(cur[b] == prev[b]);
            } else {
                assert(cur[a] == prev[a]);
            }
        }
        assert forall|j: int| 0 <= j < m && severity_for(file_count(es, qualifying(es)[j])) == sev implies #[trigger] cur.contains(
            j,
        ) by {
            if j < m - 1 {
                assert(prev.contains(j));
                let t = choose|t: int| 0 <= t < prev.len() && prev[t] == j;
                assert(cur[t] == j);
            } else {
                assert(cur[cur.len() - 1] == j);
            }
        }
    }
}

/// Duplicate detection is deterministic: two runs over the same parsed files,
/// started from the same counter, report the same findings, field for
/// field, in the same order.
pub proof fn law_duplicates_deterministic(structures: Seq<FileStructure>, start: nat, r1: Seq<Finding>, r2: Seq<Finding>)
    requires
        expected_findings(dup_entries(structures, named_renamed(structures), named_counts(structures)), start, r1),
        expected_findings(dup_entries(structures, named_renamed(structures), named_counts(structures)), start, r2),
    ensures
        r1.len() == r2.len(),
        forall|t: int| 0 <= t < r1.len() ==> (#[trigger] r1[t]).same_as(r2[t]),
{
    let es = dup_entries(structures, named_renamed(structures), named_counts(structures));
    let order = report_order(es);
    assert forall|t: int| 0 <= t < r1.len() implies (#[trigger] r1[t]).same_as(r2[t]) by {
        assert(expected_group(es, qualifying(es)[order[t]], (start + order[t] + 1) as nat, r1[t]));
        assert(expected_group(es, qualifying(es)[order[t]], (start + order[t] + 1) as nat, r2[t]));
    }
}

/// Every group of equal bodies that spans two or more files is reported
/// exactly once, and no group inside a single file is reported.
pub proof fn law_each_duplicate_group_reported_once(es: Seq<(Seq<char>, Seq<char>, Seq<char>)>)
    ensures
        report_order(es).len() == qualifying(es).len(),
        forall|t: int|
            0 <= t < report_order(es).len() ==> 0 <= #[trigger] report_order(es)[t] < qualifying(es).len()
                && file_count(es, qualifying(es)[report_order(es)[t]]) >= 2,
        forall|j: int| 0 <= j < qualifying(es).len() ==> #[trigger] report_order(es).contains(j),
        forall|a: int, b: int|
            0 <= a < b < report_order(es).len() ==> #[trigger] report_order(es)[a] != #[trigger] report_order(
                es,
            )[b],
{
    let n = qualifying(es).len() as int;
    let h = positions_with(es, Severity::High, n);
    let md = positions_with(es, Severity::Medium, n);
    let l = positions_with(es, Severity::Low, n);
    let o = report_order(es);
    lemma_positions_with(es, Severity::High, n);
    lemma_positions_with(es, Severity::Medium, n);
    lemma_positions_with(es, Severity::Low, n);
    lemma_qualifying_upto_spans(es, group_keys(es).len() as int);
    assert(o == h + md + l);
    assert forall|t: int| 0 <= t < o.len() implies 0 <= #[trigger] o[t] < n && file_count(es, qualifying(es)[o[t]])
        >= 2 && severity_for(file_count(es, qualifying(es)[o[t]])) == (if t < h.len() {
        Severity::High
    } else if t < h.len() + md.len() {
        Severity::Medium
    } else {
        Severity::Low
    }) by {
        if t < h.len() {
            assert(o[t] == h[t]);
        } else if t < h.len() + md.len() {
            assert(o[t] == md[t - h.len()]);
        } else {
            assert(o[t] == l[t - h.len() - md.len()]);
        }
    }
    assert forall|a: int, b: int| 0 <= a < b < o.len() implies #[trigger] o[a] != #[trigger] o[b] by {
        if b < h.len() {
            assert(o[a] == h[a] && o[b] == h[b]);
        } else if a >= h.len() && b < h.len() + md.len() {
            assert(o[a] == md[a - h.len()] && o[b] == md[b - h.len()]);
        } else if a >= h.len() + md.len() {
            assert(o[a] == l[a - h.len() - md.len()] && o[b] == l[b - h.len() - md.len()]);
        }
    }
    assert forall|j: int| 0 <= j < n implies #[trigger] o.contains(j) by {
        let sv = severity_for(file_count(es, qualifying(es)[j]));
        if sv == Severity::High {
            assert(h.contains(j));
            let t = choose|t: int| 0 <= t < h.len() && h[t] == j;
            assert(o[t] == j);
        } else if sv == Severity::Medium {
            assert(md.contains(j));
            let t = choose|t: int| 0 <= t < md.len() && md[t] == j;
            assert(o[h.len() + t] == j);
        } else {
            assert(l.contains(j));
            let t = choose|t: int| 0 <= t < l.len() && l[t] == j;
            assert(o[h.len() + md.len() + t] == j);
        }
    }
    // n distinct values in 0..n: the order lists each group once.
    lemma_distinct_in_range_len(o, n);
}

proof fn lemma_distinct_in_range_len(o: Seq<int>, n: int)
    requires
        0 <= n,
        forall|t: int| 0 <= t < o.len() ==> 0 <= #[trigger] o[t] < n,
        forall|j: int| 0 <= j < n ==> #[trigger] o.contains(j),
        forall|a: int, b: int| 0 <= a < b < o.len() ==> #[trigger] o[a] != #[trigger] o[b],
    ensures
        o.len() == n,
{
    let so = o.to_set();
    let r = Set::new(|j: int| 0 <= j < n);
    assert(so =~= r) by {
        assert forall|j: int| so.contains(j) <==> r.contains(j) by {
            if so.contains(j) {
                let t = choose|t: int| 0 <= t < o.len() && o[t] == j;
            }
        }
    }
    assert(o.no_duplicates()) by {
        assert forall|a: int, b: int| 0 <= a < o.len() && 0 <= b < o.len() && a != b implies o[a] != o[b] by {
            if a < b {
            } else {
            }
        }
    }
    o.unique_seq_to_set();
    vstd::set_lib::lemma_int_range(0, n);
    assert(r =~= vstd::set_lib::set_int_range(0, n));
}

} // verus!
