//! Naming entropy: files that mix naming conventions (snake_case,
//! camelCase, PascalCase, SCREAMING_SNAKE) in significant proportion, which
//! blurs what a reader, or a model, expects a name to denote.
use vstd::prelude::*;
use vstd::utf8::{encode_scalar, encode_utf8};
use crate::cli::Threshold;
use crate::discovery::files::RustFile;
use crate::parsing::extractor::FileStructure;
use crate::text::{
    char_is_lowercase, char_is_uppercase, chars_of, dec, is_lower, is_upper, join, lex_lt, push_str, string_of,
    strictly_sorted, sviews,
};
use crate::types::{finding_id, kv, kv_num, kv_text, next_finding_id, Finding, FindingKind, Severity};

verus! {

// ---------------------------------------------------------------------------
// Conventions
// ---------------------------------------------------------------------------

/// The conventions, in the order in which they are tried and reported.
pub open spec fn label(i: int) -> Seq<char> {
    if i == 0 {
        "snake_case"@
    } else if i == 1 {
        "SCREAMING_SNAKE"@
    } else if i == 2 {
        "camelCase"@
    } else if i == 3 {
        "PascalCase"@
    } else {
        "other"@
    }
}

fn label_str(i: usize) -> (r: &'static str)
    requires
        i < 5,
    ensures
        r@ == label(i as int),
{
    if i == 0 {
        "snake_case"
    } else if i == 1 {
        "SCREAMING_SNAKE"
    } else if i == 2 {
        "camelCase"
    } else if i == 3 {
        "PascalCase"
    } else {
        "other"
    }
}

pub open spec fn has_underscore(name: Seq<char>) -> bool {
    exists|i: int| 0 <= i < name.len() && name[i] == '_'
}

/// No character is lowercase.
pub open spec fn all_upper(name: Seq<char>) -> bool {
    forall|i: int| 0 <= i < name.len() ==> !is_lower(#[trigger] name[i])
}

/// No character is uppercase.
pub open spec fn all_lower(name: Seq<char>) -> bool {
    forall|i: int| 0 <= i < name.len() ==> !is_upper(#[trigger] name[i])
}

/// Some character at or after `from` is uppercase.
pub open spec fn any_upper_from(name: Seq<char>, from: int) -> bool {
    exists|i: int| from <= i < name.len() && is_upper(#[trigger] name[i])
}

/// Some character at or after `from` is lowercase.
pub open spec fn any_lower_from(name: Seq<char>, from: int) -> bool {
    exists|i: int| from <= i < name.len() && is_lower(#[trigger] name[i])
}

/// The identifier is long enough to classify and none of the first three
/// conventions fits it.
pub open spec fn reaches_pascal_test(name: Seq<char>) -> bool {
    &&& encode_utf8(name).len() >= 3
    &&& !(has_underscore(name) && all_lower(name))
    &&& !(has_underscore(name) && all_upper(name))
    &&& !(name.len() > 0 && is_lower(name[0]) && any_upper_from(name, 0))
}

/// The convention of an identifier (an index into `label`). Names shorter
/// than three bytes are `other`.
pub open spec fn classify_index(name: Seq<char>) -> int {
    if encode_utf8(name).len() < 3 {
        4
    } else if has_underscore(name) && all_lower(name) {
        0
    } else if has_underscore(name) && all_upper(name) {
        1
    } else if name.len() > 0 && is_lower(name[0]) && any_upper_from(name, 0) {
        2
    } else if name.len() > 0 && is_upper(name[0]) && any_lower_from(name, 1) {
        3
    } else {
        4
    }
}

/// The test for PascalCase looks at the text after the first byte, which
/// splits a character when the first one is uppercase and not ASCII.
pub open spec fn splits_first_char(name: Seq<char>) -> bool {
    reaches_pascal_test(name) && name.len() > 0 && is_upper(name[0]) && name[0] > '\x7f'
}

/// Each character takes at least one byte.
proof fn lemma_encode_len_ge(s: Seq<char>)
    ensures
        encode_utf8(s).len() >= s.len(),
    decreases s.len(),
{
    if s.len() > 0 {
        lemma_encode_len_ge(s.drop_first());
    }
}

/// A text takes fewer than three bytes exactly when it is empty, one
/// character of at most two bytes, or two ASCII characters.
proof fn lemma_short_encoding(s: Seq<char>)
    ensures
        (encode_utf8(s).len() < 3) == (s.len() == 0 || (s.len() == 1 && (s[0] as u32) <= 0x7ff) || (s.len() == 2
            && (s[0] as u32) <= 0x7f && (s[1] as u32) <= 0x7f)),
{
    lemma_encode_len_ge(s);
    if s.len() == 1 || s.len() == 2 {
        let t = s.drop_first();
        assert(encode_utf8(s) == encode_scalar(s[0] as u32) + encode_utf8(t));
        if s.len() == 2 {
            assert(t.drop_first().len() == 0);
            assert(encode_utf8(t) == encode_scalar(t[0] as u32) + encode_utf8(t.drop_first()));
            assert(t[0] == s[1]);
        }
    }
}

/// The convention of an identifier, computed.
fn classify_identifier(name: &str) -> (r: usize)
    requires
        !splits_first_char(name@),
    ensures
        r == classify_index(name@),
        r < 5,
{
    let cs = chars_of(name);
    proof {
        lemma_short_encoding(name@);
    }
    if cs.len() == 0 || (cs.len() == 1 && (cs[0] as u32) <= 0x7ff) || (cs.len() == 2 && (cs[0] as u32) <= 0x7f
        && (cs[1] as u32) <= 0x7f) {
        return 4;
    }
    let mut underscore = false;
    let mut no_lower = true;
    let mut no_upper = true;
    let mut i: usize = 0;
    while i < cs.len()
        invariant
            i <= cs.len(),
            cs@ == name@,
            underscore == exists|j: int| 0 <= j < i && cs@[j] == '_',
            no_lower == forall|j: int| 0 <= j < i ==> !is_lower(#[trigger] cs@[j]),
            no_upper == forall|j: int| 0 <= j < i ==> !is_upper(#[trigger] cs@[j]),
        decreases cs.len() - i,
    {
        let c = cs[i];
        if c == '_' {
            underscore = true;
        }
        if char_is_lowercase(c) {
            no_lower = false;
        }
        if char_is_uppercase(c) {
            no_upper = false;
        }
        i += 1;
    }
    if underscore && no_upper {
        return 0;
    }
    if underscore && no_lower {
        return 1;
    }
    let first_upper = cs.len() > 0 && char_is_uppercase(cs[0]);
    let first_lower = cs.len() > 0 && char_is_lowercase(cs[0]);
    if first_lower && !no_upper {
        return 2;
    }
    if first_upper {
        assert(underscore == has_underscore(name@));
        assert(no_upper == all_lower(name@));
        assert(no_lower == all_upper(name@));
        assert(!no_upper == any_upper_from(name@, 0));
        let mut k: usize = 1;
        while k < cs.len()
            invariant
                1 <= k <= cs.len(),
                cs@ == name@,
                encode_utf8(name@).len() >= 3,
                !(has_underscore(name@) && all_lower(name@)),
                !(has_underscore(name@) && all_upper(name@)),
                !(name@.len() > 0 && is_lower(name@[0]) && any_upper_from(name@, 0)),
                name@.len() > 0 && is_upper(name@[0]),
                forall|j: int| 1 <= j < k ==> !is_lower(#[trigger] cs@[j]),
            decreases cs.len() - k,
        {
            if char_is_lowercase(cs[k]) {
                assert(is_lower(name@[k as int]));
                assert(any_lower_from(name@, 1));
                return 3;
            }
            k += 1;
        }
    }
    4
}

// ---------------------------------------------------------------------------
// Counting
// ---------------------------------------------------------------------------

/// How many of the first `k` identifiers follow convention `c`.
pub open spec fn count_upto(ids: Seq<Seq<char>>, c: int, k: int) -> nat
    decreases k,
{
    if k <= 0 || k > ids.len() {
        0
    } else {
        count_upto(ids, c, k - 1) + if classify_index(ids[k - 1]) == c {
            1nat
        } else {
            0nat
        }
    }
}

/// Identifiers per convention, in label order.
pub open spec fn counts_of(structure: FileStructure) -> Seq<usize> {
    let ids = sviews(structure.all_identifiers@);
    Seq::new(5, |c: int| count_upto(ids, c, ids.len() as int) as usize)
}

pub open spec fn total(cs: Seq<usize>) -> nat {
    (cs[0] + cs[1] + cs[2] + cs[3] + cs[4]) as nat
}

/// `ceil(total * 0.05)`: a convention is in significant use above it.
pub open spec fn cutoff(total: nat) -> nat {
    (total + 19) / 20
}

/// Conventions among the first `j` in significant use.
pub open spec fn active_upto(cs: Seq<usize>, j: int) -> nat
    decreases j,
{
    if j <= 0 {
        0
    } else {
        active_upto(cs, j - 1) + if cs[j - 1] > cutoff(total(cs)) {
            1nat
        } else {
            0nat
        }
    }
}

pub open spec fn active(cs: Seq<usize>) -> nat {
    active_upto(cs, 5)
}

/// The first of the first `j` conventions with the largest count.
pub open spec fn dominant_upto(cs: Seq<usize>, j: int) -> int
    decreases j,
{
    if j <= 1 {
        0
    } else {
        let d = dominant_upto(cs, j - 1);
        if cs[j - 1] > cs[d] {
            j - 1
        } else {
            d
        }
    }
}

/// The label index at position `p` when the labels are put in `String`
/// order: `PascalCase`, `SCREAMING_SNAKE`, `camelCase`, `other`, `snake_case`.
pub open spec fn json_pos(p: int) -> int {
    if p == 0 {
        3
    } else if p == 1 {
        1
    } else if p == 2 {
        2
    } else if p == 3 {
        4
    } else {
        0
    }
}

/// The conventions that occur, with their counts, among the first `p` in
/// `String` order of their labels.
pub open spec fn present_sorted_upto(cs: Seq<usize>, p: int) -> Seq<(Seq<char>, usize)>
    decreases p,
{
    if p <= 0 {
        seq![]
    } else {
        let prev = present_sorted_upto(cs, p - 1);
        let i = json_pos(p - 1);
        if cs[i] > 0 {
            prev.push((label(i), cs[i]))
        } else {
            prev
        }
    }
}

/// The labels in `String` order are strictly sorted and plain JSON keys.
proof fn lemma_labels_sorted()
    ensures
        forall|a: int, b: int| 0 <= a < b < 5 ==> lex_lt(#[trigger] label(json_pos(a)), #[trigger] label(json_pos(b))),
        forall|a: int| 0 <= a < 5 ==> json_plain(#[trigger] label(json_pos(a))),
{
    reveal_strlit("snake_case");
    reveal_strlit("SCREAMING_SNAKE");
    reveal_strlit("camelCase");
    reveal_strlit("PascalCase");
    reveal_strlit("other");
    assert(label(json_pos(0))[0] == 'P');
    assert(label(json_pos(1))[0] == 'S');
    assert(label(json_pos(2))[0] == 'c');
    assert(label(json_pos(3))[0] == 'o');
    assert(label(json_pos(4))[0] == 's');
    assert forall|a: int| 0 <= a < 5 implies json_plain(#[trigger] label(json_pos(a))) by {
        let k = label(json_pos(a));
        assert forall|i: int| 0 <= i < k.len() implies #[trigger] k[i] >= ' ' && k[i] != '"' && k[i] != '\\' by {
        }
    }
}

/// The present conventions in `String` order have strictly sorted, plain keys.
proof fn lemma_present_sorted(cs: Seq<usize>, p: int)
    requires
        0 <= p <= 5,
        cs.len() == 5,
    ensures
        strictly_sorted(json_keys(present_sorted_upto(cs, p))),
        forall|t: int|
            0 <= t < present_sorted_upto(cs, p).len() ==> json_plain(#[trigger] present_sorted_upto(cs, p)[t].0),
        forall|t: int|
            0 <= t < present_sorted_upto(cs, p).len() ==> exists|q: int|
                0 <= q < p && #[trigger] present_sorted_upto(cs, p)[t].0 == label(json_pos(q)),
    decreases p,
{
    lemma_labels_sorted();
    if p > 0 {
        lemma_present_sorted(cs, p - 1);
        let prev = present_sorted_upto(cs, p - 1);
        let cur = present_sorted_upto(cs, p);
        let i = json_pos(p - 1);
        if cs[i] > 0 {
            let new_key = label(json_pos(p - 1));
            assert forall|t: int| 0 <= t < cur.len() implies exists|q: int|
                0 <= q < p && #[trigger] cur[t].0 == label(json_pos(q)) by {
                if t < prev.len() {
                    assert(cur[t] == prev[t]);
                    let q = choose|q: int| 0 <= q < p - 1 && #[trigger] prev[t].0 == label(json_pos(q));
                } else {
                    assert(cur[t].0 == label(json_pos(p - 1)));
                }
            }
            assert forall|t: int| 0 <= t < cur.len() implies json_plain(#[trigger] cur[t].0) by {
                if t < prev.len() {
                    assert(cur[t] == prev[t]);
                } else {
                    assert(json_plain(label(json_pos(p - 1))));
                }
            }
            let ks = json_keys(cur);
            assert forall|a: int, b: int| 0 <= a < b < ks.len() implies lex_lt(#[trigger] ks[a], #[trigger] ks[b]) by {
                assert(ks[a] == cur[a].0 && ks[b] == cur[b].0);
                if b < prev.len() {
                    assert(cur[a] == prev[a] && cur[b] == prev[b]);
                    assert(json_keys(prev)[a] == prev[a].0 && json_keys(prev)[b] == prev[b].0);
                } else {
                    assert(cur[a] == prev[a]);
                    let q = choose|q: int| 0 <= q < p - 1 && #[trigger] prev[a].0 == label(json_pos(q));
                    assert(cur[b].0 == label(json_pos(p - 1)));
                    assert(lex_lt(label(json_pos(q)), label(json_pos(p - 1))));
                }
            }
        } else {
            assert(cur == prev);
            assert forall|t: int| 0 <= t < cur.len() implies exists|q: int|
                0 <= q < p && #[trigger] cur[t].0 == label(json_pos(q)) by {
                let q = choose|q: int| 0 <= q < p - 1 && #[trigger] prev[t].0 == label(json_pos(q));
            }
        }
    }
}

/// At least ten identifiers and three conventions in significant use.
pub open spec fn fires_on(cs: Seq<usize>) -> bool {
    total(cs) >= 10 && active(cs) >= 3
}

pub open spec fn expected_from(file: RustFile, cs: Seq<usize>, counts_json: Seq<char>, n: nat, f: Finding) -> bool {
    f.is(
        finding_id("ne"@, n),
        FindingKind::NamingEntropy,
        Severity::Low,
        50,
        file.relative_path@,
        Seq::empty(),
        Seq::empty(),
        seq![
            kv("convention_counts"@, counts_json),
            kv("dominant_convention"@, label(dominant_upto(cs, 5))),
            kv("mixed_count"@, dec(active(cs))),
        ],
        Seq::empty(),
        None,
    )
}

/// The JSON text that `serde_json::to_string` gives for an object with
/// these keys and integer values.
pub uninterp spec fn json_counts(entries: Seq<(Seq<char>, usize)>) -> Seq<char>;

/// A key that JSON writes as it is: no quote, no backslash, no control character.
pub open spec fn json_plain(k: Seq<char>) -> bool {
    forall|i: int| 0 <= i < k.len() ==> #[trigger] k[i] >= ' ' && k[i] != '"' && k[i] != '\\'
}

/// The keys of the entries.
pub open spec fn json_keys(es: Seq<(Seq<char>, usize)>) -> Seq<Seq<char>> {
    es.map_values(|e: (Seq<char>, usize)| e.0)
}

/// `"key":value`.
pub open spec fn json_member(e: (Seq<char>, usize)) -> Seq<char> {
    "\""@ + e.0 + "\":"@ + dec(e.1 as nat)
}

/// The compact JSON object of the entries, in their order.
pub open spec fn json_object(es: Seq<(Seq<char>, usize)>) -> Seq<char> {
    "{"@ + join(es.map_values(|e: (Seq<char>, usize)| json_member(e)), ","@) + "}"@
}

/// `serde_json::to_string` of a `serde_json::Map` from each key to its
/// count. The map keeps its keys in `String` order, and the compact writer
/// puts out `{`, the `"key":value` members separated by `,`, and `}`; a key
/// without quote, backslash or control character is written as it is. So
/// when the keys come strictly sorted and plain, the text is stated; for
/// other entries it is named.
#[verifier::external_body]
fn counts_json(entries: &Vec<(String, usize)>) -> (r: String)
    ensures
        r@ == json_counts(entries@.map_values(|e: (String, usize)| (e.0@, e.1))),
        ({
            let es = entries@.map_values(|e: (String, usize)| (e.0@, e.1));
            strictly_sorted(json_keys(es)) && (forall|t: int| 0 <= t < es.len() ==> json_plain(#[trigger] es[t].0))
                ==> r@ == json_object(es)
        }),
{
    let map: serde_json::Map<String, serde_json::Value> =
        entries.iter().map(|(key, count)| (key.clone(), serde_json::Value::from(*count))).collect();
    serde_json::to_string(&map).unwrap_or_default()
}

/// The naming-entropy finding for identifier counts `counts` (per
/// convention, in label order) rendered as `counts_json`: none below ten
/// identifiers or with fewer than three conventions above `cutoff`.
pub fn finding_from_counts(file: &RustFile, counts: &Vec<usize>, counts_json: &str, counter: &mut usize) -> (r: Option<Finding>)
    requires
        counts.len() == 5,
        total(counts@) <= usize::MAX,
        fires_on(counts@) ==> *old(counter) < usize::MAX,
    ensures
        r is Some <==> fires_on(counts@),
        r is None ==> *final(counter) == *old(counter),
        r matches Some(f) ==> *final(counter) == *old(counter) + 1 && expected_from(
            *file,
            counts@,
            counts_json@,
            *final(counter) as nat,
            f,
        ),
{
    let sum = counts[0] + counts[1] + counts[2] + counts[3] + counts[4];
    if sum < 10 {
        return None;
    }
    let cut = (sum / 20) + if sum % 20 == 0 { 0 } else { 1 };
    assert(cut == cutoff(sum as nat));
    let mut act: usize = 0;
    let mut dom: usize = 0;
    let mut j: usize = 0;
    while j < 5
        invariant
            j <= 5,
            counts.len() == 5,
            sum == total(counts@),
            cut == cutoff(total(counts@)),
            act as nat == active_upto(counts@, j as int),
            act <= j,
            j >= 1 ==> dom as int == dominant_upto(counts@, j as int),
            j == 0 ==> dom == 0,
            dom < 5,
        decreases 5 - j,
    {
        if counts[j] > cut {
            act += 1;
        }
        if j >= 1 && counts[j] > counts[dom] {
            dom = j;
        }
        j += 1;
    }
    if act < 3 {
        return None;
    }
    let id = next_finding_id("ne", counter);
    let mut evidence: Vec<String> = Vec::new();
    evidence.push(kv_text("convention_counts", &chars_of(counts_json)));
    evidence.push(kv_text("dominant_convention", &chars_of(label_str(dom))));
    evidence.push(kv_num("mixed_count", act));
    assert(sviews(evidence@) =~= seq![
        kv("convention_counts"@, counts_json@),
        kv("dominant_convention"@, label(dominant_upto(counts@, 5))),
        kv("mixed_count"@, dec(active(counts@))),
    ]);
    Some(Finding::new(id, FindingKind::NamingEntropy, Severity::Low, 50, file.relative_path.clone(), evidence))
}

proof fn lemma_count_le(ids: Seq<Seq<char>>, c: int, k: int)
    requires
        0 <= k <= ids.len(),
    ensures
        count_upto(ids, c, k) <= k,
    decreases k,
{
    if k > 0 {
        lemma_count_le(ids, c, k - 1);
    }
}

/// Every identifier has exactly one convention.
proof fn lemma_counts_sum(ids: Seq<Seq<char>>, k: int)
    requires
        0 <= k <= ids.len(),
    ensures
        count_upto(ids, 0, k) + count_upto(ids, 1, k) + count_upto(ids, 2, k) + count_upto(ids, 3, k) + count_upto(
            ids,
            4,
            k,
        ) == k,
    decreases k,
{
    if k > 0 {
        lemma_counts_sum(ids, k - 1);
    }
}

pub fn analyze(file: &RustFile, structure: &FileStructure, _threshold: &Threshold, counter: &mut usize) -> (r: Option<Finding>)
    requires
        structure.all_identifiers@.len() >= 10 ==> forall|i: int|
            0 <= i < structure.all_identifiers@.len() ==> !splits_first_char(
                #[trigger] structure.all_identifiers@[i]@,
            ),
        fires_on(counts_of(*structure)) ==> *old(counter) < usize::MAX,
    ensures
        r is Some <==> fires_on(counts_of(*structure)),
        r is None ==> *final(counter) == *old(counter),
        r matches Some(f) ==> *final(counter) == *old(counter) + 1 && expected_from(
            *file,
            counts_of(*structure),
            json_object(present_sorted_upto(counts_of(*structure), 5)),
            *final(counter) as nat,
            f,
        ),
{
    let ids = &structure.all_identifiers;
    let ghost iv = sviews(ids@);
    let n = ids.len();
    assert(iv.len() == n);
    proof {
        lemma_counts_sum(iv, iv.len() as int);
        lemma_count_le(iv, 0, iv.len() as int);
        lemma_count_le(iv, 1, iv.len() as int);
        lemma_count_le(iv, 2, iv.len() as int);
        lemma_count_le(iv, 3, iv.len() as int);
        lemma_count_le(iv, 4, iv.len() as int);
    }
    assert(counts_of(*structure).len() == 5);
    assert(total(counts_of(*structure)) == ids.len()) by {
        let cs = counts_of(*structure);
        assert(cs[0] as nat == count_upto(iv, 0, iv.len() as int));
        assert(cs[1] as nat == count_upto(iv, 1, iv.len() as int));
        assert(cs[2] as nat == count_upto(iv, 2, iv.len() as int));
        assert(cs[3] as nat == count_upto(iv, 3, iv.len() as int));
        assert(cs[4] as nat == count_upto(iv, 4, iv.len() as int));
    }
    if ids.len() < 10 {
        return None;
    }
    let mut counts: Vec<usize> = vec![0, 0, 0, 0, 0];
    let mut k: usize = 0;
    while k < ids.len()
        invariant
            k <= ids.len(),
            ids.len() >= 10,
            iv == sviews(ids@),
            ids@ == structure.all_identifiers@,
            forall|i: int| 0 <= i < ids@.len() ==> !splits_first_char(#[trigger] ids@[i]@),
            counts.len() == 5,
            forall|c: int| 0 <= c < 5 ==> #[trigger] counts@[c] as nat == count_upto(iv, c, k as int),
        decreases ids.len() - k,
    {
        proof {
            lemma_count_le(iv, 0, k as int);
            lemma_count_le(iv, 1, k as int);
            lemma_count_le(iv, 2, k as int);
            lemma_count_le(iv, 3, k as int);
            lemma_count_le(iv, 4, k as int);
        }
        assert(!splits_first_char(ids@[k as int]@));
        let c = classify_identifier(ids[k].as_str());
        assert(iv[k as int] == ids@[k as int]@);
        let v = counts[c] + 1;
        counts.set(c, v);
        k += 1;
    }
    assert(counts@ =~= counts_of(*structure));
    let mut entries: Vec<(String, usize)> = Vec::new();
    let mut j: usize = 0;
    while j < 5
        invariant
            j <= 5,
            counts.len() == 5,
            entries@.map_values(|e: (String, usize)| (e.0@, e.1)) == present_sorted_upto(counts@, j as int),
        decreases 5 - j,
    {
        let i: usize = if j == 0 {
            3
        } else if j == 1 {
            1
        } else if j == 2 {
            2
        } else if j == 3 {
            4
        } else {
            0
        };
        assert(i as int == json_pos(j as int));
        if counts[i] > 0 {
            let ghost before = entries@;
            entries.push((string_of(&chars_of(label_str(i))), counts[i]));
            assert(entries@.map_values(|e: (String, usize)| (e.0@, e.1)) =~= before.map_values(
                |e: (String, usize)| (e.0@, e.1),
            ).push((label(i as int), counts@[i as int])));
        }
        j += 1;
    }
    proof {
        lemma_present_sorted(counts@, 5);
        let es = entries@.map_values(|e: (String, usize)| (e.0@, e.1));
        assert forall|t: int| 0 <= t < es.len() implies json_plain(#[trigger] es[t].0) by {
            assert(es[t] == present_sorted_upto(counts@, 5)[t]);
        }
    }
    if !fires_cheap(&counts) {
        return None;
    }
    let json = counts_json(&entries);
    finding_from_counts(file, &counts, json.as_str(), counter)
}

/// Whether classifying `name` would split its first character, computed.
pub fn splits_first_char_exec(name: &str) -> (b: bool)
    ensures
        b == splits_first_char(name@),
{
    let cs = chars_of(name);
    proof {
        lemma_short_encoding(name@);
    }
    if cs.len() == 0 || (cs.len() == 1 && (cs[0] as u32) <= 0x7ff) || (cs.len() == 2 && (cs[0] as u32) <= 0x7f
        && (cs[1] as u32) <= 0x7f) {
        return false;
    }
    let mut underscore = false;
    let mut no_lower = true;
    let mut no_upper = true;
    let mut i: usize = 0;
    while i < cs.len()
        invariant
            i <= cs.len(),
            cs@ == name@,
            underscore == exists|j: int| 0 <= j < i && cs@[j] == '_',
            no_lower == forall|j: int| 0 <= j < i ==> !is_lower(#[trigger] cs@[j]),
            no_upper == forall|j: int| 0 <= j < i ==> !is_upper(#[trigger] cs@[j]),
        decreases cs.len() - i,
    {
        let c = cs[i];
        if c == '_' {
            underscore = true;
        }
        if char_is_lowercase(c) {
            no_lower = false;
        }
        if char_is_uppercase(c) {
            no_upper = false;
        }
        i += 1;
    }
    assert(underscore == has_underscore(name@));
    assert(no_upper == all_lower(name@));
    assert(no_lower == all_upper(name@));
    assert(!no_upper == any_upper_from(name@, 0));
    let first_upper = char_is_uppercase(cs[0]);
    let first_lower = char_is_lowercase(cs[0]);
    if underscore && no_upper {
        return false;
    }
    if underscore && no_lower {
        return false;
    }
    if first_lower && !no_upper {
        return false;
    }
    first_upper && cs[0] > '\x7f'
}

/// The naming-entropy finding, where one can be computed: none when the
/// file has ten or more identifiers and one of them starts with a non-ASCII
/// capital that the convention test would split; otherwise what `analyze`
/// gives.
pub fn analyze_checked(file: &RustFile, structure: &FileStructure, threshold: &Threshold, counter: &mut usize) -> (r:
    Option<Option<Finding>>)
    requires
        *old(counter) < usize::MAX,
    ensures
        r is None <==> structure.all_identifiers@.len() >= 10 && exists|i: int|
            0 <= i < structure.all_identifiers@.len() && splits_first_char(
                #[trigger] structure.all_identifiers@[i]@,
            ),
        r is None ==> *final(counter) == *old(counter),
        r matches Some(x) ==> (x is Some <==> fires_on(counts_of(*structure))),
        r matches Some(x) ==> (x is None ==> *final(counter) == *old(counter)),
        r matches Some(x) ==> (x matches Some(f) ==> *final(counter) == *old(counter) + 1 && expected_from(
            *file,
            counts_of(*structure),
            json_object(present_sorted_upto(counts_of(*structure), 5)),
            *final(counter) as nat,
            f,
        )),
{
    let ids = &structure.all_identifiers;
    if ids.len() >= 10 {
        let mut i: usize = 0;
        while i < ids.len()
            invariant
                i <= ids.len(),
                ids.len() >= 10,
                ids@ == structure.all_identifiers@,
                forall|j: int| 0 <= j < i ==> !splits_first_char(#[trigger] ids@[j]@),
            decreases ids.len() - i,
        {
            if splits_first_char_exec(ids[i].as_str()) {
                assert(splits_first_char(structure.all_identifiers@[i as int]@));
                return None;
            }
            i += 1;
        }
    }
    Some(analyze(file, structure, threshold, counter))
}

/// Whether the counts fire, computed.
fn fires_cheap(counts: &Vec<usize>) -> (b: bool)
    requires
        counts.len() == 5,
        total(counts@) <= usize::MAX,
    ensures
        b == fires_on(counts@),
{
    let sum = counts[0] + counts[1] + counts[2] + counts[3] + counts[4];
    if sum < 10 {
        return false;
    }
    let cut = (sum / 20) + if sum % 20 == 0 { 0 } else { 1 };
    let mut act: usize = 0;
    let mut j: usize = 0;
    while j < 5
        invariant
            j <= 5,
            counts.len() == 5,
            cut == cutoff(total(counts@)),
            act as nat == active_upto(counts@, j as int),
            act <= j,
        decreases 5 - j,
    {
        if counts[j] > cut {
            act += 1;
        }
        j += 1;
    }
    act >= 3
}

} // verus!
