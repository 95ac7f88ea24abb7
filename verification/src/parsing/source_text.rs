//! What the raw text of a source file tells before it is parsed: how many
//! of its lines are comments, and how many `.ok(` calls it makes.
use vstd::prelude::*;
use crate::text::{
    chars_of, contains, contains_exec, find_from, find_from_exec, lemma_find_from_bounds, slice_chars, split,
    split_exec, starts_with, starts_with_exec, trim, trim_exec, vviews,
};

verus! {

/// A line with a final `\r` removed.
pub open spec fn strip_cr(p: Seq<char>) -> Seq<char> {
    if p.len() > 0 && p.last() == '\r' {
        p.drop_last()
    } else {
        p
    }
}

/// The lines of `s` as `str::lines` gives them: the text split at `\n`,
/// a `\r` just before a `\n` dropped, and no line after a final `\n`.
pub open spec fn lines_of(s: Seq<char>) -> Seq<Seq<char>> {
    let ps = split(s, "\n"@);
    let ended = ps.drop_last().map_values(|p: Seq<char>| strip_cr(p));
    if ps.last().len() == 0 {
        ended
    } else {
        ended.push(ps.last())
    }
}

/// One line of the comment scan: the count so far and whether a block
/// comment is open, after the line.
pub open spec fn comment_step(count: nat, in_block: bool, line: Seq<char>) -> (nat, bool) {
    let t = trim(line);
    if in_block {
        (count + 1, !contains(t, "*/"@))
    } else if starts_with(t, "//"@) {
        (count + 1, false)
    } else {
        match find_from(t, "/*"@, 0) {
            Some(pos) => (count + 1, !contains(t.subrange(pos + 2, t.len() as int), "*/"@)),
            None => (count, false),
        }
    }
}

/// The comment scan over the first `k` lines.
pub open spec fn comment_scan(lines: Seq<Seq<char>>, k: int) -> (nat, bool)
    decreases k,
{
    if k <= 0 || k > lines.len() {
        (0, false)
    } else {
        let prev = comment_scan(lines, k - 1);
        comment_step(prev.0, prev.1, lines[k - 1])
    }
}

/// Lines whose first non-blank text is `//`, and lines that a `/* ... */`
/// comment opens, spans or closes.
pub open spec fn comment_lines(source: Seq<char>) -> nat {
    comment_scan(lines_of(source), lines_of(source).len() as int).0
}

/// The lines of a text, computed.
fn lines_exec(s: &Vec<char>) -> (r: Vec<Vec<char>>)
    ensures
        vviews(r@) == lines_of(s@),
{
    let sep = chars_of("\n");
    proof {
        reveal_strlit("\n");
    }
    let ps = split_exec(s, &sep);
    let ghost pv = vviews(ps@);
    let mut r: Vec<Vec<char>> = Vec::new();
    let mut i: usize = 0;
    while i + 1 < ps.len()
        invariant
            i + 1 <= ps.len(),
            pv == vviews(ps@),
            vviews(r@) == Seq::new(i as nat, |j: int| strip_cr(pv[j])),
        decreases ps.len() - i,
    {
        let p = &ps[i];
        let line = if p.len() > 0 && p[p.len() - 1] == '\r' {
            slice_chars(p, 0, p.len() - 1)
        } else {
            p.clone()
        };
        assert(line@ == strip_cr(pv[i as int]));
        let ghost before = vviews(r@);
        r.push(line);
        assert(vviews(r@) =~= before.push(line@));
        assert(vviews(r@) =~= Seq::new((i + 1) as nat, |j: int| strip_cr(pv[j])));
        i += 1;
    }
    assert(vviews(r@) =~= pv.drop_last().map_values(|p: Seq<char>| strip_cr(p)));
    let last = &ps[ps.len() - 1];
    assert(pv.last() == last@);
    if last.len() > 0 {
        let ghost before = vviews(r@);
        r.push(last.clone());
        assert(vviews(r@) =~= before.push(last@));
    }
    r
}

/// Count comment lines in raw source text: lines whose first non-blank text
/// is `//`, and lines inside `/* ... */` block comments.
pub fn count_comment_lines(source: &str) -> (r: usize)
    ensures
        r == comment_lines(source@),
{
    let sv = chars_of(source);
    let lines = lines_exec(&sv);
    let ghost lv = vviews(lines@);
    let open_pat = chars_of("/*");
    let close_pat = chars_of("*/");
    let line_pat = chars_of("//");
    proof {
        reveal_strlit("/*");
    }
    let mut count: usize = 0;
    let mut in_block = false;
    let mut k: usize = 0;
    while k < lines.len()
        invariant
            k <= lines.len(),
            lv == vviews(lines@),
            lv == lines_of(source@),
            open_pat@ == "/*"@,
            open_pat@.len() == 2,
            close_pat@ == "*/"@,
            line_pat@ == "//"@,
            (count as nat, in_block) == comment_scan(lv, k as int),
            count <= k,
        decreases lines.len() - k,
    {
        let t = trim_exec(&lines[k]);
        assert(t@ == trim(lv[k as int]));
        if in_block {
            count += 1;
            if contains_exec(&t, &close_pat) {
                in_block = false;
            }
        } else if starts_with_exec(&t, &line_pat) {
            count += 1;
        } else {
            proof {
                lemma_find_from_bounds(t@, "/*"@, 0);
            }
            match find_from_exec(&t, &open_pat, 0) {
                Some(pos) => {
                    let tl = t.len();
                    assert(pos + 2 <= tl);
                    count += 1;
                    let after = slice_chars(&t, pos + 2, tl);
                    if !contains_exec(&after, &close_pat) {
                        in_block = true;
                    }
                },
                None => {},
            }
        }
        k += 1;
    }
    count
}

/// Non-overlapping occurrences of `pat` from `start` on, left to right (what
/// `str::matches(..).count()` gives).
pub open spec fn matches_from(s: Seq<char>, pat: Seq<char>, start: int) -> nat
    decreases s.len() - start,
{
    if pat.len() == 0 || start < 0 || start > s.len() {
        0
    } else {
        match find_from(s, pat, start) {
            Some(i) => if i >= start && i + pat.len() <= s.len() {
                1 + matches_from(s, pat, i + pat.len())
            } else {
                0
            },
            None => 0,
        }
    }
}

/// Calls of `.ok(` in the text (best effort, no type resolution).
pub open spec fn ok_calls(source: Seq<char>) -> nat {
    matches_from(source, ".ok("@, 0)
}

/// Counts the calls of `.ok(` in the text.
pub fn count_ok_calls(source: &str) -> (r: usize)
    ensures
        r == ok_calls(source@),
{
    let sv = chars_of(source);
    let pat = chars_of(".ok(");
    proof {
        reveal_strlit(".ok(");
    }
    let mut start: usize = 0;
    let mut n: usize = 0;
    while start <= sv.len()
        invariant
            start <= sv.len() + 4,
            pat@ == ".ok("@,
            pat@.len() == 4,
            sv@ == source@,
            n + matches_from(sv@, pat@, start as int) == matches_from(sv@, pat@, 0),
            n <= start,
        decreases sv.len() + 1 - start,
    {
        proof {
            lemma_find_from_bounds(sv@, pat@, start as int);
        }
        match find_from_exec(&sv, &pat, start) {
            Some(i) => {
                n += 1;
                start = i + 4;
            },
            None => {
                assert(matches_from(sv@, pat@, start as int) == 0);
                assert(sv@ == source@);
                return n;
            },
        }
    }
    n
}

/// Number of lines of a text, as `str::lines` counts them.
pub fn count_lines(content: &str) -> (r: usize)
    ensures
        r == lines_of(content@).len(),
{
    let v = chars_of(content);
    let ls = lines_exec(&v);
    ls.len()
}

} // verus!
