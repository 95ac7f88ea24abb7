//! Character-sequence specifications and the executable helpers that meet them.
//!
//! Strings are reasoned about through their views (`Seq<char>`). The spec
//! functions here give the meaning of the few text operations the analyzers
//! need (decimal rendering, searching, splitting, joining, trimming), and the
//! executable functions are proved against them.
use vstd::prelude::*;
use vstd::utf8::encode_utf8;

verus! {

// ---------------------------------------------------------------------------
// Trusted std calls
// ---------------------------------------------------------------------------

/// `String::push`: appends one character at the end of the string.
#[verifier::external_body]
pub fn push_char(s: &mut String, c: char)
    ensures
        final(s)@ == old(s)@.push(c),
{
    s.push(c);
}

/// The Unicode `White_Space` property, which `char::is_whitespace` reports:
/// the code points U+0009 to U+000D, U+0020, U+0085, U+00A0, U+1680,
/// U+2000 to U+200A, U+2028, U+2029, U+202F, U+205F and U+3000.
#[verifier::opaque]
pub open spec fn is_ws(c: char) -> bool {
    ||| '\u{9}' <= c <= '\u{d}'
    ||| c == ' '
    ||| c == '\u{85}'
    ||| c == '\u{a0}'
    ||| c == '\u{1680}'
    ||| '\u{2000}' <= c <= '\u{200a}'
    ||| c == '\u{2028}'
    ||| c == '\u{2029}'
    ||| c == '\u{202f}'
    ||| c == '\u{205f}'
    ||| c == '\u{3000}'
}

/// Whether `c` has the Unicode `White_Space` property (what
/// `char::is_whitespace` reports), checked against its list of code points.
pub fn char_is_whitespace(c: char) -> (b: bool)
    ensures
        b == is_ws(c),
        (c == ' ' || c == '\t' || c == '\n' || c == '\r') ==> b,
        ('!' <= c <= '~') ==> !b,
{
    proof {
        reveal(is_ws);
    }
    let u: u32 = c as u32;
    (0x9 <= u && u <= 0xd) || u == 0x20 || u == 0x85 || u == 0xa0 || u == 0x1680 || (0x2000 <= u && u <= 0x200a)
        || u == 0x2028 || u == 0x2029 || u == 0x202f || u == 0x205f || u == 0x3000
}

/// The Unicode `Lowercase` property, as `char::is_lowercase` reports it.
pub uninterp spec fn is_lower(c: char) -> bool;

/// The Unicode `Uppercase` property, as `char::is_uppercase` reports it.
pub uninterp spec fn is_upper(c: char) -> bool;

/// `char::is_lowercase`: whether `c` has the Unicode `Lowercase` property.
/// The contract names that property and states what it is on ASCII: exactly
/// the letters `a` to `z`.
#[verifier::external_body]
pub fn char_is_lowercase(c: char) -> (b: bool)
    ensures
        b == is_lower(c),
        c <= '\x7f' ==> (b <==> ('a' <= c <= 'z')),
{
    c.is_lowercase()
}

/// `char::is_uppercase`: whether `c` has the Unicode `Uppercase` property.
/// The contract names that property and states what it is on ASCII: exactly
/// the letters `A` to `Z`.
#[verifier::external_body]
pub fn char_is_uppercase(c: char) -> (b: bool)
    ensures
        b == is_upper(c),
        c <= '\x7f' ==> (b <==> ('A' <= c <= 'Z')),
{
    c.is_uppercase()
}

// ---------------------------------------------------------------------------
// Decimal rendering
// ---------------------------------------------------------------------------

pub open spec fn digit(d: nat) -> char {
    ((d + 48) as u8) as char
}

/// Decimal rendering of a natural number, as `{}` prints an unsigned integer.
pub open spec fn dec(n: nat) -> Seq<char>
    decreases n,
{
    if n < 10 {
        seq![digit(n)]
    } else {
        dec(n / 10).push(digit(n % 10))
    }
}

pub open spec fn zeros(k: nat) -> Seq<char> {
    Seq::new(k, |i: int| '0')
}

/// `{:0w}` rendering: decimal, left-padded with zeros to width `w`.
pub open spec fn dec_padded(n: nat, w: nat) -> Seq<char> {
    if dec(n).len() >= w {
        dec(n)
    } else {
        zeros((w - dec(n).len()) as nat) + dec(n)
    }
}

/// `true`/`false` as `{}` prints a boolean.
pub open spec fn bool_text(b: bool) -> Seq<char> {
    if b {
        "true"@
    } else {
        "false"@
    }
}

pub proof fn lemma_dec_nonempty(n: nat)
    ensures
        dec(n).len() >= 1,
    decreases n,
{
    if n >= 10 {
        lemma_dec_nonempty(n / 10);
    }
}

pub fn digit_char(d: u8) -> (c: char)
    requires
        d < 10,
    ensures
        c == digit(d as nat),
{
    (d + 48) as char
}

/// Appends the decimal rendering of `n` to `out`.
pub fn push_dec(out: &mut Vec<char>, n: u64)
    ensures
        final(out)@ == old(out)@ + dec(n as nat),
    decreases n,
{
    if n >= 10 {
        push_dec(out, n / 10);
    }
    let d = (n % 10) as u8;
    out.push(digit_char(d));
    proof {
        if n >= 10 {
            assert(dec(n as nat) == dec((n / 10) as nat).push(digit((n % 10) as nat)));
        }
    }
    assert(out@ =~= old(out)@ + dec(n as nat));
}

/// Appends `{:03}` of `n` to `out`.
pub fn push_dec3(out: &mut Vec<char>, n: u64)
    ensures
        final(out)@ == old(out)@ + dec_padded(n as nat, 3),
{
    let ghost d = dec(n as nat);
    if n < 10 {
        out.push('0');
        out.push('0');
        assert(d.len() == 1);
        assert(zeros(2) =~= seq!['0', '0']);
    } else if n < 100 {
        out.push('0');
        assert(dec((n / 10) as nat).len() == 1);
        assert(d.len() == 2);
        assert(zeros(1) =~= seq!['0']);
    } else {
        proof {
            lemma_dec_len_ge3(n as nat);
        }
    }
    let ghost mid = out@;
    push_dec(out, n);
    assert(out@ =~= old(out)@ + dec_padded(n as nat, 3));
}

proof fn lemma_dec_len_ge3(n: nat)
    requires
        n >= 100,
    ensures
        dec(n).len() >= 3,
{
    lemma_dec_nonempty(n / 100);
    assert(dec(n / 10) == dec(n / 10 / 10).push(digit((n / 10) % 10)));
    assert(n / 10 / 10 == n / 100);
}

/// Appends the characters of `s` to `out`.
pub fn push_str(out: &mut Vec<char>, s: &str)
    ensures
        final(out)@ == old(out)@ + s@,
{
    for c in it: s.chars()
        invariant
            out@ == old(out)@ + it.seq().take(it.index() as int),
    {
        out.push(c);
    }
    assert(out@ =~= old(out)@ + s@);
}

/// Appends the characters of `s` to `out`.
pub fn push_vec(out: &mut Vec<char>, s: &Vec<char>)
    ensures
        final(out)@ == old(out)@ + s@,
{
    let mut i: usize = 0;
    while i < s.len()
        invariant
            i <= s.len(),
            out@ == old(out)@ + s@.take(i as int),
        decreases s.len() - i,
    {
        out.push(s[i]);
        assert(s@.take(i as int).push(s@[i as int]) =~= s@.take(i + 1));
        i += 1;
    }
    assert(s@.take(s.len() as int) =~= s@);
}

/// The characters of a string slice.
pub fn chars_of(s: &str) -> (v: Vec<char>)
    ensures
        v@ == s@,
{
    let mut v: Vec<char> = Vec::new();
    push_str(&mut v, s);
    v
}

/// A string holding the given characters.
pub fn string_of(v: &Vec<char>) -> (s: String)
    ensures
        s@ == v@,
{
    let mut s = String::new();
    let mut i: usize = 0;
    while i < v.len()
        invariant
            i <= v.len(),
            s@ == v@.take(i as int),
        decreases v.len() - i,
    {
        push_char(&mut s, v[i]);
        assert(v@.take(i as int).push(v@[i as int]) =~= v@.take(i + 1));
        i += 1;
    }
    assert(v@.take(v.len() as int) =~= v@);
    s
}

// ---------------------------------------------------------------------------
// Views of collections of text
// ---------------------------------------------------------------------------

pub open spec fn vviews(v: Seq<Vec<char>>) -> Seq<Seq<char>> {
    v.map_values(|x: Vec<char>| x@)
}

pub open spec fn sviews(v: Seq<String>) -> Seq<Seq<char>> {
    v.map_values(|x: String| x@)
}

// ---------------------------------------------------------------------------
// Searching
// ---------------------------------------------------------------------------

/// `pat` occurs in `s` starting at index `i`.
pub open spec fn occurs_at(s: Seq<char>, pat: Seq<char>, i: int) -> bool {
    0 <= i && i + pat.len() <= s.len() && s.subrange(i, i + pat.len()) == pat
}

/// First index `>= start` at which `pat` occurs in `s`, as `str::find` on the
/// suffix reports it.
pub open spec fn find_from(s: Seq<char>, pat: Seq<char>, start: int) -> Option<int>
    decreases s.len() - start,
{
    if start < 0 || start + pat.len() > s.len() {
        None
    } else if pat.len() == 0 || occurs_at(s, pat, start) {
        Some(start)
    } else {
        find_from(s, pat, start + 1)
    }
}

/// `str::contains` with a string pattern.
pub open spec fn contains(s: Seq<char>, pat: Seq<char>) -> bool {
    find_from(s, pat, 0) is Some
}

/// `str::starts_with` with a string pattern.
pub open spec fn starts_with(s: Seq<char>, p: Seq<char>) -> bool {
    p.len() <= s.len() && s.subrange(0, p.len() as int) == p
}

/// `str::ends_with` with a string pattern.
pub open spec fn ends_with(s: Seq<char>, p: Seq<char>) -> bool {
    p.len() <= s.len() && s.subrange(s.len() - p.len(), s.len() as int) == p
}

pub proof fn lemma_find_from_bounds(s: Seq<char>, pat: Seq<char>, start: int)
    requires
        start >= 0,
    ensures
        find_from(s, pat, start) matches Some(i) ==> start <= i && i + pat.len() <= s.len()
            && occurs_at(s, pat, i) && (forall|j: int| start <= j < i ==> !occurs_at(s, pat, j)),
        find_from(s, pat, start) is None ==> (forall|j: int| start <= j ==> !occurs_at(s, pat, j)),
    decreases s.len() - start,
{
    if start + pat.len() > s.len() {
    } else if pat.len() == 0 || occurs_at(s, pat, start) {
        if pat.len() == 0 {
            assert(s.subrange(start, start + pat.len()) =~= pat);
        }
    } else {
        lemma_find_from_bounds(s, pat, start + 1);
    }
}

/// `pat` occurs at `i`, checked character by character.
pub fn occurs_at_exec(s: &Vec<char>, pat: &Vec<char>, i: usize) -> (b: bool)
    ensures
        b == occurs_at(s@, pat@, i as int),
{
    if i > s.len() || pat.len() > s.len() - i {
        return false;
    }
    let mut k: usize = 0;
    while k < pat.len()
        invariant
            i + pat.len() <= s.len(),
            k <= pat.len(),
            forall|j: int| 0 <= j < k ==> s@[i + j] == pat@[j],
        decreases pat.len() - k,
    {
        if s[i + k] != pat[k] {
            assert(s@.subrange(i as int, i + pat.len())[k as int] != pat@[k as int]);
            return false;
        }
        k += 1;
    }
    assert(s@.subrange(i as int, i + pat.len()) =~= pat@);
    true
}

/// First occurrence of `pat` in `s` at or after `start`.
pub fn find_from_exec(s: &Vec<char>, pat: &Vec<char>, start: usize) -> (r: Option<usize>)
    ensures
        r matches Some(i) ==> find_from(s@, pat@, start as int) == Some(i as int),
        r is None ==> find_from(s@, pat@, start as int) is None,
{
    if start > s.len() || pat.len() > s.len() - start {
        return None;
    }
    let mut i = start;
    while i <= s.len() - pat.len()
        invariant
            start <= i,
            pat.len() <= s.len(),
            i <= s.len(),
            find_from(s@, pat@, start as int) == find_from(s@, pat@, i as int),
        decreases s.len() - i,
    {
        if pat.len() == 0 || occurs_at_exec(s, pat, i) {
            return Some(i);
        }
        i += 1;
    }
    None
}

/// `s.contains(pat)`.
pub fn contains_exec(s: &Vec<char>, pat: &Vec<char>) -> (b: bool)
    ensures
        b == contains(s@, pat@),
{
    find_from_exec(s, pat, 0).is_some()
}

/// `s.starts_with(p)`.
pub fn starts_with_exec(s: &Vec<char>, p: &Vec<char>) -> (b: bool)
    ensures
        b == starts_with(s@, p@),
{
    let b = occurs_at_exec(s, p, 0);
    assert(b == occurs_at(s@, p@, 0));
    b
}

/// `s.ends_with(p)`.
pub fn ends_with_exec(s: &Vec<char>, p: &Vec<char>) -> (b: bool)
    ensures
        b == ends_with(s@, p@),
{
    if p.len() > s.len() {
        return false;
    }
    occurs_at_exec(s, p, s.len() - p.len())
}

/// Whether two character sequences are equal.
pub fn eq_chars(a: &Vec<char>, b: &Vec<char>) -> (r: bool)
    ensures
        r == (a@ == b@),
{
    if a.len() != b.len() {
        return false;
    }
    let r = occurs_at_exec(a, b, 0);
    assert(a@.subrange(0, b@.len() as int) =~= a@);
    r
}

/// Whether a character sequence equals a string slice.
pub fn eq_str(a: &Vec<char>, b: &str) -> (r: bool)
    ensures
        r == (a@ == b@),
{
    let bv = chars_of(b);
    eq_chars(a, &bv)
}

// ---------------------------------------------------------------------------
// Splitting and joining
// ---------------------------------------------------------------------------

/// The pieces of `s[start..]` between non-overlapping occurrences of `sep`,
/// found left to right, as `str::split` with a non-empty string pattern
/// returns them.
pub open spec fn split_from(s: Seq<char>, sep: Seq<char>, start: int) -> Seq<Seq<char>>
    decreases s.len() - start,
{
    if sep.len() == 0 || start < 0 || start > s.len() {
        seq![]
    } else {
        match find_from(s, sep, start) {
            Some(i) => {
                if i >= start && i + sep.len() <= s.len() {
                    seq![s.subrange(start, i)] + split_from(s, sep, i + sep.len())
                } else {
                    seq![]
                }
            },
            None => seq![s.subrange(start, s.len() as int)],
        }
    }
}

/// `s.split(sep)` for a non-empty separator.
pub open spec fn split(s: Seq<char>, sep: Seq<char>) -> Seq<Seq<char>> {
    split_from(s, sep, 0)
}

/// `parts.join(sep)`.
pub open spec fn join(parts: Seq<Seq<char>>, sep: Seq<char>) -> Seq<char>
    decreases parts.len(),
{
    if parts.len() == 0 {
        seq![]
    } else if parts.len() == 1 {
        parts[0]
    } else {
        join(parts.drop_last(), sep) + sep + parts.last()
    }
}

pub proof fn lemma_split_from_nonempty(s: Seq<char>, sep: Seq<char>, start: int)
    requires
        sep.len() > 0,
        0 <= start <= s.len(),
    ensures
        split_from(s, sep, start).len() >= 1,
    decreases s.len() - start,
{
    lemma_find_from_bounds(s, sep, start);
    match find_from(s, sep, start) {
        Some(i) => {
            lemma_split_from_nonempty(s, sep, i + sep.len());
        },
        None => {},
    }
}

/// `s.split(sep)` collected into a vector of pieces.
pub fn split_exec(s: &Vec<char>, sep: &Vec<char>) -> (r: Vec<Vec<char>>)
    requires
        sep.len() > 0,
    ensures
        vviews(r@) == split(s@, sep@),
        r.len() >= 1,
{
    let mut r: Vec<Vec<char>> = Vec::new();
    let mut start: usize = 0;
    loop
        invariant
            sep.len() > 0,
            start <= s.len(),
            vviews(r@) + split_from(s@, sep@, start as int) == split(s@, sep@),
        decreases s.len() - start,
    {
        let found = find_from_exec(s, sep, start);
        proof {
            lemma_find_from_bounds(s@, sep@, start as int);
        }
        match found {
            Some(i) => {
                let piece = slice_chars(s, start, i);
                let ghost old_r = r@;
                r.push(piece);
                assert(vviews(r@) =~= vviews(old_r).push(piece@));
                assert(vviews(r@) + split_from(s@, sep@, (i + sep.len()) as int) =~= vviews(old_r)
                    + split_from(s@, sep@, start as int));
                start = i + sep.len();
            },
            None => {
                let piece = slice_chars(s, start, s.len());
                let ghost old_r = r@;
                r.push(piece);
                assert(vviews(r@) =~= vviews(old_r).push(piece@));
                assert(vviews(r@) =~= split(s@, sep@));
                return r;
            },
        }
    }
}

/// `s[from..to]` as a new vector.
pub fn slice_chars(s: &Vec<char>, from: usize, to: usize) -> (r: Vec<char>)
    requires
        from <= to <= s.len(),
    ensures
        r@ == s@.subrange(from as int, to as int),
{
    let mut r: Vec<char> = Vec::new();
    let mut i = from;
    while i < to
        invariant
            from <= i <= to <= s.len(),
            r@ == s@.subrange(from as int, i as int),
        decreases to - i,
    {
        r.push(s[i]);
        assert(s@.subrange(from as int, i as int).push(s@[i as int]) =~= s@.subrange(
            from as int,
            i + 1,
        ));
        i += 1;
    }
    r
}

/// `parts.join(sep)`.
pub fn join_exec(parts: &Vec<Vec<char>>, sep: &Vec<char>) -> (r: Vec<char>)
    ensures
        r@ == join(vviews(parts@), sep@),
{
    let mut r: Vec<char> = Vec::new();
    let mut i: usize = 0;
    while i < parts.len()
        invariant
            i <= parts.len(),
            r@ == join(vviews(parts@).take(i as int), sep@),
        decreases parts.len() - i,
    {
        let ghost before = r@;
        if i > 0 {
            push_vec(&mut r, sep);
        }
        push_vec(&mut r, &parts[i]);
        proof {
            let t = vviews(parts@).take(i + 1);
            assert(t.drop_last() =~= vviews(parts@).take(i as int));
            if i == 0 {
                assert(r@ =~= t[0]);
            } else {
                assert(r@ =~= before + sep@ + t.last());
            }
        }
        i += 1;
    }
    assert(vviews(parts@).take(parts.len() as int) =~= vviews(parts@));
    r
}


// ---------------------------------------------------------------------------
// Fixed-point rendering of ratios
// ---------------------------------------------------------------------------

pub open spec fn pow10(d: nat) -> nat
    decreases d,
{
    if d == 0 {
        1
    } else {
        10 * pow10((d - 1) as nat)
    }
}

/// `a / b` rounded to an integer, ties to the even neighbour.
pub open spec fn round_half_even(a: nat, b: nat) -> nat
    recommends
        b > 0,
{
    let q = a / b;
    let r = a % b;
    if 2 * r > b {
        q + 1
    } else if 2 * r < b {
        q
    } else if q % 2 == 0 {
        q
    } else {
        q + 1
    }
}

/// `{:.d}` rendering of the ratio `num / den`: the ratio rounded to `d`
/// decimals, integer part, a `.`, and exactly `d` decimals. The fraction is
/// rounded exactly, and a value exactly halfway goes to the even decimal:
/// 1/2000 at three decimals is `0.000`. Formatting the nearest `f64`
/// instead can differ on such ties, since that binary value is seldom an
/// exact half (`0.0005_f64` prints as `0.001`).
pub open spec fn fixed(num: nat, den: nat, d: nat) -> Seq<char>
    recommends
        den > 0,
        d > 0,
{
    let q = round_half_even(num * pow10(d), den);
    dec(q / pow10(d)) + "."@ + dec_padded(q % pow10(d), d)
}

/// Appends `{:0w}` of `n` to `out`.
pub fn push_dec_padded(out: &mut Vec<char>, n: u64, w: u32)
    ensures
        final(out)@ == old(out)@ + dec_padded(n as nat, w as nat),
{
    let mut digits: Vec<char> = Vec::new();
    push_dec(&mut digits, n);
    let len = digits.len();
    if len < w as usize {
        let mut k: usize = 0;
        let pad = w as usize - len;
        while k < pad
            invariant
                k <= pad,
                out@ == old(out)@ + zeros(k as nat),
            decreases pad - k,
        {
            out.push('0');
            assert(zeros(k as nat).push('0') =~= zeros((k + 1) as nat));
            k += 1;
        }
    } else {
        assert(old(out)@ =~= old(out)@);
    }
    push_vec(out, &digits);
    assert(out@ =~= old(out)@ + dec_padded(n as nat, w as nat));
}

pub fn pow10_exec(d: u32) -> (r: u64)
    requires
        d <= 4,
    ensures
        r as nat == pow10(d as nat),
        r >= 1,
        r <= 10000,
        d >= 1 ==> r >= 10,
{
    reveal_with_fuel(pow10, 5);
    if d == 0 {
        1
    } else if d == 1 {
        10
    } else if d == 2 {
        100
    } else if d == 3 {
        1000
    } else {
        10000
    }
}

/// Appends `{:.d}` of `num / den` to `out`.
pub fn push_fixed(out: &mut Vec<char>, num: u64, den: u64, d: u32)
    requires
        den > 0,
        1 <= d <= 4,
    ensures
        final(out)@ == old(out)@ + fixed(num as nat, den as nat, d as nat),
{
    let p = pow10_exec(d);
    assert((num as u128) * (p as u128) <= 0xffff_ffff_ffff_ffffu128 * 10000u128) by (nonlinear_arith)
        requires
            num <= 0xffff_ffff_ffff_ffffu64,
            p <= 10000,
    ;
    let a: u128 = (num as u128) * (p as u128);
    let b: u128 = den as u128;
    let q0 = a / b;
    let r = a % b;
    assert(r < b);
    assert(q0 <= a) by (nonlinear_arith)
        requires
            b >= 1,
            q0 == a / b,
    ;
    let q: u128 = if 2 * r > b {
        q0 + 1
    } else if 2 * r < b {
        q0
    } else if q0 % 2 == 0 {
        q0
    } else {
        q0 + 1
    };
    assert(q == round_half_even(num as nat * pow10(d as nat), den as nat));
    let int_part = q / (p as u128);
    let frac = q % (p as u128);
    assert(int_part <= num) by (nonlinear_arith)
        requires
            q <= a + 1,
            a == num * p,
            p >= 10,
            int_part == q / (p as u128),
    ;
    push_dec(out, int_part as u64);
    out.push('.');
    push_dec_padded(out, frac as u64, d);
    proof {
        reveal_strlit(".");
    }
    assert(out@ =~= old(out)@ + fixed(num as nat, den as nat, d as nat));
}


// ---------------------------------------------------------------------------
// Trimming
// ---------------------------------------------------------------------------

/// `s` without its leading whitespace.
pub open spec fn trim_start(s: Seq<char>) -> Seq<char>
    decreases s.len(),
{
    if s.len() > 0 && is_ws(s[0]) {
        trim_start(s.drop_first())
    } else {
        s
    }
}

/// `s` without its trailing whitespace.
pub open spec fn trim_end(s: Seq<char>) -> Seq<char>
    decreases s.len(),
{
    if s.len() > 0 && is_ws(s.last()) {
        trim_end(s.drop_last())
    } else {
        s
    }
}

/// `str::trim`: `s` without leading and trailing whitespace.
pub open spec fn trim(s: Seq<char>) -> Seq<char> {
    trim_end(trim_start(s))
}

/// `str::trim`, computed.
pub fn trim_exec(s: &Vec<char>) -> (r: Vec<char>)
    ensures
        r@ == trim(s@),
{
    let mut a: usize = 0;
    assert(s@.subrange(0, s.len() as int) =~= s@);
    while a < s.len() && char_is_whitespace(s[a])
        invariant
            a <= s.len(),
            trim_start(s@) == trim_start(s@.subrange(a as int, s.len() as int)),
        decreases s.len() - a,
    {
        let ghost t = s@.subrange(a as int, s.len() as int);
        assert(t.drop_first() =~= s@.subrange(a + 1, s.len() as int));
        a += 1;
    }
    let ghost t = s@.subrange(a as int, s.len() as int);
    assert(trim_start(t) == t);
    let mut b: usize = s.len();
    while b > a && char_is_whitespace(s[b - 1])
        invariant
            a <= b <= s.len(),
            trim(s@) == trim_end(s@.subrange(a as int, b as int)),
        decreases b,
    {
        let ghost u = s@.subrange(a as int, b as int);
        assert(u.drop_last() =~= s@.subrange(a as int, b - 1));
        b -= 1;
    }
    let r = slice_chars(s, a, b);
    assert(trim_end(r@) == r@);
    r
}

// ---------------------------------------------------------------------------
// Ordering of strings
// ---------------------------------------------------------------------------

/// The order of `String`: lexicographic by code point (a proper prefix
/// comes first).
pub open spec fn lex_lt(a: Seq<char>, b: Seq<char>) -> bool
    decreases a.len(),
{
    if a.len() == 0 {
        b.len() > 0
    } else if b.len() == 0 {
        false
    } else if a[0] != b[0] {
        a[0] < b[0]
    } else {
        lex_lt(a.drop_first(), b.drop_first())
    }
}

/// Every element comes strictly before the next ones.
pub open spec fn strictly_sorted(s: Seq<Seq<char>>) -> bool {
    forall|i: int, j: int| 0 <= i < j < s.len() ==> lex_lt(#[trigger] s[i], #[trigger] s[j])
}

pub proof fn lemma_lex_irreflexive(a: Seq<char>)
    ensures
        !lex_lt(a, a),
    decreases a.len(),
{
    if a.len() > 0 {
        lemma_lex_irreflexive(a.drop_first());
    }
}

pub proof fn lemma_lex_asymmetric(a: Seq<char>, b: Seq<char>)
    ensures
        !(lex_lt(a, b) && lex_lt(b, a)),
    decreases a.len(),
{
    if a.len() > 0 && b.len() > 0 && a[0] == b[0] {
        lemma_lex_asymmetric(a.drop_first(), b.drop_first());
    }
}

pub proof fn lemma_lex_transitive(a: Seq<char>, b: Seq<char>, c: Seq<char>)
    requires
        lex_lt(a, b),
        lex_lt(b, c),
    ensures
        lex_lt(a, c),
    decreases a.len(),
{
    if a.len() > 0 && b.len() > 0 && c.len() > 0 && a[0] == b[0] && b[0] == c[0] {
        lemma_lex_transitive(a.drop_first(), b.drop_first(), c.drop_first());
    }
}

pub proof fn lemma_lex_total(a: Seq<char>, b: Seq<char>)
    ensures
        a == b || lex_lt(a, b) || lex_lt(b, a),
    decreases a.len(),
{
    if a.len() > 0 && b.len() > 0 && a[0] == b[0] {
        lemma_lex_total(a.drop_first(), b.drop_first());
        if a.drop_first() == b.drop_first() {
            assert(a =~= seq![a[0]] + a.drop_first());
            assert(b =~= seq![b[0]] + b.drop_first());
        }
    } else if a.len() == 0 && b.len() == 0 {
        assert(a =~= b);
    }
}

/// Whether `a` comes strictly before `b`, computed.
pub fn lex_lt_exec(a: &Vec<char>, b: &Vec<char>) -> (r: bool)
    ensures
        r == lex_lt(a@, b@),
{
    let mut i: usize = 0;
    assert(a@.skip(0) =~= a@);
    assert(b@.skip(0) =~= b@);
    while i < a.len() && i < b.len()
        invariant
            i <= a.len(),
            i <= b.len(),
            lex_lt(a@, b@) == lex_lt(a@.skip(i as int), b@.skip(i as int)),
        decreases a.len() - i,
    {
        if a[i] != b[i] {
            return a[i] < b[i];
        }
        assert(a@.skip(i as int).drop_first() =~= a@.skip(i + 1));
        assert(b@.skip(i as int).drop_first() =~= b@.skip(i + 1));
        i += 1;
    }
    a.len() < b.len()
}

// ---------------------------------------------------------------------------
// Whitespace removal and byte length
// ---------------------------------------------------------------------------

/// `s` with every whitespace character removed (what joining
/// `split_whitespace` with "" gives).
pub open spec fn strip_ws(s: Seq<char>) -> Seq<char>
    decreases s.len(),
{
    if s.len() == 0 {
        seq![]
    } else if is_ws(s.last()) {
        strip_ws(s.drop_last())
    } else {
        strip_ws(s.drop_last()).push(s.last())
    }
}

/// `s` with every whitespace character removed, computed.
pub fn strip_ws_exec(s: &Vec<char>) -> (r: Vec<char>)
    ensures
        r@ == strip_ws(s@),
{
    let mut r: Vec<char> = Vec::new();
    let mut i: usize = 0;
    while i < s.len()
        invariant
            i <= s.len(),
            r@ == strip_ws(s@.take(i as int)),
        decreases s.len() - i,
    {
        let ghost t = s@.take(i + 1);
        assert(t.drop_last() =~= s@.take(i as int));
        assert(t.last() == s@[i as int]);
        if !char_is_whitespace(s[i]) {
            r.push(s[i]);
        }
        i += 1;
    }
    assert(s@.take(s.len() as int) =~= s@);
    r
}

/// A suffix encodes to no more bytes than the whole.
pub proof fn lemma_encode_suffix_bound(s: Seq<char>, k: int)
    requires
        0 <= k <= s.len(),
    ensures
        encode_utf8(s.skip(k)).len() <= encode_utf8(s).len(),
    decreases k,
{
    if k > 0 {
        assert(s.skip(k) =~= s.drop_first().skip(k - 1));
        lemma_encode_suffix_bound(s.drop_first(), k - 1);
    } else {
        assert(s.skip(0) =~= s);
    }
}

/// Whether the UTF-8 encoding of `s` takes at least `cap` bytes, computed.
pub fn utf8_len_at_least(s: &Vec<char>, cap: usize) -> (b: bool)
    requires
        cap <= 0x10000,
    ensures
        b == (encode_utf8(s@).len() >= cap),
{
    if cap == 0 {
        return true;
    }
    let mut n: usize = 0;
    let mut i = s.len();
    assert(s@.skip(i as int) =~= Seq::<char>::empty());
    while i > 0
        invariant
            i <= s.len(),
            cap <= 0x10000,
            n < cap,
            n == encode_utf8(s@.skip(i as int)).len(),
        decreases i,
    {
        let c = s[i - 1];
        let w: usize = if (c as u32) <= 0x7f {
            1
        } else if (c as u32) <= 0x7ff {
            2
        } else if (c as u32) <= 0xffff {
            3
        } else {
            4
        };
        let ghost t = s@.skip(i - 1);
        assert(t.drop_first() =~= s@.skip(i as int));
        assert(t[0] == c);
        proof {
            vstd::utf8::char_is_scalar(c);
        }
        assert(encode_utf8(t).len() == w + encode_utf8(s@.skip(i as int)).len());
        n = n + w;
        i -= 1;
        if n >= cap {
            proof {
                lemma_encode_suffix_bound(s@, i as int);
            }
            return true;
        }
    }
    assert(s@.skip(0) =~= s@);
    false
}

} // verus!
