use repo_gc::text::{char_is_whitespace, join_exec, lex_lt_exec, push_dec, push_dec3, push_fixed, split_exec, strip_ws_exec, trim_exec};

fn chars(s: &str) -> Vec<char> {
    s.chars().collect()
}

fn text(v: &[char]) -> String {
    v.iter().collect()
}

fn fixed(num: u64, den: u64, d: u32) -> String {
    let mut out = Vec::new();
    push_fixed(&mut out, num, den, d);
    text(&out)
}

/// `num / den` lies exactly halfway between two `d`-decimal values.
fn is_tie(num: u64, den: u64, d: u32) -> bool {
    let scaled = 2 * num as u128 * 10u128.pow(d);
    scaled % den as u128 == 0 && (scaled / den as u128) % 2 == 1
}

#[test]
fn fixed_matches_float_formatting_away_from_ties() {
    for d in 1..=4u32 {
        for den in 1..=120u64 {
            for num in 0..=400u64 {
                if is_tie(num, den, d) {
                    continue;
                }
                let expected = format!("{:.*}", d as usize, num as f64 / den as f64);
                assert_eq!(fixed(num, den, d), expected, "{num}/{den} at {d} decimals");
            }
        }
    }
}

#[test]
fn fixed_examples() {
    assert_eq!(fixed(25, 2, 2), "12.50");
    assert_eq!(fixed(1, 200, 4), "0.0050");
    assert_eq!(fixed(20, 45, 3), "0.444");
    assert_eq!(fixed(8, 521, 3), "0.015");
    // exact ties go to the even neighbour, as float formatting does for them
    assert_eq!(fixed(1, 8, 2), "0.12");
    assert_eq!(fixed(3, 8, 2), "0.38");
    assert_eq!(format!("{:.2}", 0.125f64), "0.12");
    assert_eq!(fixed(0, 7, 1), "0.0");
    assert_eq!(fixed(10, 1, 1), "10.0");
}

#[test]
fn decimal_rendering() {
    let mut v = Vec::new();
    push_dec(&mut v, 0);
    assert_eq!(text(&v), "0");
    let mut v = Vec::new();
    push_dec(&mut v, u64::MAX);
    assert_eq!(text(&v), u64::MAX.to_string());
    let mut v = Vec::new();
    push_dec3(&mut v, 7);
    assert_eq!(text(&v), "007");
    let mut v = Vec::new();
    push_dec3(&mut v, 12345);
    assert_eq!(text(&v), "12345");
}

#[test]
fn split_join_trim() {
    let parts = split_exec(&chars("a::b::::c"), &chars("::"));
    let texts: Vec<String> = parts.iter().map(|p| text(p)).collect();
    assert_eq!(texts, vec!["a", "b", "", "c"]);
    assert_eq!(text(&join_exec(&parts, &chars("::"))), "a::b::::c");
    assert_eq!(text(&trim_exec(&chars("  x y\t\n"))), "x y");
    assert_eq!(text(&strip_ws_exec(&chars("{ let x = 1 ; }"))), "{letx=1;}");
    assert_eq!(split_exec(&chars(""), &chars("::")).len(), 1);
}

#[test]
fn lexicographic_order() {
    assert!(lex_lt_exec(&chars("abc"), &chars("abd")));
    assert!(lex_lt_exec(&chars("ab"), &chars("abc")));
    assert!(!lex_lt_exec(&chars("b"), &chars("abc")));
    assert!(!lex_lt_exec(&chars("x"), &chars("x")));
    assert!(lex_lt_exec(&chars("Z"), &chars("a")));
}

#[test]
fn whitespace_is_the_unicode_white_space_list() {
    for c in [' ', '\t', '\n', '\r', '\u{b}', '\u{c}', '\u{85}', '\u{a0}', '\u{2000}', '\u{200a}', '\u{3000}'] {
        assert!(char_is_whitespace(c), "{:?}", c);
        assert_eq!(char_is_whitespace(c), c.is_whitespace());
    }
    for c in ['a', '_', '\u{0}', '\u{200b}', '\u{feff}', '\u{2030}'] {
        assert!(!char_is_whitespace(c), "{:?}", c);
        assert_eq!(char_is_whitespace(c), c.is_whitespace());
    }
}
