use pvdp::text::{decimal_in, find, replace, split_bounds, trim};

fn chars(s: &str) -> Vec<char> {
    s.chars().collect()
}

fn decimal(s: &str) -> Option<i64> {
    let c = chars(s);
    decimal_in(&c, 0, c.len())
}

#[test]
fn decimal_reads_like_from_str() {
    for s in [
        "0", "42", "+7", "-0", "-15", "007", "", "+", "-", "12a", " 1", "1 ", "--1", "+-1",
        "9223372036854775807", "9223372036854775808", "-9223372036854775808",
        "-9223372036854775809", "99999999999999999999999", "١٢",
    ] {
        assert_eq!(decimal(s), s.parse::<i64>().ok(), "input {:?}", s);
    }
}

#[test]
fn decimal_reads_a_slice() {
    let c = chars("ab:123:cd");
    assert_eq!(decimal_in(&c, 3, 6), Some(123));
    assert_eq!(decimal_in(&c, 2, 6), None);
    assert_eq!(decimal_in(&c, 3, 3), None);
}

#[test]
fn split_bounds_follow_str_split() {
    for s in ["", ":", "a", "a:b", "1:02:03", "::", "a:b:", ":x"] {
        let c = chars(s);
        let pieces: Vec<String> = split_bounds(&c, ':')
            .iter()
            .map(|&(a, b)| c[a..b].iter().collect())
            .collect();
        let expected: Vec<String> = s.split(':').map(|p| p.to_string()).collect();
        assert_eq!(pieces, expected, "input {:?}", s);
    }
}

#[test]
fn trim_removes_unicode_white_space() {
    for s in ["  hi \n", "\u{3000}x\u{85}", "   ", "", "a b", "\t\r\nz\u{2029}", "\u{200B}y"] {
        assert_eq!(trim(s), s.trim(), "input {:?}", s);
    }
}

#[test]
fn find_follows_str_contains() {
    for (t, p) in [
        ("Image pvdp.exe 1234", "pvdp.exe"),
        ("PVDP.EXE", "pvdp.exe"),
        ("pvdp.ex", "pvdp.exe"),
        ("pvdp_exe", "pvdp.exe"),
        ("", "pvdp.exe"),
        ("abc", ""),
        ("", ""),
        ("aab", "ab"),
        ("ぷらいむビデオ", "いむ"),
    ] {
        assert_eq!(find(&chars(t), &chars(p)), t.contains(p), "input {:?}", (t, p));
    }
}

#[test]
fn replace_follows_str_replace() {
    for (s, p, r) in [
        ("aXXb", "XX", "c"),
        ("aaa", "aa", "b"),
        ("none here", "PRIME", "x"),
        ("PRIMEPRIME", "PRIME", ""),
        ("ｘPRIMEｙ", "PRIME", "パス"),
        ("", "a", "b"),
    ] {
        assert_eq!(replace(s, p, r), s.replace(p, r), "input {:?}", (s, p, r));
    }
}

#[test]
fn trim_twice_is_trim_once() {
    for s in ["  a b  ", "\u{2000}\u{3000}", "x", " \u{85}y\u{85} "] {
        let once = trim(s);
        assert_eq!(trim(&once), once);
    }
}
