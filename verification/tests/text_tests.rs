use nightbar::numbers::{decimal_chars, parse_i32};
use nightbar::text::{
    chars_are, chars_of, split_chars, split_lines, split_once_chars, split_words, splitn_chars,
    starts_with_str, string_from, trim_chars, trim_end_matching,
};

fn s(v: &[char]) -> String {
    v.iter().collect()
}

fn all(v: &[Vec<char>]) -> Vec<String> {
    v.iter().map(|x| s(x)).collect()
}

const SAMPLES: &[&str] = &[
    "",
    " ",
    "a",
    "a:b",
    ":a::b:",
    "  hello world  ",
    "\t\nline one\r\nline two\n",
    "one\ntwo\r\nthree",
    "x\r",
    "\n",
    "\n\n",
    "Volume: 0.45 [MUTED]",
    "\u{a0}nbsp\u{3000}",
    "workspace>>3",
    "a>b>>c>>d",
    "Device 00:11:22:33:44:55 My Headphones",
];

#[test]
fn chars_round_trip() {
    for t in SAMPLES {
        let v = chars_of(t);
        assert_eq!(s(&v), *t);
        assert_eq!(string_from(&v), *t);
    }
}

#[test]
fn trim_matches_std() {
    for t in SAMPLES {
        assert_eq!(s(&trim_chars(&chars_of(t))), t.trim());
    }
}

#[test]
fn split_matches_std() {
    for t in SAMPLES {
        for sep in [':', ' ', '\n', ','] {
            let expected: Vec<String> = t.split(sep).map(|x| x.to_string()).collect();
            assert_eq!(all(&split_chars(&chars_of(t), sep)), expected);
        }
    }
}

#[test]
fn splitn_matches_std() {
    for t in SAMPLES {
        for n in 1..5 {
            for sep in [':', ' ', ','] {
                let expected: Vec<String> = t.splitn(n, sep).map(|x| x.to_string()).collect();
                assert_eq!(all(&splitn_chars(&chars_of(t), n, sep)), expected);
            }
        }
    }
}

#[test]
fn words_match_std() {
    for t in SAMPLES {
        let expected: Vec<String> = t.split_whitespace().map(|x| x.to_string()).collect();
        assert_eq!(all(&split_words(&chars_of(t))), expected);
    }
}

#[test]
fn lines_match_std() {
    for t in SAMPLES {
        let expected: Vec<String> = t.lines().map(|x| x.to_string()).collect();
        assert_eq!(all(&split_lines(&chars_of(t))), expected);
    }
}

#[test]
fn trim_end_matches_std() {
    for t in ["50%", "50%%", "%", "", "5%0"] {
        assert_eq!(s(&trim_end_matching(&chars_of(t), '%')), t.trim_end_matches('%'));
    }
}

#[test]
fn split_once_matches_std() {
    for t in SAMPLES {
        let expected = t.split_once(">>").map(|(a, b)| (a.to_string(), b.to_string()));
        let got = split_once_chars(&chars_of(t), '>', '>').map(|(a, b)| (s(&a), s(&b)));
        assert_eq!(got, expected);
    }
}

#[test]
fn comparisons() {
    assert!(chars_are(&chars_of("wifi"), "wifi"));
    assert!(!chars_are(&chars_of("wifi"), "wif"));
    assert!(starts_with_str(&chars_of("BAT0"), "BAT"));
    assert!(!starts_with_str(&chars_of("BA"), "BAT"));
    assert!(!starts_with_str(&chars_of("ACAD"), "BAT"));
}

#[test]
fn parse_i32_matches_std() {
    let inputs = [
        "0", "7", "-7", "+7", "-", "+", "", "12a", " 1", "2147483647", "2147483648",
        "-2147483648", "-2147483649", "00042", "99999999999999999999", "-0", "+-1", "1 ",
    ];
    for t in inputs {
        assert_eq!(parse_i32(&chars_of(t)), t.parse::<i32>().ok(), "input {:?}", t);
    }
}

#[test]
fn decimal_matches_to_string() {
    for n in [0u64, 1, 9, 10, 42, 100, 12345, u64::MAX] {
        assert_eq!(s(&decimal_chars(n)), n.to_string());
    }
}

#[test]
fn printed_numbers_parse_back() {
    for n in [0u64, 5, 1234, 2147483647] {
        assert_eq!(parse_i32(&decimal_chars(n)), Some(n as i32));
    }
}

#[test]
fn split_then_join_gives_back_the_text() {
    for t in SAMPLES {
        let parts = all(&split_chars(&chars_of(t), ':'));
        assert_eq!(parts.join(":"), *t);
    }
}
