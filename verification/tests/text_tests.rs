use frontend::text::{
    chars_of, concat2, is_whitespace, join_strings, parse_comma_list, parse_unsigned, str_contains,
    str_eq, string_of, trim_str, IntErrorKind,
};

#[test]
fn whitespace_agrees_with_std() {
    for u in 0u32..0x3100 {
        if let Some(c) = char::from_u32(u) {
            assert_eq!(is_whitespace(c), c.is_whitespace(), "char {:x}", u);
        }
    }
}

#[test]
fn trim_agrees_with_std() {
    for s in ["", "   ", "  a b  ", "\t\nx\u{3000}", "abc", "\u{2028}y z\u{a0}", " é "] {
        assert_eq!(trim_str(s), s.trim());
    }
}

#[test]
fn chars_round_trip() {
    let v = chars_of("héllo");
    assert_eq!(v, vec!['h', 'é', 'l', 'l', 'o']);
    assert_eq!(string_of(&v), "héllo");
}

#[test]
fn contains_agrees_with_std() {
    let cases = [("hello", "ell"), ("hello", ""), ("", ""), ("", "a"), ("abc", "abcd"), ("aaab", "aab"), ("abc", "c"), ("abc", "d")];
    for (s, p) in cases {
        assert_eq!(str_contains(s, p), s.contains(p), "{} {}", s, p);
    }
}

#[test]
fn equality_and_concat() {
    assert!(str_eq("abc", "abc"));
    assert!(!str_eq("abc", "abd"));
    assert!(!str_eq("abc", "ab"));
    assert_eq!(concat2("ab", "cd"), "abcd");
}

#[test]
fn join_agrees_with_std() {
    let items = vec!["a".to_string(), "b".to_string(), "c".to_string()];
    assert_eq!(join_strings(&items, ", "), items.join(", "));
    assert_eq!(join_strings(&vec![], ", "), "");
    assert_eq!(join_strings(&vec!["x".to_string()], ", "), "x");
}

#[test]
fn comma_list_agrees_with_split_trim_filter() {
    for s in ["", "a", " a , b ,, c ", ",,,", "CAN, USA", "x,", " , y"] {
        let expected: Vec<String> = s.split(',').map(|p| p.trim().to_string()).filter(|p| !p.is_empty()).collect();
        assert_eq!(parse_comma_list(s), expected, "{:?}", s);
    }
}

#[test]
fn comma_list_undoes_join() {
    let tags = vec!["INTEL".to_string(), "EASTERN EUROPE".to_string(), "SIGINT".to_string()];
    let shown = join_strings(&tags, ", ");
    assert_eq!(parse_comma_list(&shown), tags);
}

#[test]
fn parse_unsigned_agrees_with_std_u16() {
    let cases = ["", "+", "-", "0", "8000", "+8000", "-1", "65535", "65536", "99999x", "12a", " 1", "1 ", "00080", "+-1"];
    for s in cases {
        let ours = parse_unsigned(s, 65535);
        match s.parse::<u16>() {
            Ok(n) => assert_eq!(ours, Ok(n as u32), "{:?}", s),
            Err(e) => {
                let kind = ours.expect_err(s);
                assert_eq!(kind.message(), e.to_string(), "{:?}", s);
            }
        }
    }
}

#[test]
fn parse_unsigned_agrees_with_std_u32() {
    for s in ["320", "4294967295", "4294967296", "", "abc", "+7"] {
        match s.parse::<u32>() {
            Ok(n) => assert_eq!(parse_unsigned(s, u32::MAX), Ok(n)),
            Err(e) => assert_eq!(parse_unsigned(s, u32::MAX).unwrap_err().message(), e.to_string()),
        }
    }
}

#[test]
fn int_error_messages() {
    assert_eq!(IntErrorKind::Empty.message(), "cannot parse integer from empty string");
    assert_eq!(IntErrorKind::InvalidDigit.message(), "invalid digit found in string");
    assert_eq!(IntErrorKind::PosOverflow.message(), "number too large to fit in target type");
}

#[test]
fn comma_list_is_stable() {
    for s in [" a ,b,, c ", "", " ,, ", "x", "  CAN , USA "] {
        let once = parse_comma_list(s);
        let again = parse_comma_list(&join_strings(&once, ", "));
        assert_eq!(again, once, "{:?}", s);
    }
}
