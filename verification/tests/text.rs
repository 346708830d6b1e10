use breadknife::text::{parse_i32, parse_i64, push_padded, split_once, trim_chars};

#[test]
fn integers_parse_like_std() {
    for s in ["0", "42", "-7", "+9", "007", "2147483647", "-2147483648", "2147483648", "", "-", "+", "1a", " 1", "--1"] {
        assert_eq!(parse_i32(s), s.parse::<i32>().ok(), "{s:?}");
    }
    for s in ["9223372036854775807", "-9223372036854775808", "9223372036854775808", "12", "x"] {
        assert_eq!(parse_i64(s), s.parse::<i64>().ok(), "{s:?}");
    }
}

#[test]
fn rendering_parses_back() {
    for i in [0, 1, -1, 1234, -98765, i32::MAX, i32::MIN] {
        assert_eq!(parse_i32(&i.to_string()), Some(i));
    }
}

#[test]
fn split_and_pad() {
    assert_eq!(split_once("a b c", ' '), Some(("a".to_string(), "b c".to_string())));
    assert_eq!(split_once("abc", ' '), None);
    let mut s = String::new();
    push_padded(&mut s, "ab", 5);
    assert_eq!(s, "ab   ");
    let mut t = String::new();
    push_padded(&mut t, "abcdef", 3);
    assert_eq!(t, "abcdef");
    let cs: Vec<char> = "  x y \t".chars().collect();
    assert_eq!(trim_chars(&cs).into_iter().collect::<String>(), "x y");
}
