use timr::text::{parse_unsigned_text, push_decimal, replace_text, same_text, trim_char_matches};

#[test]
fn same_text_compares_characters() {
    assert!(same_text("timr", "timr"));
    assert!(!same_text("timr", "tim"));
    assert!(!same_text("abc", "abd"));
    assert!(same_text("", ""));
    assert!(same_text("héllo", "héllo"));
}

#[test]
fn trim_removes_quotes_at_both_ends() {
    assert_eq!(trim_char_matches("\"coding\"", '"'), "coding");
    assert_eq!(trim_char_matches("\"\"coding", '"'), "coding");
    assert_eq!(trim_char_matches("coding", '"'), "coding");
    assert_eq!(trim_char_matches("\"\"\"", '"'), "");
    assert_eq!(trim_char_matches("", '"'), "");
    assert_eq!(trim_char_matches("\"a\"b\"", '"'), "a\"b");
}

#[test]
fn trim_agrees_with_std() {
    let inputs = ["", "\"", "\"\"", "a", "\"a", "a\"", "\"a\"", "\"ä\"ö\"", "x\"\"y", "\"\"\"z\"\""];
    for s in inputs.iter() {
        assert_eq!(trim_char_matches(s, '"'), s.trim_matches('"'), "input {:?}", s);
    }
}

#[test]
fn law_trim_idempotent_example() {
    let once = trim_char_matches("\"\"report\"", '"');
    let twice = trim_char_matches(once, '"');
    assert_eq!(once, "report");
    assert_eq!(twice, once);
}

#[test]
fn parse_decimal_numbers() {
    assert_eq!(parse_unsigned_text("8080", 10, 65535), Some(8080));
    assert_eq!(parse_unsigned_text("+5", 10, 65535), Some(5));
    assert_eq!(parse_unsigned_text("0", 10, 65535), Some(0));
    assert_eq!(parse_unsigned_text("007", 10, 65535), Some(7));
    assert_eq!(parse_unsigned_text("65535", 10, 65535), Some(65535));
    assert_eq!(parse_unsigned_text("65536", 10, 65535), None);
    assert_eq!(parse_unsigned_text("999999999999", 10, 65535), None);
    assert_eq!(parse_unsigned_text("", 10, 65535), None);
    assert_eq!(parse_unsigned_text("+", 10, 65535), None);
    assert_eq!(parse_unsigned_text("-1", 10, 65535), None);
    assert_eq!(parse_unsigned_text("12a", 10, 65535), None);
    assert_eq!(parse_unsigned_text(" 1", 10, 65535), None);
}

#[test]
fn parse_hex_numbers() {
    assert_eq!(parse_unsigned_text("ff", 16, 255), Some(255));
    assert_eq!(parse_unsigned_text("FF", 16, 255), Some(255));
    assert_eq!(parse_unsigned_text("0a", 16, 255), Some(10));
    assert_eq!(parse_unsigned_text("+f", 16, 255), Some(15));
    assert_eq!(parse_unsigned_text("fg", 16, 255), None);
    assert_eq!(parse_unsigned_text("100", 16, 255), None);
}

#[test]
fn parse_agrees_with_std() {
    let inputs = [
        "", "+", "-", "0", "+0", "-0", "1", "42", "+42", "255", "256", "65535", "65536", "70000",
        "1_0", "١", "0x1", "abc", "ff", "FF", "+ff", "++1", "1+", "00000000000000000001",
    ];
    for s in inputs.iter() {
        let ours = parse_unsigned_text(s, 10, 65535).map(|v| v as u16);
        assert_eq!(ours, s.parse::<u16>().ok(), "decimal {:?}", s);
        let ours_hex = parse_unsigned_text(s, 16, 255).map(|v| v as u8);
        assert_eq!(ours_hex, u8::from_str_radix(s, 16).ok(), "hex {:?}", s);
    }
}

#[test]
fn decimal_rendering() {
    for n in [0u16, 7, 10, 99, 100, 8080, 65535].iter() {
        let mut out = String::from("port ");
        push_decimal(&mut out, *n);
        assert_eq!(out, format!("port {}", n));
    }
}

#[test]
fn replace_every_occurrence() {
    assert_eq!(
        replace_text("EXEC_PATH/timr.db", "EXEC_PATH", "/home/ana/bin"),
        "/home/ana/bin/timr.db"
    );
    assert_eq!(replace_text("EXEC_PATHEXEC_PATH", "EXEC_PATH", "x"), "xx");
    assert_eq!(replace_text("aaa", "aa", "b"), "ba");
    assert_eq!(replace_text("", "aa", "b"), "");
    assert_eq!(replace_text("/var/db", "EXEC_PATH", "/x"), "/var/db");
}

#[test]
fn replace_agrees_with_std() {
    let cases = [
        ("EXEC_PATH/db", "EXEC_PATH", "/opt/ü"),
        ("abababa", "aba", "X"),
        ("ééé", "é", "e"),
        ("no match here", "zz", "y"),
        ("zzz", "z", ""),
    ];
    for (s, p, r) in cases.iter() {
        assert_eq!(replace_text(s, p, r), s.replace(p, r), "{:?}", (s, p, r));
    }
}

#[test]
fn law_replace_absent_example() {
    let s = "/var/lib/timr/timr.db";
    assert_eq!(replace_text(s, "EXEC_PATH", "/somewhere"), s);
}
