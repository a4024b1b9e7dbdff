use thumbcloud::json::{decimal_text, error_response, member, string_member, join_with, object, array, unreadable_path_response};
use thumbcloud::text::{chars_of, is_blank, is_whitespace, replace_all, rfind_char, str_eq, string_of, trim, string_between};

#[test]
fn chars_round_trip() {
    let s = "héllo wörld";
    let v = chars_of(s);
    assert_eq!(v.len(), 11);
    assert_eq!(string_of(&v), s);
    assert_eq!(string_between(&v, 1, 4), "éll");
}

#[test]
fn whitespace_matches_std() {
    for u in 0u32..0x3100 {
        if let Some(c) = char::from_u32(u) {
            assert_eq!(is_whitespace(c), c.is_whitespace(), "char {:x}", u);
        }
    }
}

#[test]
fn trim_matches_std() {
    let cases = ["", "   ", "  a b  ", "\u{3000}x\u{a0}", "abc", "\t\n", " a"];
    for c in cases.iter() {
        assert_eq!(trim(c), c.trim());
        assert_eq!(is_blank(c), c.trim().is_empty());
    }
}

#[test]
fn replace_all_matches_std() {
    let cases = ["12 B", "1.5 kB", " B B", "  BB", "", "no"];
    for c in cases.iter() {
        assert_eq!(replace_all(c, " B", " bytes"), c.replace(" B", " bytes"));
    }
    assert_eq!(replace_all("aaa", "aa", "b"), "ba");
}

#[test]
fn rfind_and_equality() {
    assert_eq!(rfind_char("a.b.c", '.'), Some(3));
    assert_eq!(rfind_char("abc", '.'), None);
    assert_eq!(rfind_char("é.x", '.'), Some(1));
    assert!(str_eq("png", "png"));
    assert!(!str_eq("png", "pn"));
}

#[test]
fn string_members_escape_their_values() {
    assert_eq!(string_member("k", "plain"), "\"k\":\"plain\"");
    assert_eq!(string_member("k", "a\"b\\c\n\u{1}\t\u{8}\u{c}\r/é"), "\"k\":\"a\\\"b\\\\c\\n\\u0001\\t\\b\\f\\r/é\"");
    assert_eq!(string_member("k", "\u{1f}\u{7f}"), "\"k\":\"\\u001f\u{7f}\"");
}

#[test]
fn decimal_matches_to_string() {
    let cases = [0u64, 7, 10, 42, 99, 100, 12345, u64::MAX];
    for n in cases.iter() {
        assert_eq!(decimal_text(*n), n.to_string());
    }
}

#[test]
fn error_response_is_exact() {
    assert_eq!(error_response("x"), "{\"action\":\"sendError\",\"message\":\"x\"}");
    let parsed: serde_json::Value = serde_json::from_str(&error_response("a \"quoted\" word")).unwrap();
    assert_eq!(parsed["message"], "a \"quoted\" word");
    assert_eq!(parsed["action"], "sendError");
}

#[test]
fn objects_and_arrays() {
    let members = vec![string_member("a", "x"), member("b", "1")];
    assert_eq!(object(&members), "{\"a\":\"x\",\"b\":1}");
    assert_eq!(array(&vec![]), "[]");
    assert_eq!(array(&vec!["1".to_string(), "2".to_string()]), "[1,2]");
    assert_eq!(join_with(&vec!["a".to_string()], ','), "a");
}

#[test]
fn unreadable_path_quotes_the_path() {
    for p in ["docs", "a\"b", "tab\there", "é"].iter() {
        let v: serde_json::Value = serde_json::from_str(&unreadable_path_response(p)).unwrap();
        assert_eq!(v["action"], "sendError");
        assert_eq!(v["message"], format!("Cannot read the given path: {:?}", p));
    }
}
