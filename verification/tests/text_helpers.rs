use depmgr::jsonmodel::{obj_get, parse_json, JsonVal};
use depmgr::strutil::{
    contains_sub, insert_sorted_unique, split_char, split_tokens, str_eq, str_lex_le,
    strip_prefix_str, strip_suffix_char, trim_str,
};

#[test]
fn string_equality_is_by_characters() {
    assert!(str_eq("abc", "abc"));
    assert!(!str_eq("abc", "abd"));
    assert!(str_eq("", ""));
    assert!(!str_eq("a", ""));
}

#[test]
fn lexicographic_order_on_slices() {
    assert!(str_lex_le("abc", "abd"));
    assert!(str_lex_le("ab", "abc"));
    assert!(!str_lex_le("abc", "ab"));
    assert!(str_lex_le("same", "same"));
    assert!(str_lex_le("", "anything"));
}

#[test]
fn substring_search() {
    assert!(contains_sub("hello world", "lo wo"));
    assert!(contains_sub("hello", ""));
    assert!(!contains_sub("hello", "world"));
    assert!(!contains_sub("ab", "abc"));
}

#[test]
fn splitting_and_tokens() {
    let lines = split_char("a\nb\n\nc", '\n');
    assert_eq!(lines, vec!["a".to_string(), "b".to_string(), String::new(), "c".to_string()]);
    let one = split_char("plain", '\n');
    assert_eq!(one, vec!["plain".to_string()]);
    let toks = split_tokens("  foo  bar\tbaz \r\n");
    assert_eq!(toks, vec!["foo".to_string(), "bar".to_string(), "baz".to_string()]);
    assert!(split_tokens("   ").is_empty());
}

#[test]
fn trimming_and_stripping() {
    assert_eq!(trim_str("  spaced out \t"), "spaced out");
    assert_eq!(trim_str(""), "");
    assert_eq!(trim_str(" \n "), "");
    assert_eq!(strip_prefix_str("Summary: text", "Summary: ").as_deref(), Some("text"));
    assert!(strip_prefix_str("Sum: text", "Summary: ").is_none());
    assert_eq!(strip_suffix_char("entry:", ':').as_deref(), Some("entry"));
    assert!(strip_suffix_char("entry", ':').is_none());
    assert!(strip_suffix_char("", ':').is_none());
}

#[test]
fn sorted_insertion_keeps_order_and_uniqueness() {
    let mut v: Vec<String> = Vec::new();
    insert_sorted_unique(&mut v, "pear".to_string());
    insert_sorted_unique(&mut v, "apple".to_string());
    insert_sorted_unique(&mut v, "mango".to_string());
    insert_sorted_unique(&mut v, "apple".to_string());
    assert_eq!(v, vec!["apple".to_string(), "mango".to_string(), "pear".to_string()]);
}

#[test]
fn json_object_lookup_through_parsing() {
    let doc = parse_json("{\"alpha\":1,\"beta\":\"two\",\"gamma\":null}").expect("valid json");
    let JsonVal::Obj(fields) = &doc else {
        panic!("expected an object");
    };
    assert!(matches!(obj_get(fields, "gamma"), Some(JsonVal::Null)));
    match obj_get(fields, "beta") {
        Some(JsonVal::Str(s)) => assert_eq!(s, "two"),
        _ => panic!("expected a string"),
    }
    match obj_get(fields, "alpha") {
        Some(JsonVal::Num(n)) => assert_eq!(n, "1"),
        _ => panic!("expected a number"),
    }
    assert!(obj_get(fields, "delta").is_none());
}

#[test]
fn cache_entry_with_real_clock() {
    // A generous time-to-live keeps a fresh entry valid under the real
    // clock; the cache returns the exact payload just stored.
    let e = depmgr::CacheEntry::new("payload".to_string(), 1000000);
    assert!(!e.is_expired());
    let mut cache = depmgr::TtlCache::new();
    cache.set_cached("k".to_string(), "v".to_string(), 1000000);
    assert_eq!(cache.get_cached("k").as_deref(), Some("v"));
}

#[test]
fn format_size_at_the_extremes() {
    // The largest byte count stays within integer arithmetic.
    assert_eq!(depmgr::format_size(u64::MAX), "17179869184.0 GB");
    assert_eq!(depmgr::format_size(1023), "1023.0 B");
    // Rounding carries across the decimal point.
    assert_eq!(depmgr::format_size(2047), "2.0 KB");
}
