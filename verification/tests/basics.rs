use algocline_app::calendar::{days_to_ymd, format_iso8601};
use algocline_app::json::Json;
use algocline_app::name_map::NameMap;
use algocline_app::order::str_lt;
use algocline_app::paths::{
    check_contained, child, file_name, is_absolute, join, list_ancestors, parent, split_extension,
};
use algocline_app::text::{
    byte_count, decimal_of, ends_with, first_chars, first_word_of, join_names, pad_zeros,
    signed_padded_of, spell, starts_with, strip_suffix, text_after_last, to_lower, trim,
    trim_end_of,
};

#[test]
fn names_are_kept_sorted() {
    let mut m: NameMap<u64> = NameMap::new();
    m.insert("b".to_string(), 1);
    m.insert("a".to_string(), 2);
    m.insert("b".to_string(), 3);
    assert_eq!(m.len(), 2);
    assert_eq!(m.at(0), (&"a".to_string(), &2));
    assert_eq!(m.at(1), (&"b".to_string(), &3));
    assert_eq!(m.get("b"), Some(&3));
    assert!(m.contains("a"));
    m.remove("a");
    m.remove("zzz");
    assert_eq!(m.get("a"), None);
    assert_eq!(m.len(), 1);
}

#[test]
fn texts_are_ordered_as_their_bytes_are() {
    assert!(str_lt("a", "b"));
    assert!(str_lt("a", "aa"));
    assert!(str_lt("Z", "a"));
    assert!(!str_lt("a", "a"));
    assert!(str_lt("z", "\u{e9}"));
}

#[test]
fn numbers_are_spelled() {
    assert_eq!(decimal_of(0), "0");
    assert_eq!(decimal_of(18446744073709551615), "18446744073709551615");
    assert_eq!(spell(255, 16), "ff");
    assert_eq!(pad_zeros("7", 3), "007");
    assert_eq!(signed_padded_of(-7, 4), "-007");
    assert_eq!(signed_padded_of(12345, 4), "12345");
}

#[test]
fn texts_are_taken_apart() {
    assert_eq!(trim("  a b\t\n"), "a b");
    assert_eq!(trim_end_of("a///", "/"), "a");
    assert_eq!(trim_end_of("x.git.git", ".git"), "x");
    assert_eq!(strip_suffix("a.json", ".json").as_deref(), Some("a"));
    assert_eq!(text_after_last("a/b/c", '/'), "c");
    assert_eq!(text_after_last("abc", '/'), "abc");
    assert_eq!(first_word_of("  abc def"), "abc");
    assert_eq!(first_chars("\u{e9}bc", 2), "\u{e9}b");
    assert_eq!(byte_count("\u{e9}b"), 3);
    assert_eq!(to_lower("AbC"), "abc");
    assert_eq!(join_names(&vec!["a".to_string(), "b".to_string()], ", "), "a, b");
    assert!(starts_with("abc", "ab") && ends_with("abc", "bc") && !starts_with("a", "ab"));
}

#[test]
fn paths_are_joined_and_split() {
    assert_eq!(join("/a", "b"), "/a/b");
    assert_eq!(join("/a/", "b"), "/a/b");
    assert_eq!(join("/a", "/b"), "/b");
    assert_eq!(join("", "b"), "b");
    assert!(is_absolute("/a") && !is_absolute("a"));
    assert_eq!(file_name("/a/b.lua").as_deref(), Some("b.lua"));
    assert_eq!(file_name("/a/b/").as_deref(), Some("b"));
    assert_eq!(file_name("/"), None);
    assert_eq!(file_name("a/.."), None);
    assert_eq!(parent("/a/b").as_deref(), Some("/a"));
    assert_eq!(parent("/"), None);
    assert_eq!(parent("a").as_deref(), Some(""));
    assert_eq!(
        split_extension("a.tar.gz"),
        ("a.tar".to_string(), Some("gz".to_string()))
    );
    assert_eq!(split_extension(".hidden"), (".hidden".to_string(), None));
    assert_eq!(list_ancestors("/a/b"), ["/a/b", "/a", "/"]);
}

#[test]
fn children_stay_in_their_directory() {
    assert_eq!(child("/d", "a.json").unwrap(), "/d/a.json");
    for bad in ["../a", "/a", "a/../../b"] {
        assert_eq!(
            child("/d", bad).unwrap_err(),
            format!("Invalid path component in '{bad}': path traversal detected")
        );
    }
    assert!(check_contained("/d", "/d/a", "a").is_ok());
    assert!(check_contained("/d", "/d2/a", "a").is_err());
}

#[test]
fn json_is_read_and_written() {
    let doc = Json::parse(r#" {"b":[1,-2,1.5,null,true,"x"],"a":{}} "#).unwrap();
    assert_eq!(doc.render(), r#"{"a":{},"b":[1,-2,1.5,null,true,"x"]}"#);
    assert_eq!(
        Json::parse("[1]").unwrap().render_pretty(),
        "[\n  1\n]"
    );
    assert_eq!(Json::text("a\"b").render_debug(), r#"String("a\"b")"#);
    assert!(Json::parse("{").is_err());
    assert!(matches!(doc.get("a"), Some(Json::Object(_))));
    assert!(doc.get("z").is_none());
    let doc = Json::object().with("n", Json::UInt(1)).set("n", Json::UInt(2));
    assert_eq!(doc.clone().render(), r#"{"n":2}"#);
}

#[test]
fn days_become_dates() {
    assert_eq!(days_to_ymd(0), (1970, 1, 1));
    assert_eq!(days_to_ymd(59), (1970, 3, 1));
    assert_eq!(days_to_ymd(19782), (2024, 2, 29));
    assert_eq!(format_iso8601(0), "1970-01-01T00:00:00Z");
    assert_eq!(format_iso8601(1786612364), "2026-08-13T09:12:44Z");
}
