use edge_orchestrator::error::CoreError;
use edge_orchestrator::outside::json::Json;
use edge_orchestrator::paths::{expand_tilde, file_name_of, join_path, parent_of};
use edge_orchestrator::table::TextTable;
use edge_orchestrator::text::{
    decimal_text, is_suffix, is_text_le, lines_of, lower_text, signed_text, tail_of, trim_text,
    without_prefix,
};

#[test]
fn numbers_are_written_in_decimal() {
    assert_eq!(decimal_text(0), "0");
    assert_eq!(decimal_text(u64::MAX), "18446744073709551615");
    assert_eq!(signed_text(i64::MIN), "-9223372036854775808");
    assert_eq!(signed_text(42), "42");
}

#[test]
fn texts_are_cut_and_compared() {
    assert_eq!(trim_text(" \t a b \n"), "a b");
    assert_eq!(trim_text("\u{3000}x"), "x");
    assert_eq!(lines_of("a\r\nb\n"), vec!["a".to_string(), "b".to_string()]);
    assert_eq!(lower_text("FRESH-Ä"), "fresh-Ä");
    assert_eq!(without_prefix("Pinned:1", "Pinned:"), Some("1".to_string()));
    assert_eq!(without_prefix("pinned:1", "Pinned:"), None);
    assert!(is_suffix("main.c", ".c"));
    assert!(is_text_le("a", "ab"));
    assert!(!is_text_le("b", "ab"));
    assert_eq!(tail_of("1\n2\n3", 2, "\n"), "2\n3");
}

#[test]
fn paths_are_taken_apart_and_joined() {
    assert_eq!(parent_of("/root/project"), Some("/root".to_string()));
    assert_eq!(parent_of("/"), None);
    assert_eq!(file_name_of("/root/project/"), Some("project".to_string()));
    assert_eq!(file_name_of("/root/.."), None);
    assert_eq!(join_path("/a", "b"), "/a/b");
    assert_eq!(join_path("/a/", "b"), "/a/b");
    assert_eq!(join_path("/a", "/b"), "/b");
    assert_eq!(expand_tilde("~/x", Some("/h")), "/h/x");
    assert_eq!(expand_tilde("~x", Some("/h")), "~x");
}

#[test]
fn paths_agree_with_std() {
    for p in [
        "/", "", "a", "a/", "/a", "/a/b", "a/./b", "a/b/..", "//a//b//", ".", "./a", "..", "/..",
    ] {
        let path = std::path::Path::new(p);
        assert_eq!(
            parent_of(p),
            path.parent().map(|x| x.to_str().unwrap().to_string()),
            "{p}"
        );
        assert_eq!(
            file_name_of(p),
            path.file_name().map(|x| x.to_str().unwrap().to_string()),
            "{p}"
        );
    }
}

#[test]
fn table_holds_one_value_for_a_key() {
    let mut t = TextTable::new();
    t.insert("a".to_string(), 1);
    t.insert("b".to_string(), 2);
    t.insert("a".to_string(), 3);
    assert_eq!(t.len(), 2);
    assert_eq!(t.get("a"), Some(&3));
    assert_eq!(t.key_at(1), "b");
    assert_eq!(t.value_at(1), &2);
    assert_eq!(t.remove("a"), Some(3));
    assert_eq!(t.remove("a"), None);
    assert_eq!(t.len(), 1);
}

#[test]
fn errors_say_what_they_are_about() {
    assert_eq!(
        CoreError::HashMismatch {
            expected: "a".into(),
            computed: "b".into(),
        }
        .to_string(),
        "hash mismatch: expected a, computed b"
    );
    assert_eq!(
        CoreError::ObjectNotFound("h".into()).to_string(),
        "object not found: h"
    );
    assert_eq!(CoreError::NotLeader(None), CoreError::NotLeader(None));
    assert!(CoreError::NotLeader(Some(3)).to_string().contains('3'));
    assert_eq!(
        CoreError::from_uuid("bad length"),
        CoreError::InvalidState("invalid UUID: bad length".into())
    );
    assert_eq!(
        CoreError::from_io("disk full".into()),
        CoreError::StorageIo("disk full".into())
    );
    assert_eq!(
        CoreError::from_json("expected value".into()),
        CoreError::Serialization("expected value".into())
    );
}

#[test]
fn json_values_are_read_by_key_and_place() {
    let j = Json::object1("a", Json::Unsigned(1)).with("b", Json::text("x"));
    assert_eq!(j.u64_field("a"), Some(1));
    assert_eq!(j.str_field("b"), Some("x"));
    assert_eq!(j.get("c"), None);
    let list = Json::texts(&vec!["p".to_string(), "q".to_string()]);
    assert_eq!(list.item(1), Some(&Json::text("q")));
    assert_eq!(list.item(2), None);
    assert_eq!(j.take("a"), Json::Unsigned(1));
}
