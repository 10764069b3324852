//! Unit-level checks of the building blocks: decimal rendering, string
//! comparison, JSON accessors and line rendering.

use std::cmp::Ordering;

use feedback_csv::json::Json;
use feedback_csv::record::{opt_str, Record};
use feedback_csv::json::str_eq;
use feedback_csv::text::{str_cmp, u64_to_string};

#[test]
fn decimal_rendering() {
    assert_eq!(u64_to_string(0), "0");
    assert_eq!(u64_to_string(7), "7");
    assert_eq!(u64_to_string(10), "10");
    assert_eq!(u64_to_string(907), "907");
    assert_eq!(u64_to_string(u64::MAX), "18446744073709551615");
}

#[test]
fn string_comparison_is_byte_wise() {
    assert_eq!(str_cmp("a", "b"), Ordering::Less);
    assert_eq!(str_cmp("b", "a"), Ordering::Greater);
    assert_eq!(str_cmp("same", "same"), Ordering::Equal);
    assert_eq!(str_cmp("", "a"), Ordering::Less);
    assert_eq!(str_cmp("ab", "a"), Ordering::Greater);
    assert_eq!(str_cmp("10", "9"), Ordering::Less);
}

#[test]
fn string_equality() {
    assert!(str_eq("", ""));
    assert!(str_eq("abc", "abc"));
    assert!(!str_eq("abc", "abd"));
    assert!(!str_eq("abc", "ab"));
}

#[test]
fn optional_fields_render_empty() {
    assert_eq!(opt_str(&None), "");
    assert_eq!(opt_str(&Some("male".to_string())), "male");
}

#[test]
fn json_object_lookup() {
    let obj = Json::Obj(vec![
        ("count".to_string(), Json::UInt(3)),
        ("name".to_string(), Json::Str("n".to_string())),
        ("neg".to_string(), Json::Int(-1)),
    ]);
    assert!(matches!(obj.get("count"), Some(Json::UInt(3))));
    assert!(obj.get("absent").is_none());
    assert_eq!(obj.get("count").unwrap().as_u64(), Some(3));
    assert_eq!(obj.get("neg").unwrap().as_u64(), None);
    assert_eq!(obj.get("name").unwrap().as_str().map(|s| s.as_str()), Some("n"));
    assert!(Json::Null.get("count").is_none());
}

#[test]
fn render_line_joins_eight_fields() {
    let rec = Record {
        id: "id1".to_string(),
        author_id: "a1".to_string(),
        author_name: "Name".to_string(),
        author_gender: None,
        timestamp: "1970-01-01 00:00:00 UTC".to_string(),
        reactions: 42,
        url: "http://example/1".to_string(),
        comment: Some("fine".to_string()),
    };
    assert_eq!(
        rec.render_line(),
        "id1;a1;Name;;1970-01-01 00:00:00 UTC;42;http://example/1;fine"
    );
}
