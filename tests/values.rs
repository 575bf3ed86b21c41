use shaayud_core::decimal::{greater_than, read_number, Decimal, Reading};
use shaayud_core::facts::Timestamp;
use shaayud_core::ingest::{build_fact_bag, extract_facts, EventoInput};
use shaayud_core::json::{json_equal, JsonValue, Member};
use shaayud_core::score::{matches_cond, regex_verdict, Cond, Op};
use shaayud_core::text::{contains_text, is_blank, text_equal};

fn dec(mantissa: i64, scale: u8) -> Decimal {
    Decimal { mantissa, scale }
}

fn text(s: &str) -> JsonValue {
    JsonValue::Str(s.to_string())
}

#[test]
fn decimals_compare_across_scales() {
    assert!(greater_than(dec(10, 0), dec(5, 0)));
    assert!(!greater_than(dec(5, 0), dec(5, 0)));
    assert!(greater_than(dec(51, 1), dec(5, 0)));
    assert!(!greater_than(dec(50, 1), dec(5, 0)));
    assert!(greater_than(dec(5, 0), dec(4999, 3)));
    assert!(greater_than(dec(-1, 2), dec(-1, 1)));
    assert!(greater_than(dec(i64::MAX, 0), dec(1, 200)));
    assert!(!greater_than(dec(i64::MIN, 0), dec(-1, 0)));
    assert!(!greater_than(dec(9, 0), dec(i64::MAX, 18)));
    assert!(greater_than(dec(10, 0), dec(i64::MAX, 18)));
}

#[test]
fn json_equality_is_structural() {
    let arr = |xs: Vec<JsonValue>| JsonValue::Array(xs);
    let obj = |k: &str, v: JsonValue| JsonValue::Object(vec![Member { key: k.to_string(), value: v }]);
    assert!(json_equal(&arr(vec![text("a"), JsonValue::Null]), &arr(vec![text("a"), JsonValue::Null])));
    assert!(!json_equal(&arr(vec![text("a")]), &arr(vec![text("a"), JsonValue::Null])));
    assert!(json_equal(&obj("k", JsonValue::Bool(true)), &obj("k", JsonValue::Bool(true))));
    assert!(!json_equal(&obj("k", JsonValue::Bool(true)), &obj("j", JsonValue::Bool(true))));
    assert!(json_equal(&JsonValue::Number(dec(10, 1)), &JsonValue::Number(dec(1, 0))));
    assert!(!json_equal(&JsonValue::Number(dec(11, 1)), &JsonValue::Number(dec(1, 0))));
    assert!(!json_equal(&JsonValue::Null, &JsonValue::Bool(false)));
}

#[test]
fn lookup_takes_first_member_with_the_key() {
    let v = JsonValue::Object(vec![
        Member { key: "k".to_string(), value: text("first") },
        Member { key: "k".to_string(), value: text("second") },
    ]);
    assert!(matches!(v.get("k"), Some(JsonValue::Str(s)) if s == "first"));
    assert!(v.get("missing").is_none());
    assert!(text("x").get("k").is_none());
    assert!(matches!(text("x").as_str(), Some(s) if s == "x"));
    assert!(JsonValue::Null.as_str().is_none());
}

#[test]
fn tagged_form_means_the_same_condition() {
    let bag = JsonValue::Object(vec![Member { key: "n".to_string(), value: text("7") }]);
    let c = Op::Gt("n".to_string(), dec(6, 0)).into_cond();
    assert!(matches!(c, Cond::Gt { .. }));
    assert!(matches_cond(&bag, &c));
    let c = Op::Any(vec![Op::Eq("n".to_string(), text("8")).into_cond()]).into_cond();
    assert!(!matches_cond(&bag, &c));
    let c = Op::Regex("n".to_string(), "^7$".to_string()).into_cond();
    assert!(matches_cond(&bag, &c));
}

#[test]
fn regex_verdict_needs_a_compiled_match() {
    assert!(regex_verdict(Some(true)));
    assert!(!regex_verdict(Some(false)));
    assert!(!regex_verdict(None));
}

#[test]
fn timestamps_out_of_range_are_refused() {
    assert!(Timestamp::from_millis(i64::MAX).is_none());
    let t = Timestamp::from_millis(0).expect("epoch");
    assert_eq!(t.rfc3339, "1970-01-01T00:00:00+00:00");
    assert_eq!(t.epoch_seconds(), 0);
}

#[test]
fn text_equality_by_characters() {
    assert!(text_equal("héllo", "héllo"));
    assert!(!text_equal("héllo", "hello"));
    assert!(!text_equal("a", "ab"));
    assert!(text_equal("", ""));
}

#[test]
fn visible_user_agent_is_not_blank() {
    let data = EventoInput {
        shaayud_id: "u".to_string(),
        fingerprint: JsonValue::Null,
        ip: String::new(),
        user_agent: "  curl/8  ".to_string(),
        header: JsonValue::Null,
        timestamp: Timestamp::from_millis(0).expect("epoch"),
        method: "GET".to_string(),
        path: "/".to_string(),
        session_id: None,
        event_id: None,
        event_type: None,
        geo: None,
        front_url: None,
        front_path: None,
        front_referrer: None,
        backend_path: None,
        backend_method: None,
        backend_host: None,
        ts_start: None,
        ts_end: None,
        viewport: None,
        points_deflate_b64: None,
        clicks: None,
        wheel: None,
    };
    let facts = extract_facts(&data);
    let bag = build_fact_bag(&data, &facts);
    assert!(matches!(bag.get_path("event.ua_empty"), Some(JsonValue::Bool(false))));
    assert!(matches!(bag.get_path("event.user_agent"), Some(JsonValue::Str(s)) if s == "  curl/8  "));
    assert!(matches!(bag.get_path("feat.mouse_points_len"), Some(JsonValue::Number(Decimal { mantissa: 0, scale: 0 }))));
}

#[test]
fn float_text_reads_like_rust_floats() {
    let digits = |neg: bool, d: &str, e: i128| {
        Some(Reading::Digits { negative: neg, digits: d.to_string(), exponent: e })
    };
    assert_eq!(read_number("10"), digits(false, "10", 0));
    assert_eq!(read_number("1e3"), digits(false, "1", 3));
    assert_eq!(read_number("1E+3"), digits(false, "1", 3));
    assert_eq!(read_number("2.5e-3"), digits(false, "25", -4));
    assert_eq!(read_number("1."), digits(false, "1", 0));
    assert_eq!(read_number(".5"), digits(false, "5", -1));
    assert_eq!(read_number("+7"), digits(false, "7", 0));
    assert_eq!(read_number("-12.50"), digits(true, "1250", -2));
    assert_eq!(read_number("-0.0"), Some(Reading::Finite(Decimal { mantissa: 0, scale: 0 })));
    assert_eq!(read_number("inf"), Some(Reading::Infinite { negative: false }));
    assert_eq!(read_number("-Infinity"), Some(Reading::Infinite { negative: true }));
    assert_eq!(read_number("1e99999999999999999999999"), Some(Reading::Infinite { negative: false }));
    assert_eq!(read_number("-1e-99999999999999999999999"), Some(Reading::Tiny { negative: true }));
    assert_eq!(read_number("0e99999999999999999999999"), Some(Reading::Finite(Decimal { mantissa: 0, scale: 0 })));
    assert_eq!(read_number("NaN"), None);
    assert_eq!(read_number("abc"), None);
    assert_eq!(read_number("."), None);
    assert_eq!(read_number("1e"), None);
    assert_eq!(read_number("e5"), None);
    assert_eq!(read_number(""), None);
    assert_eq!(read_number("1 "), None);
}

#[test]
fn gt_reads_exponents_and_infinities() {
    let bag = |s: &str| JsonValue::Object(vec![Member { key: "x".to_string(), value: text(s) }]);
    let gt5 = Cond::Gt { gt: ("x".to_string(), dec(5, 0)) };
    assert!(matches_cond(&bag("1e3"), &gt5));
    assert!(!matches_cond(&bag("1."), &gt5));
    assert!(matches_cond(&bag("5.5"), &gt5));
    assert!(!matches_cond(&bag(".5"), &gt5));
    assert!(matches_cond(&bag("inf"), &gt5));
    assert!(!matches_cond(&bag("-inf"), &gt5));
    assert!(!matches_cond(&bag("nan"), &gt5));
    assert!(matches_cond(&bag("1e30"), &gt5));
    assert!(!matches_cond(&bag("-1e30"), &gt5));
    let gt0 = Cond::Gt { gt: ("x".to_string(), dec(0, 0)) };
    assert!(matches_cond(&bag("1e-300"), &gt0));
    assert!(!matches_cond(&bag("-1e-300"), &gt0));
    assert!(!matches_cond(&bag("0.000"), &gt0));
    let gt3 = Cond::Gt { gt: ("x".to_string(), dec(3, 0)) };
    assert!(matches_cond(&bag("3.14159265358979323846"), &gt3));
    assert!(!matches_cond(&bag("2.99999999999999999999999"), &gt3));
    assert!(matches_cond(&bag("5.000000000000000001"), &gt5));
    assert!(!matches_cond(&bag("5.000000000000000000"), &gt5));
    assert!(matches_cond(&bag("123456789012345678901234567890"), &gt5));
    let gt_big = Cond::Gt { gt: ("x".to_string(), dec(i64::MIN, 0)) };
    assert!(matches_cond(&bag("-9223372036854775807"), &gt_big));
    assert!(!matches_cond(&bag("-9223372036854775808"), &gt_big));
    assert!(!matches_cond(&bag("-92233720368547758080e-1"), &gt_big));
    let gt_frac = Cond::Gt { gt: ("x".to_string(), dec(125, 2)) };
    assert!(matches_cond(&bag("1.2500000000000000000001"), &gt_frac));
    assert!(!matches_cond(&bag("125e-2"), &gt_frac));
    assert!(matches_cond(&bag("12.6e-1"), &gt_frac));
}

#[test]
fn objects_compare_whatever_the_member_order() {
    let m = |k: &str, v: JsonValue| Member { key: k.to_string(), value: v };
    let xy = JsonValue::Object(vec![m("x", JsonValue::Number(dec(1, 0))), m("y", JsonValue::Number(dec(2, 0)))]);
    let yx = JsonValue::Object(vec![m("y", JsonValue::Number(dec(2, 0))), m("x", JsonValue::Number(dec(1, 0)))]);
    let yx3 = JsonValue::Object(vec![m("y", JsonValue::Number(dec(3, 0))), m("x", JsonValue::Number(dec(1, 0)))]);
    let x = JsonValue::Object(vec![m("x", JsonValue::Number(dec(1, 0)))]);
    assert!(json_equal(&xy, &yx));
    assert!(!json_equal(&xy, &yx3));
    assert!(!json_equal(&xy, &x));
    assert!(!json_equal(&x, &xy));
    let bag = JsonValue::Object(vec![m("a", xy)]);
    assert!(matches_cond(&bag, &Cond::Eq { eq: ("a".to_string(), yx) }));
}

#[test]
fn substring_search_and_blank_text() {
    assert!(contains_text("Mozilla Mobile Safari", "Mobile"));
    assert!(!contains_text("Mozilla mobile", "Mobile"));
    assert!(contains_text("abc", ""));
    assert!(!contains_text("ab", "abc"));
    assert!(contains_text("abc", "abc"));
    assert!(is_blank(""));
    assert!(is_blank(" \t\n\u{a0}\u{3000}"));
    assert!(!is_blank(" x "));
    assert!(!is_blank("\u{200b}"));
    assert_eq!(is_blank("\u{2009}\u{85}"), "\u{2009}\u{85}".trim().is_empty());
}
