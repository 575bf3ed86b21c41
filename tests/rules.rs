use shaayud_core::decimal::{parse_decimal, Decimal};
use shaayud_core::json::{JsonValue, Member};
use shaayud_core::score::{eval_score, matches_cond, validate_rule_set, Cond, Rule, RuleSet};
use shaayud_core::graph::IngestError;

fn text(s: &str) -> JsonValue {
    JsonValue::Str(s.to_string())
}

fn num(n: i64) -> JsonValue {
    JsonValue::Number(Decimal { mantissa: n, scale: 0 })
}

fn object(members: Vec<(&str, JsonValue)>) -> JsonValue {
    JsonValue::Object(
        members
            .into_iter()
            .map(|(k, v)| Member { key: k.to_string(), value: v })
            .collect(),
    )
}

fn gt(path: &str, threshold: i64) -> Cond {
    Cond::Gt { gt: (path.to_string(), Decimal { mantissa: threshold, scale: 0 }) }
}

fn eq(path: &str, value: JsonValue) -> Cond {
    Cond::Eq { eq: (path.to_string(), value) }
}

fn rule(id: &str, when: Cond, score: i64, desc: Option<&str>) -> Rule {
    Rule { id: id.to_string(), when, score, desc: desc.map(|d| d.to_string()) }
}

#[test]
fn empty_all_is_true_and_empty_any_is_false() {
    let bag = object(vec![("a", num(1))]);
    assert!(matches_cond(&bag, &Cond::All { all: vec![] }));
    assert!(!matches_cond(&bag, &Cond::Any { any: vec![] }));
    assert!(matches_cond(&JsonValue::Null, &Cond::All { all: vec![] }));
    assert!(!matches_cond(&JsonValue::Null, &Cond::Any { any: vec![] }));
}

#[test]
fn gt_coerces_numeric_strings() {
    let bag = object(vec![("feat", object(vec![("n", text("10")), ("s", text("abc"))]))]);
    assert!(matches_cond(&bag, &gt("feat.n", 5)));
    assert!(!matches_cond(&bag, &gt("feat.s", 5)));
    assert!(!matches_cond(&bag, &gt("feat.n", 10)));
    assert!(!matches_cond(&bag, &gt("feat.missing", 5)));
}

#[test]
fn gt_coerces_booleans_and_fractions() {
    let bag = object(vec![
        ("t", JsonValue::Bool(true)),
        ("f", JsonValue::Bool(false)),
        ("x", text("-2.5")),
        ("nil", JsonValue::Null),
    ]);
    assert!(matches_cond(&bag, &gt("t", 0)));
    assert!(!matches_cond(&bag, &gt("f", 0)));
    assert!(matches_cond(&bag, &Cond::Gt { gt: ("x".to_string(), Decimal { mantissa: -3, scale: 0 }) }));
    assert!(!matches_cond(&bag, &gt("x", -2)));
    assert!(!matches_cond(&bag, &gt("nil", -100)));
}

#[test]
fn eq_is_type_sensitive() {
    let bag = object(vec![("event", object(vec![("type", text("POST /x")), ("n", num(1))]))]);
    assert!(matches_cond(&bag, &eq("event.type", text("POST /x"))));
    assert!(!matches_cond(&bag, &eq("event.type", text("GET /x"))));
    assert!(matches_cond(&bag, &eq("event.n", num(1))));
    assert!(!matches_cond(&bag, &eq("event.n", text("1"))));
    assert!(!matches_cond(&bag, &eq("event.type.deeper", text("POST /x"))));
}

#[test]
fn regex_matches_anywhere_and_bad_pattern_is_false() {
    let bag = object(vec![("ua", text("Mozilla/5.0 HeadlessChrome/120")), ("n", num(3))]);
    let re = |p: &str| Cond::Regex { regex: ("ua".to_string(), p.to_string()) };
    assert!(matches_cond(&bag, &re("Headless")));
    assert!(matches_cond(&bag, &re("Chrome/\\d+$")));
    assert!(!matches_cond(&bag, &re("^Headless")));
    assert!(!matches_cond(&bag, &re("(unclosed")));
    assert!(!matches_cond(&bag, &Cond::Regex { regex: ("n".to_string(), "3".to_string()) }));
}

#[test]
fn evaluate_sums_matched_rules_in_declaration_order() {
    let bag = object(vec![("feat", object(vec![("a", num(7)), ("b", JsonValue::Bool(true))]))]);
    let rules = RuleSet {
        version: 1,
        default: 10,
        rules: vec![
            rule("r1", gt("feat.a", 5), 20, Some("a above five")),
            rule("r2", gt("feat.a", 50), 1000, None),
            rule("r3", eq("feat.b", JsonValue::Bool(true)), -3, None),
            rule("r4", Cond::Any { any: vec![] }, 7, None),
        ],
    };
    let s = eval_score(&bag, &rules);
    assert_eq!(s.total, 27);
    assert_eq!(s.matched.len(), 2);
    assert_eq!(s.matched[0], ("r1".to_string(), 20, Some("a above five".to_string())));
    assert_eq!(s.matched[1], ("r3".to_string(), -3, None));
}

#[test]
fn evaluate_at_the_edges_of_the_range() {
    let bag = object(vec![("x", num(2))]);
    let rules = RuleSet { version: 1, default: -10, rules: vec![rule("big", gt("x", 1), i64::MAX, None)] };
    assert_eq!(eval_score(&bag, &rules).total, i64::MAX - 10);
    let rules = RuleSet { version: 1, default: i64::MIN, rules: vec![] };
    assert_eq!(eval_score(&bag, &rules).total, i64::MIN);
}

#[test]
fn evaluate_needs_only_the_matched_totals_to_fit() {
    let bag = object(vec![("x", num(0))]);
    let rules = RuleSet { version: 1, default: 1, rules: vec![rule("never", gt("x", 1), i64::MAX, None)] };
    let s = eval_score(&bag, &rules);
    assert_eq!(s.total, 1);
    assert!(s.matched.is_empty());
}

#[test]
fn evaluate_with_no_match_gives_default() {
    let rules = RuleSet { version: 1, default: -4, rules: vec![rule("r", gt("x", 1), 9, None)] };
    let s = eval_score(&JsonValue::Null, &rules);
    assert_eq!(s.total, -4);
    assert!(s.matched.is_empty());
}

#[test]
fn rule_set_that_could_overflow_is_a_configuration_error() {
    let ok = RuleSet { version: 1, default: 0, rules: vec![rule("r", gt("x", 1), i64::MAX, None)] };
    assert_eq!(validate_rule_set(&ok), Ok(()));
    let bad = RuleSet {
        version: 1,
        default: 1,
        rules: vec![rule("r", gt("x", 1), i64::MAX, None)],
    };
    assert_eq!(validate_rule_set(&bad), Err(IngestError::ConfigurationError));
    let min_default = RuleSet { version: 1, default: i64::MIN, rules: vec![] };
    assert_eq!(validate_rule_set(&min_default), Ok(()));
    let offset = RuleSet { version: 1, default: -10, rules: vec![rule("r", gt("x", 1), i64::MAX, None)] };
    assert_eq!(validate_rule_set(&offset), Ok(()));
    let too_low = RuleSet {
        version: 1,
        default: i64::MIN,
        rules: vec![rule("a", gt("x", 1), 5, None), rule("b", gt("x", 1), -1, None)],
    };
    assert_eq!(validate_rule_set(&too_low), Err(IngestError::ConfigurationError));
}

#[test]
fn decimal_text_is_read_exactly() {
    assert_eq!(parse_decimal("10"), Some(Decimal { mantissa: 10, scale: 0 }));
    assert_eq!(parse_decimal("-3.25"), Some(Decimal { mantissa: -325, scale: 2 }));
    assert_eq!(parse_decimal("+0.5"), Some(Decimal { mantissa: 5, scale: 1 }));
    assert_eq!(parse_decimal("abc"), None);
    assert_eq!(parse_decimal(""), None);
    assert_eq!(parse_decimal("1."), None);
    assert_eq!(parse_decimal(".5"), None);
    assert_eq!(parse_decimal("9223372036854775807"), Some(Decimal { mantissa: i64::MAX, scale: 0 }));
    assert_eq!(parse_decimal("-9223372036854775808"), Some(Decimal { mantissa: i64::MIN, scale: 0 }));
    assert_eq!(parse_decimal("9223372036854775808"), None);
}
