use featureflags::eval::{evaluate, rule_matches};
use featureflags::hashing::stable_bucket;
use featureflags::models::{Flag, Rule, RuleValue};

fn flag_with_rules(rules: Vec<Rule>) -> Flag {
    Flag {
        name: "test".into(),
        description: "".into(),
        enabled: true,
        rules,
    }
}

fn rule(attribute: &str, operator: &str, value: RuleValue, enabled: bool) -> Rule {
    Rule {
        attribute: attribute.into(),
        operator: operator.into(),
        value,
        enabled,
        variant: None,
    }
}

fn attrs(pairs: &[(&str, &str)]) -> Vec<(String, String)> {
    pairs.iter().map(|(k, v)| (k.to_string(), v.to_string())).collect()
}

#[test]
fn disabled_flag_returns_false() {
    let flag = Flag {
        name: "x".into(),
        description: "".into(),
        enabled: false,
        rules: vec![],
    };
    assert!(!evaluate(&flag, "u1", &Vec::new()));
}

#[test]
fn no_rules_returns_flag_enabled() {
    let flag = Flag {
        name: "x".into(),
        description: "".into(),
        enabled: true,
        rules: vec![],
    };
    assert!(evaluate(&flag, "u1", &Vec::new()));
}

#[test]
fn eq_rule_matches() {
    let flag = flag_with_rules(vec![rule("country", "eq", RuleValue::Str("ES".into()), true)]);
    let a = attrs(&[("country", "ES")]);
    assert!(evaluate(&flag, "u1", &a));
}

#[test]
fn eq_rule_mismatch() {
    let flag = flag_with_rules(vec![rule("country", "eq", RuleValue::Str("ES".into()), true)]);
    let a = attrs(&[("country", "FR")]);
    assert!(evaluate(&flag, "u1", &a)); // no rule match → fallback flag.enabled
}

#[test]
fn percent_is_stable() {
    let flag = flag_with_rules(vec![rule("user_id", "percent", RuleValue::Int(100), true)]);
    let a = Vec::new();
    let r1 = evaluate(&flag, "user123", &a);
    let r2 = evaluate(&flag, "user123", &a);
    assert_eq!(r1, r2);
}

#[test]
fn disabled_flag_ignores_matching_rules() {
    let mut flag = flag_with_rules(vec![rule("*", "eq", RuleValue::Null, true)]);
    flag.enabled = false;
    assert!(!evaluate(&flag, "u1", &attrs(&[("country", "ES")])));
}

#[test]
fn stable_bucket_values() {
    assert_eq!(stable_bucket("test:user123"), 7);
    assert_eq!(stable_bucket("beta:u1"), 99);
    assert_eq!(stable_bucket(""), 62);
    assert_eq!(stable_bucket("test:u25"), 100);
}

#[test]
fn percent_zero_is_always_off() {
    let flag = flag_with_rules(vec![rule("user_id", "percent", RuleValue::Int(0), true)]);
    for u in ["u1", "u25", "user123", ""] {
        assert!(!evaluate(&flag, u, &Vec::new()));
    }
}

#[test]
fn percent_hundred_excludes_only_last_bucket() {
    let flag = flag_with_rules(vec![rule("user_id", "percent", RuleValue::Int(100), true)]);
    assert!(evaluate(&flag, "user123", &Vec::new()));
    assert!(evaluate(&flag, "u1", &Vec::new()));
    assert!(!evaluate(&flag, "u25", &Vec::new()));
}

#[test]
fn percent_disabled_rule_is_off() {
    let flag = flag_with_rules(vec![rule("user_id", "percent", RuleValue::Int(100), false)]);
    assert!(!evaluate(&flag, "user123", &Vec::new()));
}

#[test]
fn percent_non_numeric_falls_through() {
    let flag = flag_with_rules(vec![
        rule("user_id", "percent", RuleValue::Str("50".into()), true),
        rule("user_id", "percent", RuleValue::Int(0), true),
    ]);
    assert!(!evaluate(&flag, "user123", &Vec::new()));
    assert_eq!(rule_matches(&flag.rules[0], 7, &Vec::new()), None);
    assert_eq!(rule_matches(&flag.rules[1], 7, &Vec::new()), Some(false));
}

#[test]
fn beta_scenario() {
    let flag = Flag {
        name: "beta".into(),
        description: "".into(),
        enabled: true,
        rules: vec![rule("country", "eq", RuleValue::Str("ES".into()), true)],
    };
    assert!(evaluate(&flag, "u1", &attrs(&[("country", "ES")])));
    assert!(evaluate(&flag, "u1", &attrs(&[("country", "FR")])));
}

#[test]
fn eq_rule_disabled_verdict_wins() {
    let flag = flag_with_rules(vec![rule("country", "eq", RuleValue::Str("ES".into()), false)]);
    assert!(!evaluate(&flag, "u1", &attrs(&[("country", "ES")])));
    assert!(evaluate(&flag, "u1", &attrs(&[("country", "FR")])));
    assert!(evaluate(&flag, "u1", &Vec::new()));
}

#[test]
fn eq_rule_integer_value() {
    let r = rule("age", "eq", RuleValue::Int(42), true);
    assert_eq!(rule_matches(&r, 0, &attrs(&[("age", "42")])), Some(true));
    assert_eq!(rule_matches(&r, 0, &attrs(&[("age", "042")])), None);
    let n = rule("delta", "eq", RuleValue::Int(-7), false);
    assert_eq!(rule_matches(&n, 0, &attrs(&[("delta", "-7")])), Some(false));
}

#[test]
fn eq_rule_float_value() {
    let r = rule("ratio", "eq", RuleValue::Float("1.5".into()), true);
    assert_eq!(rule_matches(&r, 0, &attrs(&[("ratio", "1.5")])), Some(true));
    assert_eq!(rule_matches(&r, 0, &attrs(&[("ratio", "1.50")])), None);
}

#[test]
fn first_matching_rule_wins() {
    let flag = flag_with_rules(vec![
        rule("country", "eq", RuleValue::Str("FR".into()), true),
        rule("country", "eq", RuleValue::Str("ES".into()), false),
        rule("*", "eq", RuleValue::Null, true),
    ]);
    assert!(!evaluate(&flag, "u1", &attrs(&[("country", "ES")])));
    assert!(evaluate(&flag, "u1", &attrs(&[("country", "FR")])));
    assert!(evaluate(&flag, "u1", &attrs(&[("country", "DE")])));
}

#[test]
fn wildcard_rule_always_matches() {
    let star = rule("*", "anything", RuleValue::Null, false);
    let empty = rule("", "percent", RuleValue::Int(100), false);
    assert_eq!(rule_matches(&star, 3, &Vec::new()), Some(false));
    assert_eq!(rule_matches(&empty, 100, &attrs(&[("a", "b")])), Some(false));
    let flag = flag_with_rules(vec![star]);
    assert!(!evaluate(&flag, "u1", &Vec::new()));
}

#[test]
fn unknown_operator_never_matches() {
    let r = rule("country", "neq", RuleValue::Str("ES".into()), false);
    assert_eq!(rule_matches(&r, 0, &attrs(&[("country", "ES")])), None);
}
