use featureflags::models::{Flag, FlagDef, Rule, RuleValue};

#[test]
fn flag_round_trips_through_definition() {
    let flag = Flag {
        name: "beta".into(),
        description: "d".into(),
        enabled: false,
        rules: vec![Rule {
            attribute: "country".into(),
            operator: "eq".into(),
            value: RuleValue::Str("ES".into()),
            enabled: true,
            variant: Some("v".into()),
        }],
    };
    let (name, def): (String, FlagDef) = flag.to_entry();
    assert_eq!(name, "beta");
    assert_eq!(def.description, "d");
    assert!(!def.enabled);
    assert_eq!(def.rules.len(), 1);
    let back = Flag::from((name, def));
    assert_eq!(back.name, "beta");
    assert_eq!(back.rules[0].attribute, "country");
    assert_eq!(back.rules[0].variant.as_deref(), Some("v"));
}
