use vstd::prelude::*;

use crate::hashing::{bucket_of, stable_bucket};
use crate::models::{Flag, Rule, RuleValue};
use crate::text::{decimal_text, find_attribute, int_decimal, is_text, lookup};

verus! {

/// A rule whose attribute is empty or `*` matches every context.
pub open spec fn is_wildcard(attribute: Seq<char>) -> bool {
    attribute.len() == 0 || attribute == seq!['*']
}

/// The text an `eq` rule compares against: strings as they are, numbers in decimal form.
pub open spec fn value_text(v: RuleValue) -> Option<Seq<char>> {
    match v {
        RuleValue::Str(s) => Some(s@),
        RuleValue::Int(i) => Some(int_decimal(i as int)),
        RuleValue::Float(t) => Some(t@),
        _ => None,
    }
}

/// The key hashed for percentage rollouts: `flag name + ":" + user id`.
pub open spec fn bucket_key(flag_name: Seq<char>, user_id: Seq<char>) -> Seq<char> {
    flag_name + seq![':'] + user_id
}

/// The verdict of one rule: `None` when the rule does not match.
pub open spec fn rule_verdict(rule: Rule, bucket: u64, attrs: Seq<(String, String)>) -> Option<bool> {
    if is_wildcard(rule.attribute@) {
        Some(rule.enabled)
    } else if rule.operator@ == seq!['e', 'q'] {
        match lookup(attrs, rule.attribute@) {
            Some(a) => if value_text(rule.value) == Some(a) {
                Some(rule.enabled)
            } else {
                None
            },
            None => None,
        }
    } else if rule.operator@ == seq!['p', 'e', 'r', 'c', 'e', 'n', 't'] {
        match rule.value {
            RuleValue::Int(t) => Some((bucket as int) < (t as int) && rule.enabled),
            _ => None,
        }
    } else {
        None
    }
}

/// The verdict of the first matching rule among `rules`, if any.
pub open spec fn first_verdict(rules: Seq<Rule>, bucket: u64, attrs: Seq<(String, String)>) -> Option<bool>
    decreases rules.len(),
{
    if rules.len() == 0 {
        None
    } else {
        match rule_verdict(rules[0], bucket, attrs) {
            Some(d) => Some(d),
            None => first_verdict(rules.drop_first(), bucket, attrs),
        }
    }
}

/// The decision for a flag: off when the flag is off, else the first matching rule's
/// verdict, else the flag's own switch.
pub open spec fn decision(flag: Flag, user_id: Seq<char>, attrs: Seq<(String, String)>) -> bool {
    if !flag.enabled {
        false
    } else {
        match first_verdict(flag.rules@, bucket_of(bucket_key(flag.name@, user_id)), attrs) {
            Some(d) => d,
            None => flag.enabled,
        }
    }
}

/// Evaluates a flag for a user and their attributes.
pub fn evaluate(flag: &Flag, user_id: &str, attributes: &Vec<(String, String)>) -> (r: bool)
    ensures
        r == decision(*flag, user_id@, attributes@),
{
    if !flag.enabled {
        return false;
    }
    let mut key = flag.name.clone();
    key.append(":");
    key.append(user_id);
    proof {
        reveal_strlit(":");
    }
    assert(key@ =~= bucket_key(flag.name@, user_id@));
    let bucket = stable_bucket(key.as_str());
    let mut i: usize = 0;
    assert(flag.rules@.subrange(0, flag.rules@.len() as int) =~= flag.rules@);
    while i < flag.rules.len()
        invariant
            i <= flag.rules@.len(),
            flag.enabled,
            bucket == bucket_of(bucket_key(flag.name@, user_id@)),
            first_verdict(flag.rules@, bucket, attributes@)
                == first_verdict(flag.rules@.subrange(i as int, flag.rules@.len() as int), bucket, attributes@),
        decreases flag.rules@.len() - i,
    {
        assert(flag.rules@.subrange(i as int, flag.rules@.len() as int).drop_first()
            =~= flag.rules@.subrange(i as int + 1, flag.rules@.len() as int));
        assert(flag.rules@.subrange(i as int, flag.rules@.len() as int)[0] == flag.rules@[i as int]);
        if let Some(d) = rule_matches(&flag.rules[i], bucket, attributes) {
            assert(first_verdict(flag.rules@, bucket, attributes@) == Some(d));

            return d;
        }
        i = i + 1;
    }
    flag.enabled
}

/// The verdict of one rule for a context whose rollout bucket is `bucket`.
pub fn rule_matches(rule: &Rule, bucket: u64, attributes: &Vec<(String, String)>) -> (r: Option<bool>)
    ensures
        r == rule_verdict(*rule, bucket, attributes@),
{
    proof {
        reveal_strlit("*");
        reveal_strlit("eq");
        reveal_strlit("percent");
        reveal_strlit("");
        assert(""@ =~= Seq::<char>::empty());
        assert("*"@ =~= seq!['*']);
        assert("eq"@ =~= seq!['e', 'q']);
        assert("percent"@ =~= seq!['p', 'e', 'r', 'c', 'e', 'n', 't']);
    }
    assert(rule.attribute@.len() == 0 ==> rule.attribute@ =~= Seq::<char>::empty());
    if is_text(&rule.attribute, "") || is_text(&rule.attribute, "*") {
        return Some(rule.enabled);
    }
    if is_text(&rule.operator, "eq") {
        let found = find_attribute(attributes, &rule.attribute);
        match found {
            None => None,
            Some(a) => {
                let same = match &rule.value {
                    RuleValue::Str(s) => *a == *s,
                    RuleValue::Int(i) => *a == decimal_text(*i),
                    RuleValue::Float(t) => *a == *t,
                    _ => false,
                };
                if same {
                    Some(rule.enabled)
                } else {
                    None
                }
            },
        }
    } else if is_text(&rule.operator, "percent") {
        match &rule.value {
            RuleValue::Int(t) => Some((bucket as i128) < (*t as i128) && rule.enabled),
            _ => None,
        }
    } else {
        None
    }
}

/// A flag whose global switch is off evaluates to `false`, whatever its rules and the context.
pub proof fn disabled_flag_is_off(flag: Flag, user_id: Seq<char>, attrs: Seq<(String, String)>)
    requires
        !flag.enabled,
    ensures
        !decision(flag, user_id, attrs),
{
}

/// An enabled flag without rules evaluates to `true` for every context.
pub proof fn enabled_flag_without_rules_is_on(flag: Flag, user_id: Seq<char>, attrs: Seq<(String, String)>)
    requires
        flag.enabled,
        flag.rules@.len() == 0,
    ensures
        decision(flag, user_id, attrs),
{
}

/// A percent rule's verdict depends only on the (flag name, user id) pair: it is the same for
/// any two attribute maps, and it is `bucket < threshold` (and the rule's own switch) where the
/// bucket is the fixed FNV-1a hash of `name:user` modulo 101.
pub proof fn percent_verdict_is_stable(
    rule: Rule,
    flag_name: Seq<char>,
    user_id: Seq<char>,
    attrs1: Seq<(String, String)>,
    attrs2: Seq<(String, String)>,
)
    requires
        !is_wildcard(rule.attribute@),
        rule.operator@ == seq!['p', 'e', 'r', 'c', 'e', 'n', 't'],
    ensures
        rule_verdict(rule, bucket_of(bucket_key(flag_name, user_id)), attrs1)
            == rule_verdict(rule, bucket_of(bucket_key(flag_name, user_id)), attrs2),
        match rule.value {
            RuleValue::Int(t) => rule_verdict(rule, bucket_of(bucket_key(flag_name, user_id)), attrs1)
                == Some((bucket_of(bucket_key(flag_name, user_id)) as int) < (t as int) && rule.enabled),
            _ => rule_verdict(rule, bucket_of(bucket_key(flag_name, user_id)), attrs1) is None,
        },
{
    assert(seq!['p', 'e', 'r', 'c', 'e', 'n', 't'] != seq!['e', 'q']) by {
        assert(seq!['p', 'e', 'r', 'c', 'e', 'n', 't'].len() != seq!['e', 'q'].len());
    }
}

/// An `eq` rule yields its own switch when the attribute is present and equal to the rule's
/// value in text form; when the attribute is absent or different, evaluation falls through to
/// the rules after it.
pub proof fn eq_rule_verdict(
    rule: Rule,
    rest: Seq<Rule>,
    bucket: u64,
    attrs: Seq<(String, String)>,
)
    requires
        !is_wildcard(rule.attribute@),
        rule.operator@ == seq!['e', 'q'],
    ensures
        lookup(attrs, rule.attribute@) is Some && value_text(rule.value) == lookup(attrs, rule.attribute@)
            ==> first_verdict(seq![rule] + rest, bucket, attrs) == Some(rule.enabled),
        lookup(attrs, rule.attribute@) is None || value_text(rule.value) != lookup(attrs, rule.attribute@)
            ==> first_verdict(seq![rule] + rest, bucket, attrs) == first_verdict(rest, bucket, attrs),
{
    assert((seq![rule] + rest)[0] == rule);
    assert((seq![rule] + rest).drop_first() =~= rest);
}

/// A wildcard rule (attribute empty or `*`) matches every context, with its own switch as verdict.
pub proof fn wildcard_rule_always_matches(rule: Rule, bucket: u64, attrs: Seq<(String, String)>)
    requires
        is_wildcard(rule.attribute@),
    ensures
        rule_verdict(rule, bucket, attrs) == Some(rule.enabled),
{
}

/// With the mod-101 buckets, a percent rule with threshold 0 is never on, and one with
/// threshold 100 is on (when the rule itself is enabled) for every bucket but the last.
pub proof fn percent_threshold_edges(rule: Rule, bucket: u64, attrs: Seq<(String, String)>)
    requires
        !is_wildcard(rule.attribute@),
        rule.operator@ == seq!['p', 'e', 'r', 'c', 'e', 'n', 't'],
        bucket < 101,
    ensures
        rule.value == RuleValue::Int(0) ==> rule_verdict(rule, bucket, attrs) == Some(false),
        rule.value == RuleValue::Int(100) ==> rule_verdict(rule, bucket, attrs) == Some(
            bucket != 100 && rule.enabled,
        ),
{
    assert(seq!['p', 'e', 'r', 'c', 'e', 'n', 't'] != seq!['e', 'q']) by {
        assert(seq!['p', 'e', 'r', 'c', 'e', 'n', 't'].len() != seq!['e', 'q'].len());
    }
}

} // verus!
