use vstd::prelude::*;

verus! {

/// The comparison value of a rule, as carried on the wire.
#[derive(Clone, Debug)]
pub enum RuleValue {
    Null,
    Bool(bool),
    /// An integral number.
    Int(i64),
    /// A non-integral number, held as its canonical decimal text.
    Float(String),
    Str(String),
    /// An array or an object.
    Other,
}

/// One targeting condition of a flag.
#[derive(Clone, Debug)]
pub struct Rule {
    pub attribute: String,
    /// "eq", "percent", or anything else (which never matches unless the rule is a wildcard).
    pub operator: String,
    pub value: RuleValue,
    pub enabled: bool,
    pub variant: Option<String>,
}

/// A named feature with its global switch and its ordered rules.
#[derive(Clone, Debug)]
pub struct Flag {
    pub name: String,
    pub description: String,
    pub enabled: bool,
    pub rules: Vec<Rule>,
}

/// A flag definition without its name (the name is the key it is stored under).
#[derive(Clone, Debug)]
pub struct FlagDef {
    pub description: String,
    pub enabled: bool,
    pub rules: Vec<Rule>,
}

impl RuleValue {
    /// A copy of the value.
    pub fn duplicate(&self) -> (r: RuleValue)
        ensures
            r == *self,
    {
        match self {
            RuleValue::Null => RuleValue::Null,
            RuleValue::Bool(b) => RuleValue::Bool(*b),
            RuleValue::Int(i) => RuleValue::Int(*i),
            RuleValue::Float(t) => RuleValue::Float(t.clone()),
            RuleValue::Str(s) => RuleValue::Str(s.clone()),
            RuleValue::Other => RuleValue::Other,
        }
    }
}

impl Rule {
    /// A copy of the rule.
    pub fn duplicate(&self) -> (r: Rule)
        ensures
            r == *self,
    {
        let variant = match &self.variant {
            Some(v) => Some(v.clone()),
            None => None,
        };
        Rule {
            attribute: self.attribute.clone(),
            operator: self.operator.clone(),
            value: self.value.duplicate(),
            enabled: self.enabled,
            variant,
        }
    }
}

/// A copy of a rule list, in the same order.
pub fn duplicate_rules(rules: &Vec<Rule>) -> (r: Vec<Rule>)
    ensures
        r@ == rules@,
{
    let mut out: Vec<Rule> = Vec::new();
    let mut i: usize = 0;
    while i < rules.len()
        invariant
            i <= rules@.len(),
            out@ =~= rules@.subrange(0, i as int),
        decreases rules@.len() - i,
    {
        out.push(rules[i].duplicate());
        i = i + 1;
    }
    assert(out@ =~= rules@);
    out
}

impl From<(String, FlagDef)> for Flag {
    fn from(entry: (String, FlagDef)) -> (r: Flag) {
        let (name, def) = entry;
        Flag { name, description: def.description, enabled: def.enabled, rules: def.rules }
    }
}

impl vstd::std_specs::convert::FromSpecImpl<(String, FlagDef)> for Flag {
    open spec fn obeys_from_spec() -> bool {
        true
    }

    open spec fn from_spec(entry: (String, FlagDef)) -> Flag {
        Flag { name: entry.0, description: entry.1.description, enabled: entry.1.enabled, rules: entry.1.rules }
    }
}

impl Flag {
    /// The flag split into its name and its stored definition.
    pub fn to_entry(&self) -> (r: (String, FlagDef))
        ensures
            r.0 == self.name,
            r.1.description == self.description,
            r.1.enabled == self.enabled,
            r.1.rules@ == self.rules@,
    {
        (
            self.name.clone(),
            FlagDef {
                description: self.description.clone(),
                enabled: self.enabled,
                rules: duplicate_rules(&self.rules),
            },
        )
    }
}

} // verus!
