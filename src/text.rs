use vstd::prelude::*;

verus! {

/// Decimal digits of a natural number, most significant first.
pub open spec fn nat_decimal(n: nat) -> Seq<char>
    decreases n,
{
    if n < 10 {
        seq![(('0' as u8) + n as u8) as char]
    } else {
        nat_decimal(n / 10) + seq![(('0' as u8) + (n % 10) as u8) as char]
    }
}

/// Natural decimal form of an integer: a leading '-' for negatives, no leading zeros.
pub open spec fn int_decimal(i: int) -> Seq<char> {
    if i < 0 {
        seq!['-'] + nat_decimal((-i) as nat)
    } else {
        nat_decimal(i as nat)
    }
}

/// Relies on `i64::to_string` (its `Display`): the natural decimal form of the integer.
#[verifier::external_body]
pub(crate) fn decimal_text(i: i64) -> (r: String)
    ensures
        r@ == int_decimal(i as int),
{
    i.to_string()
}

/// Whether a string holds exactly the characters of a literal.
pub fn is_text(s: &String, lit: &str) -> (r: bool)
    ensures
        r == (s@ == lit@),
{
    let l = String::from_str(lit);
    *s == l
}

/// The value stored for `key` in an association list: the first entry with that key.
pub open spec fn lookup(attrs: Seq<(String, String)>, key: Seq<char>) -> Option<Seq<char>>
    decreases attrs.len(),
{
    if attrs.len() == 0 {
        None
    } else if attrs[0].0@ == key {
        Some(attrs[0].1@)
    } else {
        lookup(attrs.drop_first(), key)
    }
}

/// Looks `key` up in an association list of attributes.
pub fn find_attribute<'a>(attrs: &'a Vec<(String, String)>, key: &String) -> (r: Option<&'a String>)
    ensures
        match r {
            None => lookup(attrs@, key@) is None,
            Some(v) => lookup(attrs@, key@) == Some(v@),
        },
{
    let mut i: usize = 0;
    assert(attrs@.subrange(0, attrs@.len() as int) =~= attrs@);
    while i < attrs.len()
        invariant
            i <= attrs@.len(),
            lookup(attrs@, key@) == lookup(attrs@.subrange(i as int, attrs@.len() as int), key@),
        decreases attrs@.len() - i,
    {
        assert(attrs@.subrange(i as int, attrs@.len() as int).drop_first()
            =~= attrs@.subrange(i as int + 1, attrs@.len() as int));
        assert(attrs@.subrange(i as int, attrs@.len() as int)[0] == attrs@[i as int]);
        if attrs[i].0 == *key {
            return Some(&attrs[i].1);
        }
        i = i + 1;
    }
    None
}

} // verus!
