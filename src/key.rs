use vstd::prelude::*;
use vstd::relations::{sorted_by, total_ordering};
use vstd::seq_lib::lemma_sorted_unique;
use vstd::utf8::{encode_utf8, encode_utf8_decode_utf8};

verus! {

/// Lexicographic order on byte sequences.
pub open spec fn bytes_le(a: Seq<u8>, b: Seq<u8>) -> bool
    decreases a.len(),
{
    if a.len() == 0 {
        true
    } else if b.len() == 0 {
        false
    } else if a[0] != b[0] {
        a[0] < b[0]
    } else {
        bytes_le(a.drop_first(), b.drop_first())
    }
}

/// The order of `String`s: lexicographic over their UTF-8 bytes.
pub open spec fn text_le(a: Seq<char>, b: Seq<char>) -> bool {
    bytes_le(encode_utf8(a), encode_utf8(b))
}

/// `text_le` as a relation, for the sortedness and ordering predicates.
pub open spec fn text_order() -> spec_fn(Seq<char>, Seq<char>) -> bool {
    |a: Seq<char>, b: Seq<char>| text_le(a, b)
}

proof fn bytes_le_reflexive(a: Seq<u8>)
    ensures
        bytes_le(a, a),
    decreases a.len(),
{
    if a.len() > 0 {
        bytes_le_reflexive(a.drop_first());
    }
}

proof fn bytes_le_antisymmetric(a: Seq<u8>, b: Seq<u8>)
    requires
        bytes_le(a, b),
        bytes_le(b, a),
    ensures
        a == b,
    decreases a.len(),
{
    if a.len() > 0 && b.len() > 0 {
        bytes_le_antisymmetric(a.drop_first(), b.drop_first());
        assert(a =~= seq![a[0]] + a.drop_first());
        assert(b =~= seq![b[0]] + b.drop_first());
    } else {
        assert(a =~= b);
    }
}

proof fn bytes_le_transitive(a: Seq<u8>, b: Seq<u8>, c: Seq<u8>)
    requires
        bytes_le(a, b),
        bytes_le(b, c),
    ensures
        bytes_le(a, c),
    decreases a.len(),
{
    if a.len() > 0 && b.len() > 0 && c.len() > 0 {
        if a[0] == b[0] && b[0] == c[0] {
            bytes_le_transitive(a.drop_first(), b.drop_first(), c.drop_first());
        }
    }
}

proof fn bytes_le_total(a: Seq<u8>, b: Seq<u8>)
    ensures
        bytes_le(a, b) || bytes_le(b, a),
    decreases a.len(),
{
    if a.len() > 0 && b.len() > 0 && a[0] == b[0] {
        bytes_le_total(a.drop_first(), b.drop_first());
    }
}

/// The order of strings is a total order.
pub proof fn text_order_is_total()
    ensures
        total_ordering(text_order()),
{
    let r = text_order();
    assert forall|x: Seq<char>| #[trigger] r(x, x) by {
        bytes_le_reflexive(encode_utf8(x));
    }
    assert forall|x: Seq<char>, y: Seq<char>| #[trigger] r(x, y) && #[trigger] r(y, x) implies x == y by {
        bytes_le_antisymmetric(encode_utf8(x), encode_utf8(y));
        encode_utf8_decode_utf8(x);
        encode_utf8_decode_utf8(y);
    }
    assert forall|x: Seq<char>, y: Seq<char>, z: Seq<char>| #[trigger] r(x, y) && #[trigger] r(y, z) implies r(x, z) by {
        bytes_le_transitive(encode_utf8(x), encode_utf8(y), encode_utf8(z));
    }
    assert forall|x: Seq<char>, y: Seq<char>| #[trigger] r(x, y) || #[trigger] r(y, x) by {
        bytes_le_total(encode_utf8(x), encode_utf8(y));
    }
}

/// The characters of each string.
pub open spec fn texts(v: Seq<String>) -> Seq<Seq<char>> {
    v.map_values(|s: String| s@)
}

/// Relies on `slice::sort` over `String`s: the same strings, in ascending order
/// (`String`'s `Ord` is lexicographic over the bytes).
#[verifier::external_body]
fn sort_texts(v: &mut Vec<String>)
    ensures
        texts(final(v)@).to_multiset() == texts(old(v)@).to_multiset(),
        sorted_by(texts(final(v)@), text_order()),
{
    v.sort();
}

/// One attribute as it appears in a cache key: `name:value`.
pub open spec fn pair_text(p: (String, String)) -> Seq<char> {
    p.0@ + seq![':'] + p.1@
}

/// The `name:value` texts of the attributes, in the given order.
pub open spec fn pair_texts(attrs: Seq<(String, String)>) -> Seq<Seq<char>> {
    attrs.map_values(|p: (String, String)| pair_text(p))
}

/// Each part preceded by `|`.
pub open spec fn bar_prefixed(parts: Seq<Seq<char>>) -> Seq<char>
    decreases parts.len(),
{
    if parts.len() == 0 {
        Seq::empty()
    } else {
        bar_prefixed(parts.drop_last()) + seq!['|'] + parts.last()
    }
}

/// The cache key: `flag|user` followed by `|name:value` for each attribute, in ascending order.
pub open spec fn key_text(flag: Seq<char>, user_id: Seq<char>, attrs: Seq<(String, String)>) -> Seq<char> {
    flag + seq!['|'] + user_id + bar_prefixed(pair_texts(attrs).sort_by(text_order()))
}

/// Derives the cache key of a (flag, user, attributes) triple; no attributes and an empty set
/// of them give the same key.
pub fn cache_key(flag: &str, user_id: &str, attributes: Option<&Vec<(String, String)>>) -> (r: String)
    ensures
        r@ == key_text(flag@, user_id@, match attributes {
            Some(a) => a@,
            None => Seq::empty(),
        }),
{
    let ghost attrs: Seq<(String, String)> = match attributes {
        Some(a) => a@,
        None => Seq::empty(),
    };
    let mut pairs: Vec<String> = Vec::new();
    if let Some(a) = attributes {
        let mut i: usize = 0;
        while i < a.len()
            invariant
                i <= a@.len(),
                attrs == a@,
                texts(pairs@) =~= pair_texts(a@.subrange(0, i as int)),
            decreases a@.len() - i,
        {
            let ghost before = pairs@;
            let mut s = a[i].0.clone();
            s.append(":");
            s.append(a[i].1.as_str());
            proof {
                reveal_strlit(":");
                assert(":"@ =~= seq![':']);
                assert(s@ =~= pair_text(a@[i as int]));
            }
            pairs.push(s);
            assert(texts(pairs@) =~= texts(before).push(s@));
            assert(a@.subrange(0, i as int + 1) =~= a@.subrange(0, i as int).push(a@[i as int]));
            i = i + 1;
        }
        assert(a@.subrange(0, i as int) =~= a@);
    }
    assert(texts(pairs@) =~= pair_texts(attrs));
    sort_texts(&mut pairs);
    proof {
        text_order_is_total();
        pair_texts(attrs).lemma_sort_by_ensures(text_order());
        lemma_sorted_unique(texts(pairs@), pair_texts(attrs).sort_by(text_order()), text_order());
    }
    let mut r = String::from_str(flag);
    r.append("|");
    r.append(user_id);
    proof {
        reveal_strlit("|");
        assert("|"@ =~= seq!['|']);
    }
    let mut j: usize = 0;
    while j < pairs.len()
        invariant
            j <= pairs@.len(),
            r@ == flag@ + seq!['|'] + user_id@ + bar_prefixed(texts(pairs@).subrange(0, j as int)),
        decreases pairs@.len() - j,
    {
        assert(texts(pairs@).subrange(0, j as int + 1).drop_last() =~= texts(pairs@).subrange(0, j as int));
        assert(texts(pairs@).subrange(0, j as int + 1).last() == pairs@[j as int]@);
        proof {
            reveal_strlit("|");
            assert("|"@ =~= seq!['|']);
        }
        r.append("|");
        r.append(pairs[j].as_str());
        assert(r@ =~= flag@ + seq!['|'] + user_id@ + bar_prefixed(texts(pairs@).subrange(0, j as int + 1)));
        j = j + 1;
    }
    assert(texts(pairs@).subrange(0, j as int) =~= texts(pairs@));
    r
}

/// The cache key does not depend on the order of the attributes: two attribute lists holding
/// the same `name:value` pairs give the same key.
pub proof fn key_ignores_attribute_order(
    flag: Seq<char>,
    user_id: Seq<char>,
    attrs1: Seq<(String, String)>,
    attrs2: Seq<(String, String)>,
)
    requires
        pair_texts(attrs1).to_multiset() == pair_texts(attrs2).to_multiset(),
    ensures
        key_text(flag, user_id, attrs1) == key_text(flag, user_id, attrs2),
{
    text_order_is_total();
    pair_texts(attrs1).lemma_sort_by_ensures(text_order());
    pair_texts(attrs2).lemma_sort_by_ensures(text_order());
    lemma_sorted_unique(
        pair_texts(attrs1).sort_by(text_order()),
        pair_texts(attrs2).sort_by(text_order()),
        text_order(),
    );
}

} // verus!
