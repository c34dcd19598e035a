use vstd::prelude::*;

use crate::key::pair_text;

verus! {

/// What `urlencoding::encode` makes of a text: every byte percent-encoded except
/// alphanumerics and `-`, `_`, `.`, `~`.
pub uninterp spec fn url_encoded(s: Seq<char>) -> Seq<char>;

/// Relies on `urlencoding::encode`: its result depends on the text alone.
#[verifier::external_body]
fn url_encode(s: &str) -> (r: String)
    ensures
        r@ == url_encoded(s@),
{
    urlencoding::encode(s).into_owned()
}

/// The text without its trailing `/` characters.
pub open spec fn without_trailing_slashes(s: Seq<char>) -> Seq<char>
    decreases s.len(),
{
    if s.len() > 0 && s.last() == '/' {
        without_trailing_slashes(s.drop_last())
    } else {
        s
    }
}

/// The server's base URL as given, minus any trailing `/`.
pub fn trim_trailing_slashes(server_url: &str) -> (r: String)
    ensures
        r@ == without_trailing_slashes(server_url@),
{
    let mut end: usize = server_url.unicode_len();
    assert(server_url@.subrange(0, end as int) =~= server_url@);
    while end > 0 && server_url.get_char(end - 1) == '/'
        invariant
            end <= server_url@.len(),
            without_trailing_slashes(server_url@) == without_trailing_slashes(server_url@.subrange(0, end as int)),
        decreases end,
    {
        assert(server_url@.subrange(0, end as int).drop_last() =~= server_url@.subrange(0, end as int - 1));
        end = end - 1;
    }
    String::from_str(server_url.substring_char(0, end))
}

/// The `&attr=` query parameters: one per attribute, in the given order, each holding the
/// encoded `name:value`.
pub open spec fn attr_query(attrs: Seq<(String, String)>) -> Seq<char>
    decreases attrs.len(),
{
    if attrs.len() == 0 {
        Seq::empty()
    } else {
        attr_query(attrs.drop_last()) + "&attr="@ + url_encoded(pair_text(attrs.last()))
    }
}

/// The remote evaluation URL:
/// `{base}/evaluate?flag={flag}&user_id={user}` followed by `&attr={name:value}` per attribute.
pub open spec fn evaluate_url(
    base_url: Seq<char>,
    flag: Seq<char>,
    user_id: Seq<char>,
    attrs: Seq<(String, String)>,
) -> Seq<char> {
    base_url + "/evaluate?flag="@ + url_encoded(flag) + "&user_id="@ + url_encoded(user_id) + attr_query(attrs)
}

/// Builds the URL that asks the flag service to evaluate `flag` for a user.
pub fn build_evaluate_url(
    base_url: &str,
    flag: &str,
    user_id: &str,
    attributes: Option<&Vec<(String, String)>>,
) -> (r: String)
    ensures
        r@ == evaluate_url(base_url@, flag@, user_id@, match attributes {
            Some(a) => a@,
            None => Seq::empty(),
        }),
{
    let mut url = String::from_str(base_url);
    url.append("/evaluate?flag=");
    let f = url_encode(flag);
    url.append(f.as_str());
    url.append("&user_id=");
    let u = url_encode(user_id);
    url.append(u.as_str());
    if let Some(a) = attributes {
        assert(a@.subrange(0, 0) =~= Seq::<(String, String)>::empty());
        let mut i: usize = 0;
        while i < a.len()
            invariant
                i <= a@.len(),
                url@ == base_url@ + "/evaluate?flag="@ + url_encoded(flag@) + "&user_id="@
                    + url_encoded(user_id@) + attr_query(a@.subrange(0, i as int)),
            decreases a@.len() - i,
        {
            assert(a@.subrange(0, i as int + 1).drop_last() =~= a@.subrange(0, i as int));
            let mut pair = a[i].0.clone();
            pair.append(":");
            pair.append(a[i].1.as_str());
            proof {
                reveal_strlit(":");
                assert(":"@ =~= seq![':']);
                assert(pair@ =~= pair_text(a@[i as int]));
            }
            let e = url_encode(pair.as_str());
            url.append("&attr=");
            url.append(e.as_str());
            assert(url@ =~= base_url@ + "/evaluate?flag="@ + url_encoded(flag@) + "&user_id="@
                + url_encoded(user_id@) + attr_query(a@.subrange(0, i as int + 1)));
            i = i + 1;
        }
        assert(a@.subrange(0, i as int) =~= a@);
    } else {
        assert(url@ =~= evaluate_url(base_url@, flag@, user_id@, Seq::empty()));
    }
    url
}

} // verus!
