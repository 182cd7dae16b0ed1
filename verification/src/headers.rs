//! The header set that every request carries.
//!
//! The upstream API answers a request without a browser's identity with an
//! access-denied document, so each request names a user agent, an origin and
//! a referer. The set is an `http` header map; contracts speak of it through
//! `header_fields`.

use vstd::prelude::*;
use reqwest::header::{HeaderMap, HeaderValue};

verus! {

/// `http::HeaderMap`, as `reqwest` hands it on; seen through `header_fields`.
#[verifier::external_type_specification]
#[verifier::external_body]
#[verifier::reject_recursive_types(T)]
pub struct ExHeaderMap<T>(reqwest::header::HeaderMap<T>);

/// `http::HeaderValue`, the type of the values in a header map.
#[verifier::external_type_specification]
#[verifier::external_body]
pub struct ExHeaderValue(reqwest::header::HeaderValue);

/// What a header map holds: for each name in it, in lower case, the text of
/// the first value under that name.
pub uninterp spec fn header_fields(headers: HeaderMap) -> Map<Seq<char>, Seq<char>>;

/// The user agent that requests name.
pub const USER_AGENT: &'static str =
    "Mozilla/5.0 (Windows NT 10.0; Win64; x64) AppleWebKit/537.36 (KHTML, like Gecko) Chrome/121.0.0.0 Safari/537.36";

/// The origin that requests name, and the referer where no other is given.
pub const SITE: &'static str = "https://www.bilibili.com";

/// A character that may stand in a header value: a tab, or anything from the
/// space on but the delete character.
pub open spec fn header_value_char(c: char) -> bool {
    c == '\t' || (' ' <= c && c != '\x7f')
}

/// Whether a text can be a header value.
pub open spec fn is_header_value(text: Seq<char>) -> bool {
    forall|i: int| 0 <= i < text.len() ==> header_value_char(#[trigger] text[i])
}

/// A character of the header names that this crate writes.
pub open spec fn header_name_char(c: char) -> bool {
    ('a' <= c && c <= 'z') || ('0' <= c && c <= '9') || c == '-'
}

/// Whether a text is a header name of lower-case letters, digits and
/// hyphens, short enough for the map's fast path.
pub open spec fn is_plain_header_name(name: Seq<char>) -> bool {
    &&& 1 <= name.len() <= 64
    &&& forall|i: int| 0 <= i < name.len() ==> header_name_char(#[trigger] name[i])
}

/// The fields of the default set.
pub open spec fn default_header_fields() -> Map<Seq<char>, Seq<char>> {
    Map::empty().insert("user-agent"@, USER_AGENT@).insert("origin"@, SITE@).insert(
        "referer"@,
        SITE@,
    )
}

/// Calls `HeaderMap::new`, which makes a map without entries.
#[verifier::external_body]
fn empty_headers() -> (headers: HeaderMap)
    ensures
        forall|name: Seq<char>| !header_fields(headers).dom().contains(name),
{
    HeaderMap::new()
}

/// Calls `HeaderValue::from_str` and, where it accepts the text,
/// `HeaderMap::insert`.
///
/// `from_str` accepts a text whose bytes are all a tab or at least 32 and not
/// 127; every byte of a character beyond ASCII is 128 or more, so the test
/// on characters says the same. `insert` puts the value in place of all
/// earlier values of the name and leaves the other names alone. It panics
/// only where the map cannot grow, which takes thousands of names, and on a
/// static name that is no token; the `requires` keeps well away from both.
#[verifier::external_body]
fn set_header(headers: &mut HeaderMap, name: &'static str, value: &str) -> (ok: bool)
    requires
        is_plain_header_name(name@),
        header_fields(*old(headers)).dom().finite(),
        header_fields(*old(headers)).dom().len() < 100,
    ensures
        ok == is_header_value(value@),
        ok ==> header_fields(*final(headers)) == header_fields(*old(headers)).insert(
            name@,
            value@,
        ),
        !ok ==> header_fields(*final(headers)) == header_fields(*old(headers)),
{
    match HeaderValue::from_str(value) {
        Ok(v) => {
            headers.insert(name, v);
            true
        },
        Err(_) => false,
    }
}

spec fn value_prefix_ok(text: Seq<char>, n: nat) -> bool
    decreases n,
{
    n == 0 || (n <= text.len() && header_value_char(text[n - 1]) && value_prefix_ok(
        text,
        (n - 1) as nat,
    ))
}

spec fn name_prefix_ok(text: Seq<char>, n: nat) -> bool
    decreases n,
{
    n == 0 || (n <= text.len() && header_name_char(text[n - 1]) && name_prefix_ok(
        text,
        (n - 1) as nat,
    ))
}

proof fn lemma_value_prefix(text: Seq<char>, n: nat)
    requires
        value_prefix_ok(text, n),
    ensures
        forall|i: int| 0 <= i < n ==> header_value_char(#[trigger] text[i]),
    decreases n,
{
    if n > 0 {
        lemma_value_prefix(text, (n - 1) as nat);
    }
}

proof fn lemma_name_prefix(text: Seq<char>, n: nat)
    requires
        name_prefix_ok(text, n),
    ensures
        forall|i: int| 0 <= i < n ==> header_name_char(#[trigger] text[i]),
    decreases n,
{
    if n > 0 {
        lemma_name_prefix(text, (n - 1) as nat);
    }
}

proof fn lemma_default_values()
    ensures
        is_header_value(USER_AGENT@),
        is_header_value(SITE@),
{
    reveal_strlit(
        "Mozilla/5.0 (Windows NT 10.0; Win64; x64) AppleWebKit/537.36 (KHTML, like Gecko) Chrome/121.0.0.0 Safari/537.36",
    );
    reveal_strlit("https://www.bilibili.com");
    reveal_with_fuel(value_prefix_ok, 25);
    assert(value_prefix_ok(USER_AGENT@, 20));
    assert(value_prefix_ok(USER_AGENT@, 40));
    assert(value_prefix_ok(USER_AGENT@, 60));
    assert(value_prefix_ok(USER_AGENT@, 80));
    assert(value_prefix_ok(USER_AGENT@, 100));
    assert(value_prefix_ok(USER_AGENT@, 111));
    lemma_value_prefix(USER_AGENT@, 111);
    assert(value_prefix_ok(SITE@, 24));
    lemma_value_prefix(SITE@, 24);
}

proof fn lemma_names()
    ensures
        is_plain_header_name("user-agent"@),
        is_plain_header_name("origin"@),
        is_plain_header_name("referer"@),
        "user-agent"@ != "origin"@,
        "user-agent"@ != "referer"@,
        "origin"@ != "referer"@,
{
    reveal_strlit("user-agent");
    reveal_strlit("origin");
    reveal_strlit("referer");
    reveal_with_fuel(name_prefix_ok, 12);
    assert(name_prefix_ok("user-agent"@, 10));
    lemma_name_prefix("user-agent"@, 10);
    assert(name_prefix_ok("origin"@, 6));
    lemma_name_prefix("origin"@, 6);
    assert(name_prefix_ok("referer"@, 7));
    lemma_name_prefix("referer"@, 7);
    assert("origin"@[0] != "referer"@[0]);
}

/// The default set: the user agent, and the site as origin and as referer.
pub fn create_request_headers() -> (headers: HeaderMap)
    ensures
        header_fields(headers) == default_header_fields(),
{
    proof {
        lemma_default_values();
        lemma_names();
    }
    let mut headers = empty_headers();
    assert(header_fields(headers).dom() =~= Set::<Seq<char>>::empty());
    assert(header_fields(headers) =~= Map::<Seq<char>, Seq<char>>::empty());
    let agent = set_header(&mut headers, "user-agent", USER_AGENT);
    let origin = set_header(&mut headers, "origin", SITE);
    let referer = set_header(&mut headers, "referer", SITE);
    headers
}

/// The set for the segment request: the default set with `page_url` as
/// referer, which the server of the audio address insists on. There is no
/// such set where `page_url` cannot be a header value.
pub fn segment_request_headers(page_url: &str) -> (r: Option<HeaderMap>)
    ensures
        is_header_value(page_url@) ==> (r matches Some(headers) && header_fields(headers)
            == default_header_fields().insert("referer"@, page_url@)),
        !is_header_value(page_url@) ==> r is None,
{
    proof {
        lemma_names();
    }
    let mut headers = create_request_headers();
    if set_header(&mut headers, "referer", page_url) {
        Some(headers)
    } else {
        None
    }
}

} // verus!
