use crate::error::Error;
use crate::notice::{opt_view, NotifyResult};
use crate::text::chars_of;
use vstd::prelude::*;

verus! {

#[verifier::external_type_specification]
#[verifier::external_body]
pub struct ExUri(http::Uri);

#[verifier::external_type_specification]
#[verifier::external_body]
pub struct ExInvalidUri(http::uri::InvalidUri);

/// Whether `url` reads as a URI, as `TryFrom<&str>` for http::Uri reads it.
pub uninterp spec fn uri_parses(url: Seq<char>) -> bool;

/// The scheme of the URI that `url` reads as; none where it has none or does
/// not read.
pub uninterp spec fn uri_scheme_of(url: Seq<char>) -> Option<Seq<char>>;

/// The text of the string member `key` of the JSON object that `text` holds;
/// none where `text` is no JSON object or the member is missing or no string.
pub uninterp spec fn json_str_member(text: Seq<char>, key: Seq<char>) -> Option<Seq<char>>;

/// Relies on `TryFrom<&str>` for http::Uri: reads a URL.
#[verifier::external_body]
fn parse_uri(url: &str) -> (r: Result<http::Uri, http::uri::InvalidUri>)
    ensures
        r is Ok == uri_parses(url@),
{
    http::Uri::try_from(url)
}

/// Relies on `TryFrom<&str>` for http::Uri and http::Uri::scheme_str: the
/// scheme of the URL, if it reads and has one.
#[verifier::external_body]
fn url_scheme(url: &str) -> (r: Option<String>)
    ensures
        opt_view(r) == uri_scheme_of(url@),
{
    http::Uri::try_from(url).ok().and_then(|u| u.scheme_str().map(|s| s.to_string()))
}

/// Relies on the `Display` impl of http::uri::InvalidUri: what is wrong with the URL.
#[verifier::external_body]
fn invalid_uri_text(e: &http::uri::InvalidUri) -> (r: String) {
    e.to_string()
}

/// Relies on serde_json::from_str, serde_json::Value::get and
/// serde_json::Value::as_str: the string member `key` of the JSON object `text`.
#[verifier::external_body]
fn json_string_member(text: &str, key: &str) -> (r: Option<String>)
    ensures
        opt_view(r) == json_str_member(text@, key@),
{
    let v: serde_json::Value = serde_json::from_str(text).ok()?;
    v.get(key).and_then(|m| m.as_str()).map(|s| s.to_string())
}

/// The status of `201 Created`, the one answer that takes a notice.
pub const CREATED: u16 = 201;

/// Whether two texts are the same.
pub fn same_text(a: &str, b: &str) -> (r: bool)
    ensures
        r == (a@ == b@),
{
    let x = chars_of(a);
    let y = chars_of(b);
    if x.len() != y.len() {
        return false;
    }
    let mut i: usize = 0;
    while i < x.len()
        invariant
            x@ == a@,
            y@ == b@,
            x@.len() == y@.len(),
            i <= x@.len(),
            x@.subrange(0, i as int) == y@.subrange(0, i as int),
        decreases x.len() - i,
    {
        if x[i] != y[i] {
            assert(x@.subrange(0, i + 1)[i as int] != y@.subrange(0, i + 1)[i as int]);
            assert(a@[i as int] != b@[i as int]);
            return false;
        }
        assert(x@.subrange(0, i + 1) =~= y@.subrange(0, i + 1));
        i = i + 1;
    }
    assert(x@ =~= x@.subrange(0, x@.len() as int));
    assert(y@ =~= y@.subrange(0, y@.len() as int));
    true
}

/// Whether a URL of `scheme` is reached over TLS: exactly where it is `https`.
pub fn is_tls_scheme(scheme: Option<&str>) -> (r: bool)
    ensures
        r == (scheme matches Some(s) && s@ == "https"@),
{
    match scheme {
        Some(s) => same_text(s, "https"),
        None => false,
    }
}

/// The collector's identifiers from the members `id` and `url` of its answer,
/// where both are strings.
pub fn notify_result_from(id: Option<String>, url: Option<String>) -> (r: Result<
    NotifyResult,
    Error,
>)
    ensures
        r matches Ok(n) <==> id is Some && url is Some,
        r matches Ok(n) ==> id == Some(n.id) && url == Some(n.url),
        r matches Err(e) ==> e is Decode,
{
    match (id, url) {
        (Some(id), Some(url)) => Ok(NotifyResult { id, url }),
        (None, _) => Err(Error::Decode { reason: String::from_str("missing field `id`") }),
        (_, None) => Err(Error::Decode { reason: String::from_str("missing field `url`") }),
    }
}

/// What the collector's answer means: a notice it created, with the identifiers
/// that its body gives; any other status is a gateway error with the raw body.
pub fn interpret_response(status: u16, body: String) -> (r: Result<NotifyResult, Error>)
    ensures
        status != CREATED ==> r == Err::<NotifyResult, Error>(
            Error::Gateway { status_code: status, reason: body },
        ),
        status == CREATED ==> (r is Ok <==> (json_str_member(body@, "id"@) is Some
            && json_str_member(body@, "url"@) is Some)),
        status == CREATED ==> (r matches Err(e) ==> e is Decode),
        r matches Ok(n) ==> Some(n.id@) == json_str_member(body@, "id"@) && Some(n.url@)
            == json_str_member(body@, "url"@),
{
    if status != CREATED {
        return Err(Error::Gateway { status_code: status, reason: body });
    }
    let id = json_string_member(body.as_str(), "id");
    let url = json_string_member(body.as_str(), "url");
    notify_result_from(id, url)
}

/// The endpoint that notices are posted to, and whether it is reached over TLS;
/// both fixed when the client is made.
#[derive(Debug)]
pub struct Client {
    url: String,
    uri: http::Uri,
    tls: bool,
}

impl Client {
    /// The text of the endpoint.
    pub closed spec fn url_spec(&self) -> Seq<char> {
        self.url@
    }

    /// Whether the endpoint is reached over TLS.
    pub closed spec fn tls_spec(&self) -> bool {
        self.tls
    }

    /// A client for the endpoint `url`, reached over TLS exactly where its scheme
    /// is `https`; a URL that does not read is refused.
    pub fn new(url: &str) -> (r: Result<Client, Error>)
        ensures
            r is Ok <==> uri_parses(url@),
            r matches Ok(c) ==> c.url_spec() == url@ && c.tls_spec() == (uri_scheme_of(url@)
                == Some("https"@)),
            r matches Err(e) ==> e is InvalidUri,
    {
        match parse_uri(url) {
            Ok(uri) => {
                let scheme = url_scheme(url);
                let tls = match &scheme {
                    Some(s) => is_tls_scheme(Some(s.as_str())),
                    None => is_tls_scheme(None),
                };
                Ok(Client { url: String::from_str(url), uri, tls })
            },
            Err(e) => Err(Error::InvalidUri { reason: invalid_uri_text(&e) }),
        }
    }

    /// The endpoint, as the URI that its text reads as.
    pub fn uri(&self) -> (r: &http::Uri) {
        &self.uri
    }

    /// The text of the endpoint.
    pub fn url(&self) -> (r: &str)
        ensures
            r@ == self.url_spec(),
    {
        self.url.as_str()
    }

    /// Whether the endpoint is reached over TLS.
    pub fn uses_tls(&self) -> (r: bool)
        ensures
            r == self.tls_spec(),
    {
        self.tls
    }
}

} // verus!
