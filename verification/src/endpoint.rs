//! Resolving the generation service's address. The configured base URL
//! (an environment override, or a fixed default) is parsed by the `url`
//! crate; what this library decides — the fallbacks for a malformed URL, a
//! missing host and a missing port — is verified.

use vstd::prelude::*;

verus! {

/// What parsing a base URL yields: nothing for a malformed URL, else the
/// scheme, the host if the URL has one, and the port if it names one.
/// Parsing is a function of the input string alone, so the result is
/// named rather than spelled out.
pub uninterp spec fn url_parts_of(s: Seq<char>) -> Option<(Seq<char>, Option<Seq<char>>, Option<u16>)>;

/// Relies on `url::Url::parse` and the accessors `Url::scheme`,
/// `Url::host_str` and `Url::port`: parsing either fails or yields a value
/// from which the three accessors read the scheme, optional host and
/// optional port, all determined by the input string alone.
#[verifier::external_body]
fn parse_url_parts(s: &str) -> (r: Option<(String, Option<String>, Option<u16>)>)
    ensures
        r is Some <==> url_parts_of(s@) is Some,
        r matches Some(p) ==> url_parts_of(s@) matches Some(q) && p.0@ == q.0 && (match (
            p.1,
            q.1,
        ) {
            (Some(h), Some(hq)) => h@ == hq,
            (None, None) => true,
            _ => false,
        }) && p.2 == q.2,
{
    match url::Url::parse(s) {
        Ok(u) => Some((
            u.scheme().to_string(),
            u.host_str().map(|h| h.to_string()),
            u.port(),
        )),
        Err(_) => None,
    }
}

/// The host string and port that a parse outcome resolves to: a malformed
/// URL falls back to the fixed local default, a missing host to
/// "localhost", a missing port to 11434.
pub open spec fn endpoint_spec(parts: Option<(Seq<char>, Option<Seq<char>>, Option<u16>)>) -> (
    Seq<char>,
    u16,
) {
    match parts {
        None => ("http://localhost"@, 11434u16),
        Some((scheme, host, port)) => (
            scheme + "://"@ + (match host {
                Some(h) => h,
                None => "localhost"@,
            }),
            match port {
                Some(p) => p,
                None => 11434u16,
            },
        ),
    }
}

/// Resolve the configured base URL to the host string and port handed to
/// the generation client.
pub fn resolve_endpoint(s: &str) -> (r: (String, u16))
    ensures
        (r.0@, r.1) == endpoint_spec(url_parts_of(s@)),
{
    match parse_url_parts(s) {
        None => (String::from_str("http://localhost"), 11434),
        Some((scheme, host, port)) => {
            let mut h = scheme;
            h.append("://");
            match host {
                Some(hs) => h.append(hs.as_str()),
                None => h.append("localhost"),
            }
            let p: u16 = match port {
                Some(p) => p,
                None => 11434,
            };
            (h, p)
        },
    }
}

} // verus!
