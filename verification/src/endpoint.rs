//! Where the manifest is fetched from: its URL, the base that file URLs are
//! built on, and the request headers that can be sent.

use vstd::prelude::*;
use crate::decimal::{decimal, push_decimal};
use crate::text::{chars_of, joined, copy_str, ends_with, str_ends_with};

verus! {

/// The manifest URL for what the user typed: kept when it already ends with
/// `update.json`, else `update.json` is appended after a slash (one is added
/// unless the text already ends with one).
pub open spec fn manifest_url(url: Seq<char>) -> Seq<char> {
    if ends_with(url, "update.json"@) {
        url
    } else if url.len() > 0 && url.last() == '/' {
        url + "update.json"@
    } else {
        url + "/"@ + "update.json"@
    }
}

/// The manifest URL for `url`.
pub fn ensure_update_json(url: &str) -> (r: String)
    ensures
        r@ == manifest_url(url@),
{
    if str_ends_with(url, "update.json") {
        copy_str(url)
    } else {
        let v = chars_of(url);
        if v.len() > 0 && v[v.len() - 1] == '/' {
            joined(url, "update.json")
        } else {
            joined(joined(url, "/").as_str(), "update.json")
        }
    }
}

/// A manifest URL always ends with `update.json`, and making one from a
/// manifest URL changes nothing.
pub proof fn law_manifest_url_idempotent(url: Seq<char>)
    ensures
        ends_with(manifest_url(url), "update.json"@),
        manifest_url(manifest_url(url)) == manifest_url(url),
{
    let m = manifest_url(url);
    let tail = "update.json"@;
    if !ends_with(url, tail) {
        assert(m.subrange(m.len() - tail.len(), m.len() as int) == tail);
    }
}

/// The manifest URL extends what the user typed and adds the least needed:
/// nothing when it already ends with `update.json`, `update.json` after a
/// trailing slash, and `/update.json` otherwise.
pub proof fn law_manifest_url_extends(url: Seq<char>)
    ensures
        manifest_url(url).subrange(0, url.len() as int) == url,
        ends_with(url, "update.json"@) ==> manifest_url(url) == url,
        !ends_with(url, "update.json"@) && url.len() > 0 && url.last() == '/' ==> manifest_url(url) == url + "update.json"@,
        !ends_with(url, "update.json"@) && !(url.len() > 0 && url.last() == '/') ==> manifest_url(url)
            == url + "/update.json"@,
{
    reveal_strlit("/");
    reveal_strlit("update.json");
    reveal_strlit("/update.json");
    assert("/"@ + "update.json"@ == "/update.json"@);
    assert(url + "/"@ + "update.json"@ == url + ("/"@ + "update.json"@));
    let m = manifest_url(url);
    assert(m.subrange(0, url.len() as int) =~= url);
}

/// The parts of a parsed URL that the base URL is built from.
pub struct UrlParts {
    pub scheme: String,
    pub host: Option<String>,
    pub port: Option<u16>,
}

/// The text of an optional string.
pub open spec fn opt_text(s: Option<String>) -> Option<Seq<char>> {
    match s {
        Some(t) => Some(t@),
        None => None,
    }
}

/// What `reqwest::Url::parse` makes of `input`: on success its scheme, its
/// host text and its explicit non-default port; on failure the text of the
/// parse error.
pub uninterp spec fn url_parse_result(input: Seq<char>) -> Result<(Seq<char>, Option<Seq<char>>, Option<u16>), Seq<char>>;

/// Calls `reqwest::Url::parse(input)` and reads `scheme()`, `host_str()` and
/// `port()` of the result, or the error's text; the claim is that this is
/// `url_parse_result` of the input's characters.
#[verifier::external_body]
fn parse_url(input: &str) -> (r: Result<UrlParts, String>)
    ensures
        url_parse_result(input@) == match r {
            Ok(p) => Ok((p.scheme@, opt_text(p.host), p.port)),
            Err(e) => Err(e@),
        },
{
    match reqwest::Url::parse(input) {
        Ok(u) => Ok(UrlParts {
            scheme: u.scheme().to_string(),
            host: match u.host_str() {
                Some(h) => Some(h.to_string()),
                None => None,
            },
            port: u.port(),
        }),
        Err(e) => Err(e.to_string()),
    }
}

/// The base URL for the parts of a parsed URL: `scheme://host`, with
/// `:port` when the URL names a port; a missing host counts as empty.
pub open spec fn base_url_text(scheme: Seq<char>, host: Option<Seq<char>>, port: Option<u16>) -> Seq<char> {
    let host_text = match host {
        Some(h) => h,
        None => Seq::empty(),
    };
    match port {
        Some(p) => scheme + "://"@ + host_text + ":"@ + decimal(p as nat),
        None => scheme + "://"@ + host_text,
    }
}

/// The base URL for `parts`.
pub fn base_url_from_parts(parts: &UrlParts) -> (r: String)
    ensures
        r@ == base_url_text(parts.scheme@, opt_text(parts.host), parts.port),
{
    let host = match &parts.host {
        Some(h) => h.clone(),
        None => String::new(),
    };
    let mut r = joined(joined(parts.scheme.as_str(), "://").as_str(), host.as_str());
    match parts.port {
        Some(p) => {
            r.append(":");
            push_decimal(&mut r, p as u128);
        },
        None => {},
    }
    r
}

/// The base URL begins with the scheme, `://` and the host (empty when there
/// is none), for every scheme; an explicit port adds exactly `:` and its
/// decimal digits to the base URL without it, and no port adds nothing.
pub proof fn law_base_url_keeps_port(scheme: Seq<char>, host: Option<Seq<char>>, port: u16)
    ensures
        base_url_text(scheme, host, Some(port)) == base_url_text(scheme, host, None) + ":"@ + decimal(port as nat),
        base_url_text(scheme, host, None) == scheme + "://"@ + match host {
            Some(h) => h,
            None => Seq::<char>::empty(),
        },
{
    let h = match host {
        Some(h) => h,
        None => Seq::<char>::empty(),
    };
    assert(scheme + "://"@ + h == scheme + "://"@ + h);
}

/// A URL that parses always gives its base URL, built from its own scheme,
/// host and port; one that does not parse gives an error that quotes the
/// parse error.
pub proof fn law_derived_base_url(url: Seq<char>)
    ensures
        match url_parse_result(url) {
            Ok((scheme, host, Some(port))) => derived_base_url(url_parse_result(url)) == Ok::<Seq<char>, Seq<char>>(
                base_url_text(scheme, host, None) + ":"@ + decimal(port as nat),
            ),
            Ok((scheme, host, None)) => derived_base_url(url_parse_result(url)) == Ok::<Seq<char>, Seq<char>>(
                base_url_text(scheme, host, None),
            ),
            Err(e) => derived_base_url(url_parse_result(url)) == Err::<Seq<char>, Seq<char>>("Invalid URL: "@ + e),
        },
{
    match url_parse_result(url) {
        Ok((scheme, host, Some(port))) => law_base_url_keeps_port(scheme, host, port),
        _ => {},
    }
}

/// What `derive_base_url` answers when the parse gave `parsed`.
pub open spec fn derived_base_url(parsed: Result<(Seq<char>, Option<Seq<char>>, Option<u16>), Seq<char>>) -> Result<Seq<char>, Seq<char>> {
    match parsed {
        Ok((scheme, host, port)) => Ok(base_url_text(scheme, host, port)),
        Err(e) => Err("Invalid URL: "@ + e),
    }
}

/// The base URL (`scheme://host[:port]`) of `url`, or `Invalid URL: ...`
/// when it does not parse.
pub fn derive_base_url(url: &str) -> (r: Result<String, String>)
    ensures
        match r {
            Ok(s) => derived_base_url(url_parse_result(url@)) == Ok::<Seq<char>, Seq<char>>(s@),
            Err(e) => derived_base_url(url_parse_result(url@)) == Err::<Seq<char>, Seq<char>>(e@),
        },
{
    match parse_url(url) {
        Ok(parts) => Ok(base_url_from_parts(&parts)),
        Err(e) => Err(joined("Invalid URL: ", e.as_str())),
    }
}

/// A character allowed in an HTTP header name (an RFC 7230 token character).
pub open spec fn is_token_char(c: char) -> bool {
    ||| ('0' <= c && c <= '9')
    ||| ('a' <= c && c <= 'z')
    ||| ('A' <= c && c <= 'Z')
    ||| c == '!' || c == '#' || c == '$' || c == '%' || c == '&' || c == '\''
    ||| c == '*' || c == '+' || c == '-' || c == '.' || c == '^' || c == '_'
    ||| c == '`' || c == '|' || c == '~'
}

/// Whether `reqwest::header::HeaderName::from_bytes` accepts `name`: one to
/// 65535 token characters.
pub open spec fn valid_header_name(name: Seq<char>) -> bool {
    &&& 0 < name.len() <= 65535
    &&& forall|i: int| 0 <= i < name.len() ==> is_token_char(#[trigger] name[i])
}

/// Whether `reqwest::header::HeaderValue::from_str` accepts `value`: every
/// character is a tab, or is not below a space and is not DEL.
pub open spec fn valid_header_value(value: Seq<char>) -> bool {
    forall|i: int| 0 <= i < value.len() ==> {
        let c = #[trigger] value[i];
        (c >= ' ' && c != '\x7f') || c == '\t'
    }
}

/// Calls `reqwest::header::HeaderName::from_bytes` on the bytes of `name`;
/// the claim, read off the `http` crate's table of header characters, is
/// that it succeeds exactly for one to 65535 token characters.
#[verifier::external_body]
fn header_name_ok(name: &str) -> (ok: bool)
    ensures
        ok == valid_header_name(name@),
{
    reqwest::header::HeaderName::from_bytes(name.as_bytes()).is_ok()
}

/// Calls `reqwest::header::HeaderValue::from_str(value)`; the claim, from
/// the `http` crate's byte check, is that it succeeds exactly when no byte is
/// below 32 (tab excepted) or equal to 127.
#[verifier::external_body]
fn header_value_ok(value: &str) -> (ok: bool)
    ensures
        ok == valid_header_value(value@),
{
    reqwest::header::HeaderValue::from_str(value).is_ok()
}

/// The pairs whose name and value can both be sent, in their order.
pub open spec fn sendable_headers(pairs: Seq<(String, String)>) -> Seq<(String, String)>
    decreases pairs.len(),
{
    if pairs.len() == 0 {
        Seq::empty()
    } else {
        let earlier = sendable_headers(pairs.drop_last());
        let p = pairs.last();
        if valid_header_name(p.0@) && valid_header_value(p.1@) {
            earlier.push(p)
        } else {
            earlier
        }
    }
}

/// The header pairs to send: those whose name and value are valid; the others
/// are dropped silently.
pub fn build_headers(pairs: &Vec<(String, String)>) -> (r: Vec<(String, String)>)
    ensures
        r@.len() == sendable_headers(pairs@).len(),
        forall|i: int| 0 <= i < r@.len() ==> (#[trigger] r@[i]).0@ == sendable_headers(pairs@)[i].0@
            && r@[i].1@ == sendable_headers(pairs@)[i].1@,
{
    let mut r: Vec<(String, String)> = Vec::new();
    let mut i: usize = 0;
    while i < pairs.len()
        invariant
            i <= pairs.len(),
            r@.len() == sendable_headers(pairs@.take(i as int)).len(),
            forall|j: int| 0 <= j < r@.len() ==> (#[trigger] r@[j]).0@ == sendable_headers(pairs@.take(i as int))[j].0@
                && r@[j].1@ == sendable_headers(pairs@.take(i as int))[j].1@,
        decreases pairs.len() - i,
    {
        assert(pairs@.take(i + 1).drop_last() == pairs@.take(i as int));
        let (name, value) = &pairs[i];
        if header_name_ok(name.as_str()) && header_value_ok(value.as_str()) {
            r.push((name.clone(), value.clone()));
        }
        i += 1;
    }
    assert(pairs@.take(pairs.len() as int) == pairs@);
    r
}

/// Every header that is sent has a valid name and value, and no valid pair is
/// dropped.
pub proof fn law_sent_headers_are_valid(pairs: Seq<(String, String)>)
    ensures
        forall|i: int| 0 <= i < sendable_headers(pairs).len() ==> valid_header_name(
            (#[trigger] sendable_headers(pairs)[i]).0@,
        ) && valid_header_value(sendable_headers(pairs)[i].1@),
        forall|k: int| 0 <= k < pairs.len() && valid_header_name((#[trigger] pairs[k]).0@)
            && valid_header_value(pairs[k].1@) ==> sendable_headers(pairs).contains(pairs[k]),
    decreases pairs.len(),
{
    if pairs.len() > 0 {
        law_sent_headers_are_valid(pairs.drop_last());
        let earlier = sendable_headers(pairs.drop_last());
        let all = sendable_headers(pairs);
        assert forall|i: int| 0 <= i < all.len() implies valid_header_name((#[trigger] all[i]).0@)
            && valid_header_value(all[i].1@) by {
            if i < earlier.len() {
                assert(all[i] == earlier[i]);
            }
        }
        assert forall|k: int| 0 <= k < pairs.len() && valid_header_name((#[trigger] pairs[k]).0@)
            && valid_header_value(pairs[k].1@) implies all.contains(pairs[k]) by {
            if k < pairs.len() - 1 {
                assert(pairs.drop_last()[k] == pairs[k]);
                let j = choose|j: int| 0 <= j < earlier.len() && earlier[j] == pairs[k];
                assert(all[j] == earlier[j]);
            } else {
                assert(all[all.len() - 1] == pairs[k]);
            }
        }
    }
}

} // verus!
