//! Page addresses and same-host link resolution.
//!
//! Parsing and reference resolution are done by the `url` crate behind
//! trusted wrappers; the same-host policy itself is verified: a resolved
//! link always has the host of the page it was found on.

use vstd::prelude::*;
use vstd::string::StrSliceExecFns;

verus! {

/// The mathematical value of a page address: its normalized string form
/// and its host component (empty when the address has no host).
pub ghost struct UrlModel {
    pub full: Seq<char>,
    pub host: Seq<char>,
}

/// What `url::Url::parse` returns on a string: the normalized string
/// form and the host of the parsed URL, or nothing when the string is
/// not an absolute URL. The result depends on the string alone.
pub uninterp spec fn parse_url_spec(s: Seq<char>) -> Option<UrlModel>;

/// What resolving the reference `raw` against the absolute URL `base`
/// returns, or nothing when `base` does not parse or the reference
/// cannot be resolved against it. The result depends on the two strings
/// alone.
pub uninterp spec fn join_url_spec(base: Seq<char>, raw: Seq<char>) -> Option<UrlModel>;

/// An absolute, normalized page address. `full` is the complete string
/// form — two addresses name the same page exactly when their `full`
/// strings are equal — and `host` is the host component, empty when the
/// address has none.
pub struct PageUrl {
    pub full: String,
    pub host: String,
}

impl View for PageUrl {
    type V = UrlModel;

    open spec fn view(&self) -> UrlModel {
        UrlModel { full: self.full@, host: self.host@ }
    }
}

/// Relies on `url::Url::parse`; on success the address's normalized
/// string form is read from `Url::as_str` and its host from
/// `Url::host_str` (the empty string when the URL has no host).
#[verifier::external_body]
fn parse_url(s: &str) -> (r: Option<PageUrl>)
    ensures
        match r {
            Some(u) => parse_url_spec(s@) == Some(u@),
            None => parse_url_spec(s@) is None,
        },
{
    match url::Url::parse(s) {
        Ok(u) => {
            let host = match u.host_str() {
                Some(h) => h.to_string(),
                None => String::new(),
            };
            Some(PageUrl { full: u.as_str().to_string(), host: host })
        },
        Err(_) => None,
    }
}

/// Relies on `url::Url::parse` and `url::Url::join`: resolves the
/// reference `raw` against the absolute URL `base`, reading the result's
/// string form from `Url::as_str` and its host from `Url::host_str` (the
/// empty string when absent).
#[verifier::external_body]
fn join_url(base: &str, raw: &str) -> (r: Option<PageUrl>)
    ensures
        match r {
            Some(u) => join_url_spec(base@, raw@) == Some(u@),
            None => join_url_spec(base@, raw@) is None,
        },
{
    let parsed_base = match url::Url::parse(base) {
        Ok(b) => b,
        Err(_) => return None,
    };
    match parsed_base.join(raw) {
        Ok(u) => {
            let host = match u.host_str() {
                Some(h) => h.to_string(),
                None => String::new(),
            };
            Some(PageUrl { full: u.as_str().to_string(), host: host })
        },
        Err(_) => None,
    }
}

/// The address that following the reference `raw` from the page at
/// `base` leads to, restricted to the page's own host: an absolute
/// reference is kept only when its host equals `base`'s; a reference
/// that is not an absolute URL is resolved against `base` only when it
/// is path-absolute (starts with `/`), and the resolution is kept only
/// when it stays on `base`'s host. Everything else is dropped.
pub open spec fn resolve_spec(base: UrlModel, raw: Seq<char>) -> Option<UrlModel> {
    match parse_url_spec(raw) {
        Some(u) => if u.host == base.host {
            Some(u)
        } else {
            None
        },
        None => if raw.len() > 0 && raw[0] == '/' {
            match join_url_spec(base.full, raw) {
                Some(u) => if u.host == base.host {
                    Some(u)
                } else {
                    None
                },
                None => None,
            }
        } else {
            None
        },
    }
}

/// Resolves one hyperlink reference found on the page at `base`. A link
/// is returned only when it stays on `base`'s host: a returned address
/// never has a host that differs from the current page's.
pub fn resolve_link(base: &PageUrl, raw: &str) -> (r: Option<PageUrl>)
    ensures
        match r {
            Some(u) => {
                &&& resolve_spec(base@, raw@) == Some(u@)
                &&& u@.host == base@.host
            },
            None => resolve_spec(base@, raw@) is None,
        },
{
    match parse_url(raw) {
        Some(u) => {
            if u.host == base.host {
                Some(u)
            } else {
                None
            }
        },
        None => {
            if !raw.is_empty() && raw.get_char(0) == '/' {
                match join_url(base.full.as_str(), raw) {
                    Some(u) => {
                        if u.host == base.host {
                            Some(u)
                        } else {
                            None
                        }
                    },
                    None => None,
                }
            } else {
                None
            }
        },
    }
}

} // verus!
