//! URL handling: the scheme check that configuration applies, and how
//! provider endpoints are formed by appending a path to a configured base URL.
use vstd::prelude::*;

use crate::error::{Error, ErrorKind};
use crate::text::{chars_of, owned, push_char, push_str, string_from_chars, str_eq};

verus! {

/// What `url::Url::parse(s)` followed by `Url::scheme` gives: `None` when `s` does not parse.
pub uninterp spec fn parsed_url_scheme(s: Seq<char>) -> Option<Seq<char>>;

/// What `url::Url::parse(s)` followed by `Url::path` gives: `None` when `s` does not parse.
pub uninterp spec fn parsed_url_path(s: Seq<char>) -> Option<Seq<char>>;

/// What `url::Url::parse(s)` followed by `Url::query` gives: `None` when `s` does not parse.
pub uninterp spec fn parsed_url_query(s: Seq<char>) -> Option<Option<Seq<char>>>;

/// The serialization of `url::Url::parse(s)` after `Url::set_path(path)`: `None` when `s`
/// does not parse.
pub uninterp spec fn url_with_path(s: Seq<char>, path: Seq<char>) -> Option<Seq<char>>;

/// The scheme of the URL `s`; `url::Url::scheme` on `url::Url::parse(s)`.
/// The contract names the result and claims nothing else of it.
#[verifier::external_body]
pub(crate) fn url_scheme(s: &str) -> (r: Option<String>)
    ensures
        r matches Some(x) ==> parsed_url_scheme(s@) == Some(x@),
        r is None ==> parsed_url_scheme(s@) is None,
{
    url::Url::parse(s).ok().map(|u| u.scheme().to_owned())
}

/// The path of the URL `s`; `url::Url::path` on `url::Url::parse(s)`.
/// The contract names the result and claims nothing else of it.
#[verifier::external_body]
pub(crate) fn url_path(s: &str) -> (r: Option<String>)
    ensures
        r matches Some(x) ==> parsed_url_path(s@) == Some(x@),
        r is None ==> parsed_url_path(s@) is None,
{
    url::Url::parse(s).ok().map(|u| u.path().to_owned())
}

/// The query of the URL `s`; `url::Url::query` on `url::Url::parse(s)`.
/// The contract names the result and claims nothing else of it.
#[verifier::external_body]
pub(crate) fn url_query(s: &str) -> (r: Option<Option<String>>)
    ensures
        match r {
            Some(Some(q)) => parsed_url_query(s@) == Some(Some(q@)),
            Some(None) => parsed_url_query(s@) == Some(None::<Seq<char>>),
            None => parsed_url_query(s@) is None,
        },
{
    url::Url::parse(s).ok().map(|u| u.query().map(|q| q.to_owned()))
}

/// The URL `s` with its path replaced; `url::Url::set_path` on `url::Url::parse(s)`.
/// The contract names the result and claims nothing else of it.
#[verifier::external_body]
pub(crate) fn url_set_path(s: &str, path: &str) -> (r: Option<String>)
    ensures
        r matches Some(x) ==> url_with_path(s@, path@) == Some(x@),
        r is None ==> url_with_path(s@, path@) is None,
{
    url::Url::parse(s).ok().map(|mut u| {
        u.set_path(path);
        u.as_str().to_owned()
    })
}

/// `s` without every trailing `c`; `str::trim_end_matches`.
pub open spec fn strip_end(s: Seq<char>, c: char) -> Seq<char>
    decreases s.len(),
{
    if s.len() > 0 && s.last() == c {
        strip_end(s.drop_last(), c)
    } else {
        s
    }
}

/// `s` without every leading `c`; `str::trim_start_matches`.
pub open spec fn strip_start(s: Seq<char>, c: char) -> Seq<char>
    decreases s.len(),
{
    if s.len() > 0 && s[0] == c {
        strip_start(s.drop_first(), c)
    } else {
        s
    }
}

/// The path an endpoint gets: the base path without trailing slashes, then `/` and
/// the relative path without leading slashes when there is one.
pub open spec fn joined_path(base_path: Seq<char>, path: Seq<char>) -> Seq<char> {
    if path.len() == 0 {
        strip_end(base_path, '/')
    } else {
        strip_end(base_path, '/').push('/') + strip_start(path, '/')
    }
}

/// The endpoint `path` below the base URL `base`, or `None` when `base` is no URL.
pub open spec fn joined_url(base: Seq<char>, path: Seq<char>) -> Option<Seq<char>> {
    match parsed_url_path(base) {
        Some(p) => url_with_path(base, joined_path(p, path)),
        None => None,
    }
}

/// The message for a base URL that does not parse.
pub open spec fn invalid_url_message(base: Seq<char>) -> Seq<char> {
    "invalid URL: "@ + base
}

/// `s` without every trailing `c`.
pub fn strip_end_exec(s: &str, c: char) -> (r: String)
    ensures
        r@ == strip_end(s@, c),
{
    let v = chars_of(s);
    let mut j = v.len();
    proof {
        assert(s@.take(v.len() as int) == s@);
    }
    while j > 0 && v[j - 1] == c
        invariant
            j <= v.len(),
            v@ == s@,
            strip_end(s@, c) == strip_end(s@.take(j as int), c),
        decreases j,
    {
        assert(s@.take(j as int).drop_last() == s@.take(j - 1));
        j -= 1;
    }
    assert(strip_end(s@.take(j as int), c) == s@.take(j as int));
    let r = string_from_chars(&v, 0, j);
    assert(v@.subrange(0, j as int) == s@.take(j as int));
    r
}

/// `s` without every leading `c`.
pub fn strip_start_exec(s: &str, c: char) -> (r: String)
    ensures
        r@ == strip_start(s@, c),
{
    let v = chars_of(s);
    let mut i: usize = 0;
    proof {
        assert(s@.skip(0) == s@);
    }
    while i < v.len() && v[i] == c
        invariant
            i <= v.len(),
            v@ == s@,
            strip_start(s@, c) == strip_start(s@.skip(i as int), c),
        decreases v.len() - i,
    {
        assert(s@.skip(i as int).drop_first() == s@.skip(i + 1));
        i += 1;
    }
    assert(strip_start(s@.skip(i as int), c) == s@.skip(i as int));
    let r = string_from_chars(&v, i, v.len());
    assert(v@.subrange(i as int, v.len() as int) == s@.skip(i as int));
    r
}

/// The endpoint `path` below the base URL `base`: the base path loses its trailing
/// slashes and gains `/` and `path` without leading slashes.
pub fn join_url(base: &str, path: &str) -> (r: Result<String, Error>)
    ensures
        match joined_url(base@, path@) {
            Some(u) => r matches Ok(s) && s@ == u,
            None => r matches Err(e) && e@ == (ErrorKind::Config, invalid_url_message(base@)),
        },
{
    let base_path = match url_path(base) {
        Some(p) => p,
        None => {
            let mut m = owned("invalid URL: ");
            push_str(&mut m, base);
            return Err(Error::new(ErrorKind::Config, m));
        },
    };
    let mut new_path = strip_end_exec(base_path.as_str(), '/');
    if !path.is_empty() {
        push_char(&mut new_path, '/');
        let tail = strip_start_exec(path, '/');
        push_str(&mut new_path, tail.as_str());
    }
    match url_set_path(base, new_path.as_str()) {
        Some(u) => Ok(u),
        None => {
            let mut m = owned("invalid URL: ");
            push_str(&mut m, base);
            Err(Error::new(ErrorKind::Config, m))
        },
    }
}

/// What is wrong with the URL setting `label`, or `None` when it uses http(s).
pub open spec fn http_url_problem(label: Seq<char>, url: Seq<char>) -> Option<Seq<char>> {
    match parsed_url_scheme(url) {
        Some(scheme) => if scheme == "http"@ || scheme == "https"@ {
            None
        } else {
            Some(label + " must use http or https, got "@ + scheme)
        },
        None => Some(label + " must be a valid URL"@),
    }
}

/// Rejects a URL setting that does not use http or https.
pub fn ensure_http_url(label: &str, url: &str) -> (r: Result<(), Error>)
    ensures
        match r {
            Ok(()) => http_url_problem(label@, url@) is None,
            Err(e) => e@.0 == ErrorKind::Config && http_url_problem(label@, url@) == Some(e@.1),
        },
{
    match url_scheme(url) {
        Some(scheme) => {
            if str_eq(scheme.as_str(), "http") || str_eq(scheme.as_str(), "https") {
                Ok(())
            } else {
                let mut m = owned(label);
                push_str(&mut m, " must use http or https, got ");
                push_str(&mut m, scheme.as_str());
                Err(Error::new(ErrorKind::Config, m))
            }
        },
        None => {
            let mut m = owned(label);
            push_str(&mut m, " must be a valid URL");
            Err(Error::new(ErrorKind::Config, m))
        },
    }
}


/// What `url::Url::parse(s)` gives, serialized: the URL text, or the text of the error.
pub uninterp spec fn url_parsed(s: Seq<char>) -> Result<Seq<char>, Seq<char>>;

/// Parses a URL and returns its serialization; `url::Url::parse` and `Url::as_str`.
/// The contract names the result and the error's text.
#[verifier::external_body]
pub(crate) fn parse_url(s: &str) -> (r: Result<String, String>)
    ensures
        match r {
            Ok(u) => url_parsed(s@) == Ok::<Seq<char>, Seq<char>>(u@),
            Err(m) => url_parsed(s@) == Err::<Seq<char>, Seq<char>>(m@),
        },
{
    url::Url::parse(s).map(|u| u.as_str().to_owned()).map_err(|err| format!("{err}"))
}

} // verus!
