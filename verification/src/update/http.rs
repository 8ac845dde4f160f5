//! What the updater's two requests carry and how their answers are read:
//! the headers of each, the name a download is saved under, and which
//! status counts as success. The requests themselves go through the
//! system's networking.
use crate::text;
use crate::update::release::{ErrorText, UpdateError, PACKAGE_VERSION};
use vstd::prelude::*;

verus! {

/// `vitals/<version>`.
pub fn user_agent() -> (s: String)
    ensures
        s@ == "vitals/"@ + PACKAGE_VERSION@,
{
    let mut s = text::owned("vitals/");
    text::push_str(&mut s, PACKAGE_VERSION);
    s
}

/// The headers of the `releases/latest` request, the one request that goes
/// to `api.github.com`: GitHub's REST headers and the user agent.
pub fn fetch_headers() -> (h: Vec<(String, String)>)
    ensures
        h@.len() == 3,
        h@[0].0@ == "Accept"@ && h@[0].1@ == "application/vnd.github+json"@,
        h@[1].0@ == "X-GitHub-Api-Version"@ && h@[1].1@ == "2022-11-28"@,
        h@[2].0@ == "User-Agent"@ && h@[2].1@ == "vitals/"@ + PACKAGE_VERSION@,
{
    vec![
        (text::owned("Accept"), text::owned("application/vnd.github+json")),
        (text::owned("X-GitHub-Api-Version"), text::owned("2022-11-28")),
        (text::owned("User-Agent"), user_agent()),
    ]
}

/// The headers of a download, which redirects off GitHub: only the user
/// agent and a plain binary `Accept`.
pub fn download_headers() -> (h: Vec<(String, String)>)
    ensures
        h@.len() == 2,
        h@[0].0@ == "User-Agent"@ && h@[0].1@ == "vitals/"@ + PACKAGE_VERSION@,
        h@[1].0@ == "Accept"@ && h@[1].1@ == "application/octet-stream"@,
{
    vec![(text::owned("User-Agent"), user_agent()), (text::owned("Accept"), text::owned("application/octet-stream"))]
}

/// The name a download is saved under: the URL's last path segment, which
/// must be non-empty and carry no query.
pub open spec fn download_name(url: Seq<char>) -> Result<Seq<char>, ErrorText> {
    let name = text::after_last(url, '/');
    if name.len() > 0 && text::first_at(name, '?') is None {
        Ok(name)
    } else {
        Err(ErrorText::Http("no file name at the end of "@ + url))
    }
}

/// The file name to save the download of `url` under.
pub fn file_name_of(url: &str) -> (r: Result<String, UpdateError>)
    ensures
        match r {
            Ok(n) => download_name(url@) == Ok::<Seq<char>, ErrorText>(n@),
            Err(e) => download_name(url@) == Err::<Seq<char>, ErrorText>(e@),
        },
{
    let cs = text::chars_of(url);
    let name = text::after_last_chars(&cs, '/');
    proof {
        text::lemma_first_at(name@, '?');
    }
    if name.len() > 0 && !text::contains_char(&name, '?') {
        Ok(text::string_of(&name))
    } else {
        let mut m = text::owned("no file name at the end of ");
        text::push_str(&mut m, url);
        Err(UpdateError::Http(m))
    }
}

/// A response's status as the requests read it: any 2xx is success,
/// anything else is `HTTP <code>`.
pub fn status_outcome(code: i64) -> (r: Result<(), String>)
    ensures
        200 <= code < 300 ==> r is Ok,
        !(200 <= code < 300) ==> (r matches Err(m) && m@ == "HTTP "@ + text::signed_decimal(code as int)),
{
    if 200 <= code && code < 300 {
        Ok(())
    } else {
        let mut m = text::owned("HTTP ");
        text::push_signed(&mut m, code);
        Err(m)
    }
}

/// A failed request, as the updater reports it: the URL, then why.
pub fn request_failed(url: &str, reason: &str) -> (e: UpdateError)
    ensures
        e@ == ErrorText::Http(url@ + ": "@ + reason@),
{
    let mut m = text::owned(url);
    text::push_str(&mut m, ": ");
    text::push_str(&mut m, reason);
    UpdateError::Http(m)
}

} // verus!
