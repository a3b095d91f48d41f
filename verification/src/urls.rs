//! URLs of networks to fork from.
use vstd::prelude::*;

verus! {

/// The type `url::Url`.
#[verifier::external_type_specification]
#[verifier::external_body]
pub struct ExUrl(url::Url);

/// What `url::Url::parse` makes of a text.
pub uninterp spec fn parsed_url(text: Seq<char>) -> Option<url::Url>;

/// The message of `url::Url::parse` for a text that is not a URL.
pub uninterp spec fn url_parse_error(text: Seq<char>) -> Seq<char>;

/// The parts of a URL that can hold secrets, under `username`, `password` and
/// `query`, as far as they are there; an empty username is not. Under `host`
/// stands the host, where it is not empty and the URL does not name a file.
pub uninterp spec fn url_parts(url: url::Url) -> Map<Seq<char>, Seq<char>>;

/// The URL after `url::Url::set_username` with an empty text.
pub uninterp spec fn without_username(url: url::Url) -> url::Url;

/// The URL after `url::Url::set_password` with none.
pub uninterp spec fn without_password(url: url::Url) -> url::Url;

/// The URL after `url::Url::set_query` with none.
pub uninterp spec fn without_query(url: url::Url) -> url::Url;

/// The text that `url::Url` displays.
pub uninterp spec fn url_text(url: url::Url) -> Seq<char>;

/// `url::Url::parse` depends on the text alone. What it accepts has a username
/// or a password only in front of a host.
#[verifier::external_body]
pub(crate) fn parse_url(text: &str) -> (url: Result<url::Url, String>)
    ensures
        match url {
            Ok(u) => {
                &&& parsed_url(text@) == Some(u)
                &&& url_parts(u).contains_key("username"@) ==> url_parts(u).contains_key("host"@)
                &&& url_parts(u).contains_key("password"@) ==> url_parts(u).contains_key("host"@)
            },
            Err(e) => parsed_url(text@) is None && e@ == url_parse_error(text@),
        },
{
    url::Url::parse(text).map_err(|e| e.to_string())
}

/// `url::Url::set_username` with an empty text leaves no username, and the other
/// parts stay. It refuses a URL without a host, or of a file, and leaves it as
/// it is.
#[verifier::external_body]
fn clear_username(url: &mut url::Url)
    ensures
        *final(url) == without_username(*old(url)),
        url_parts(*final(url)) == if url_parts(*old(url)).contains_key("host"@) {
            url_parts(*old(url)).remove("username"@)
        } else {
            url_parts(*old(url))
        },
{
    let _ = url.set_username("");
}

/// `url::Url::set_password` with none leaves no password, and the other parts
/// stay. It refuses a URL without a host, or of a file, and leaves it as it is.
#[verifier::external_body]
fn clear_password(url: &mut url::Url)
    ensures
        *final(url) == without_password(*old(url)),
        url_parts(*final(url)) == if url_parts(*old(url)).contains_key("host"@) {
            url_parts(*old(url)).remove("password"@)
        } else {
            url_parts(*old(url))
        },
{
    let _ = url.set_password(None);
}

/// `url::Url::set_query` with none leaves no query, and the other parts stay.
#[verifier::external_body]
fn clear_query(url: &mut url::Url)
    ensures
        *final(url) == without_query(*old(url)),
        url_parts(*final(url)) == url_parts(*old(url)).remove("query"@),
{
    url.set_query(None);
}

/// The displayed text of a `url::Url` depends on the URL alone.
#[verifier::external_body]
fn display_url(url: &url::Url) -> (text: String)
    ensures
        text@ == url_text(*url),
{
    url.to_string()
}

/// A text that is there where it is not empty.
pub open spec fn non_empty(text: Seq<char>) -> Option<Seq<char>> {
    if text.len() == 0 {
        None
    } else {
        Some(text)
    }
}

/// The part of a URL under a name, where it is there.
pub open spec fn part_of(url: url::Url, name: Seq<char>) -> Option<Seq<char>> {
    if url_parts(url).contains_key(name) {
        Some(url_parts(url)[name])
    } else {
        None
    }
}

/// `url::Url::username` gives the username, and an empty text where there is
/// none.
#[verifier::external_body]
fn username(url: &url::Url) -> (text: &str)
    ensures
        non_empty(text@) == part_of(*url, "username"@),
{
    url.username()
}

/// `url::Url::password` gives the password, where there is one.
#[verifier::external_body]
fn password(url: &url::Url) -> (text: Option<&str>)
    ensures
        match text {
            Some(t) => part_of(*url, "password"@) == Some(t@),
            None => part_of(*url, "password"@) is None,
        },
{
    url.password()
}

/// `url::Url::query` gives the query, where there is one.
#[verifier::external_body]
fn query(url: &url::Url) -> (text: Option<&str>)
    ensures
        match text {
            Some(t) => part_of(*url, "query"@) == Some(t@),
            None => part_of(*url, "query"@) is None,
        },
{
    url.query()
}

/// Whether a URL has a part that can hold a secret.
pub open spec fn holds_secrets(url: url::Url) -> bool {
    url_parts(url).contains_key("username"@) || url_parts(url).contains_key("password"@)
        || url_parts(url).contains_key("query"@)
}

/// Whether a URL has a part that can hold a secret.
pub fn has_secrets(url: &url::Url) -> (res: bool)
    ensures
        res == holds_secrets(*url),
{
    username(url).unicode_len() > 0 || password(url).is_some() || query(url).is_some()
}

/// A URL without the parts that can hold secrets.
pub open spec fn redacted(url: url::Url) -> url::Url {
    without_query(without_password(without_username(url)))
}

/// A parsed URL as it may be shown in a log: without username, password and
/// query.
pub fn redact(url: url::Url) -> (res: String)
    ensures
        res@ == url_text(redacted(url)),
        !url_parts(redacted(url)).contains_key("query"@),
        url_parts(url).contains_key("host"@) ==> !holds_secrets(redacted(url)),
        url_parts(url).contains_key("host"@) ==> url_parts(redacted(url)) == url_parts(url).remove(
            "username"@,
        ).remove("password"@).remove("query"@),
        !url_parts(url).contains_key("host"@) ==> url_parts(redacted(url)) == url_parts(url).remove(
            "query"@,
        ),
        url_parts(redacted(url)).dom().subset_of(url_parts(url).dom()),
{
    proof {
        reveal_strlit("username");
        reveal_strlit("password");
        reveal_strlit("query");
        reveal_strlit("host");
        assert("host"@.len() == 4 && "username"@.len() == 8 && "query"@.len() == 5);
        assert("username"@[0] != "password"@[0]);
    }
    let mut url = url;
    clear_username(&mut url);
    clear_password(&mut url);
    clear_query(&mut url);
    display_url(&url)
}

/// A URL as it may be shown in a log: without username, password and query.
pub fn redact_url_for_log(raw: &str) -> (res: String)
    ensures
        match parsed_url(raw@) {
            Some(url) => {
                &&& res@ == url_text(redacted(url))
                &&& !holds_secrets(redacted(url))
                &&& url_parts(redacted(url)) == url_parts(url).remove("username"@).remove(
                    "password"@,
                ).remove("query"@)
            },
            None => res@ == "<invalid url>"@,
        },
{
    match parse_url(raw) {
        Ok(url) => {
            let res = redact(url);
            assert(!url_parts(url).contains_key("host"@) ==> url_parts(redacted(url)) =~= url_parts(
                url,
            ).remove("username"@).remove("password"@).remove("query"@));
            res
        },
        Err(_) => "<invalid url>".to_owned(),
    }
}

} // verus!
