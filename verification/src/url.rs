//! The parts of a URL.

use vstd::prelude::*;
use vstd::string::*;

use crate::text;

verus! {

/// The scheme of a URL.
#[derive(Debug, Clone, Copy, PartialEq, Eq, Structural)]
pub enum Scheme {
    Http,
    Https,
}

/// What a URL of the scheme begins with.
pub open spec fn scheme_text(scheme: Scheme) -> Seq<char> {
    match scheme {
        Scheme::Http => "http://"@,
        Scheme::Https => "https://"@,
    }
}

/// The authority in what follows the scheme: all before the first slash.
pub open spec fn authority_of(rest: Seq<char>) -> Seq<char> {
    rest.take(text::first_index(rest, '/'))
}

/// The path in what follows the scheme: all from the first slash on, or a single slash.
pub open spec fn path_of(rest: Seq<char>) -> Seq<char> {
    let k = text::first_index(rest, '/');
    if k < rest.len() {
        rest.skip(k)
    } else {
        "/"@
    }
}

/// The scheme, authority and path of `url`.
pub open spec fn url_parts(url: Seq<char>) -> Option<(Scheme, Seq<char>, Seq<char>)> {
    if text::begins_with(url, "https://"@) {
        let rest = url.skip(8);
        Some((Scheme::Https, authority_of(rest), path_of(rest)))
    } else if text::begins_with(url, "http://"@) {
        let rest = url.skip(7);
        Some((Scheme::Http, authority_of(rest), path_of(rest)))
    } else {
        None
    }
}

/// Minimal URL parser — returns (Scheme, authority, path_with_query).
pub fn parse_url(url: &str) -> (r: Option<(Scheme, String, String)>)
    ensures
        match r {
            Some((scheme, authority, path)) => url_parts(url@) == Some(
                (scheme, authority@, path@),
            ),
            None => url_parts(url@) is None,
        },
{
    proof {
        reveal_strlit("https://");
        reveal_strlit("http://");
    }
    let (scheme, rest) = if let Some(rest) = text::strip_prefix(url, "https://") {
        (Scheme::Https, rest)
    } else if let Some(rest) = text::strip_prefix(url, "http://") {
        (Scheme::Http, rest)
    } else {
        return None;
    };
    let rest = rest.as_str();
    let n = rest.unicode_len();
    let k = text::find_char(rest, '/');
    let authority = rest.substring_char(0, k).to_owned();
    let path = if k < n {
        rest.substring_char(k, n).to_owned()
    } else {
        "/".to_owned()
    };
    Some((scheme, authority, path))
}

/// Exactly the URLs with one of the two schemes are accepted.
pub proof fn accepted_urls(url: Seq<char>)
    ensures
        url_parts(url) is Some <==> text::begins_with(url, "http://"@) || text::begins_with(
            url,
            "https://"@,
        ),
{
}

/// The parts of a URL make up the URL again, a slash being added where none follows the scheme;
/// that URL has the same parts. The authority holds no slash and the path begins with one.
pub proof fn parts_make_up_the_url(url: Seq<char>)
    requires
        url_parts(url) is Some,
    ensures
        ({
            let (scheme, authority, path) = url_parts(url)->0;
            let whole = scheme_text(scheme) + authority + path;
            &&& whole == if url.skip(scheme_text(scheme).len() as int).contains('/') {
                url
            } else {
                url + "/"@
            }
            &&& url_parts(whole) == url_parts(url)
            &&& !authority.contains('/')
            &&& path.len() > 0 && path[0] == '/'
        }),
{
    reveal_strlit("https://");
    reveal_strlit("http://");
    reveal_strlit("/");
    let (scheme, authority, path) = url_parts(url)->0;
    let n = scheme_text(scheme).len() as int;
    let rest = url.skip(n);
    let k = text::first_index(rest, '/');
    text::first_index_is_first(rest, '/');
    assert(url == url.take(n) + rest);
    assert(url.take(n) == scheme_text(scheme));
    let whole = scheme_text(scheme) + authority + path;
    if k < rest.len() {
        assert(rest == authority + path);
        assert(whole == url);
        assert(rest.contains(rest[k]));
    } else {
        assert(rest == authority);
        assert(whole == url + "/"@);
        let longer = rest + "/"@;
        assert(whole.skip(n) == longer);
        text::first_index_at(longer, '/', k);
        assert(authority_of(longer) == rest);
        assert(path_of(longer) == "/"@);
        assert(whole.take(n) == scheme_text(scheme));
        assert(whole[4] == scheme_text(scheme)[4]);
    }
}

/// What follows the scheme is split at its first slash: the authority stands before it, the path
/// begins with it, and a URL of either scheme is split in the same way.
pub proof fn urls_are_split_at_the_first_slash(authority: Seq<char>, path: Seq<char>)
    requires
        !authority.contains('/'),
        path.len() > 0 ==> path[0] == '/',
    ensures
        url_parts("http://"@ + authority + path) == Some(
            (
                Scheme::Http,
                authority,
                if path.len() > 0 {
                    path
                } else {
                    "/"@
                },
            ),
        ),
        url_parts("https://"@ + authority + path) == Some(
            (
                Scheme::Https,
                authority,
                if path.len() > 0 {
                    path
                } else {
                    "/"@
                },
            ),
        ),
{
    reveal_strlit("https://");
    reveal_strlit("http://");
    let rest = authority + path;
    assert forall|i: int| 0 <= i < authority.len() implies #[trigger] rest[i] != '/' by {
        assert(rest[i] == authority[i]);
        assert(authority.contains(authority[i]));
    }
    text::first_index_at(rest, '/', authority.len() as int);
    assert(rest.take(authority.len() as int) =~= authority);
    assert(rest.skip(authority.len() as int) =~= path);
    let plain = "http://"@ + authority + path;
    assert(plain.take(7) =~= "http://"@);
    assert(plain.skip(7) =~= rest);
    assert(plain[4] == ':');
    if text::begins_with(plain, "https://"@) {
        assert(plain.take(8)[4] == 's');
    }
    let secure = "https://"@ + authority + path;
    assert(secure.take(8) =~= "https://"@);
    assert(secure.skip(8) =~= rest);
}

} // verus!
