use vstd::prelude::*;
use crate::text::{chars_of, contains_chars, has_substring, lower, str_eq, to_ascii_lowercase};

verus! {

/// Common HTTP header names, offered for autocomplete.
pub const COMMON_HEADER_NAMES: [&'static str; 47] = [
    "Accept",
    "Accept-Charset",
    "Accept-Encoding",
    "Accept-Language",
    "Authorization",
    "Cache-Control",
    "Connection",
    "Content-Disposition",
    "Content-Encoding",
    "Content-Length",
    "Content-Type",
    "Cookie",
    "DNT",
    "Date",
    "ETag",
    "Expect",
    "Forwarded",
    "From",
    "Host",
    "If-Match",
    "If-Modified-Since",
    "If-None-Match",
    "If-Range",
    "If-Unmodified-Since",
    "Keep-Alive",
    "Link",
    "Location",
    "Origin",
    "Pragma",
    "Proxy-Authorization",
    "Range",
    "Referer",
    "Retry-After",
    "Server",
    "Set-Cookie",
    "TE",
    "Transfer-Encoding",
    "Upgrade",
    "User-Agent",
    "Vary",
    "Via",
    "WWW-Authenticate",
    "X-Forwarded-For",
    "X-Forwarded-Host",
    "X-Forwarded-Proto",
    "X-Request-Id",
    "X-Requested-With",
];

/// The values offered for a header whose name, in small letters, is `name`.
pub open spec fn common_values(name: Seq<char>) -> Seq<Seq<char>> {
    if name == "content-type"@ {
        seq!["application/json"@, "application/x-www-form-urlencoded"@, "application/xml"@, "application/octet-stream"@, "multipart/form-data"@, "text/plain"@, "text/html"@, "text/css"@, "text/xml"@]
    } else if name == "accept"@ {
        seq!["application/json"@, "application/xml"@, "text/html"@, "text/plain"@, "*/*"@]
    } else if name == "accept-encoding"@ {
        seq!["gzip"@, "deflate"@, "br"@, "gzip, deflate, br"@, "identity"@]
    } else if name == "accept-charset"@ {
        seq!["utf-8"@, "iso-8859-1"@, "utf-8, iso-8859-1;q=0.5"@]
    } else if name == "accept-language"@ {
        seq!["en-US"@, "en-US,en;q=0.9"@, "en-GB"@, "de-DE"@, "fr-FR"@, "*"@]
    } else if name == "authorization"@ {
        seq!["Bearer "@, "Basic "@]
    } else if name == "cache-control"@ {
        seq!["no-cache"@, "no-store"@, "max-age=0"@, "max-age=3600"@, "public"@, "private"@]
    } else if name == "connection"@ {
        seq!["keep-alive"@, "close"@]
    } else if name == "content-encoding"@ {
        seq!["gzip"@, "deflate"@, "br"@, "identity"@]
    } else if name == "transfer-encoding"@ {
        seq!["chunked"@, "compress"@, "deflate"@, "gzip"@]
    } else if name == "x-requested-with"@ {
        seq!["XMLHttpRequest"@]
    } else {
        Seq::empty()
    }
}

/// The views of a list of string slices.
pub open spec fn str_views(v: Seq<&str>) -> Seq<Seq<char>> {
    v.map_values(|s: &str| s@)
}

/// Common values for the header named `header_name`, which is matched
/// without regard to the case of ASCII letters.
pub fn common_values_for(header_name: &str) -> (r: &'static [&'static str])
    ensures
        str_views(r@) == common_values(lower(header_name@)),
{
    let key = to_ascii_lowercase(header_name);
    let key = key.as_str();
    if str_eq(key, "content-type") {
        let r: &'static [&'static str] = &["application/json", "application/x-www-form-urlencoded", "application/xml", "application/octet-stream", "multipart/form-data", "text/plain", "text/html", "text/css", "text/xml"];
        assert(str_views(r@) =~= seq!["application/json"@, "application/x-www-form-urlencoded"@, "application/xml"@, "application/octet-stream"@, "multipart/form-data"@, "text/plain"@, "text/html"@, "text/css"@, "text/xml"@]);
        r
    } else if str_eq(key, "accept") {
        let r: &'static [&'static str] = &["application/json", "application/xml", "text/html", "text/plain", "*/*"];
        assert(str_views(r@) =~= seq!["application/json"@, "application/xml"@, "text/html"@, "text/plain"@, "*/*"@]);
        r
    } else if str_eq(key, "accept-encoding") {
        let r: &'static [&'static str] = &["gzip", "deflate", "br", "gzip, deflate, br", "identity"];
        assert(str_views(r@) =~= seq!["gzip"@, "deflate"@, "br"@, "gzip, deflate, br"@, "identity"@]);
        r
    } else if str_eq(key, "accept-charset") {
        let r: &'static [&'static str] = &["utf-8", "iso-8859-1", "utf-8, iso-8859-1;q=0.5"];
        assert(str_views(r@) =~= seq!["utf-8"@, "iso-8859-1"@, "utf-8, iso-8859-1;q=0.5"@]);
        r
    } else if str_eq(key, "accept-language") {
        let r: &'static [&'static str] = &["en-US", "en-US,en;q=0.9", "en-GB", "de-DE", "fr-FR", "*"];
        assert(str_views(r@) =~= seq!["en-US"@, "en-US,en;q=0.9"@, "en-GB"@, "de-DE"@, "fr-FR"@, "*"@]);
        r
    } else if str_eq(key, "authorization") {
        let r: &'static [&'static str] = &["Bearer ", "Basic "];
        assert(str_views(r@) =~= seq!["Bearer "@, "Basic "@]);
        r
    } else if str_eq(key, "cache-control") {
        let r: &'static [&'static str] = &["no-cache", "no-store", "max-age=0", "max-age=3600", "public", "private"];
        assert(str_views(r@) =~= seq!["no-cache"@, "no-store"@, "max-age=0"@, "max-age=3600"@, "public"@, "private"@]);
        r
    } else if str_eq(key, "connection") {
        let r: &'static [&'static str] = &["keep-alive", "close"];
        assert(str_views(r@) =~= seq!["keep-alive"@, "close"@]);
        r
    } else if str_eq(key, "content-encoding") {
        let r: &'static [&'static str] = &["gzip", "deflate", "br", "identity"];
        assert(str_views(r@) =~= seq!["gzip"@, "deflate"@, "br"@, "identity"@]);
        r
    } else if str_eq(key, "transfer-encoding") {
        let r: &'static [&'static str] = &["chunked", "compress", "deflate", "gzip"];
        assert(str_views(r@) =~= seq!["chunked"@, "compress"@, "deflate"@, "gzip"@]);
        r
    } else if str_eq(key, "x-requested-with") {
        let r: &'static [&'static str] = &["XMLHttpRequest"];
        assert(str_views(r@) =~= seq!["XMLHttpRequest"@]);
        r
    } else {
        let r: &'static [&'static str] = &[];
        assert(str_views(r@) =~= Seq::<Seq<char>>::empty());
        r
    }
}

/// A suggestion, seen as its characters, is kept where the input, in small
/// letters, stands in it, in small letters.
pub open spec fn keeps(input: Seq<char>) -> spec_fn(Seq<char>) -> bool {
    |v: Seq<char>| has_substring(lower(v), lower(input))
}

/// Filtering slices and then taking their views is taking the views and
/// then filtering them.
pub proof fn lemma_filter_views(s: Seq<&str>, input: Seq<char>)
    ensures
        str_views(s.filter(|x: &str| suggestion_matches(x, input))) == str_views(s).filter(
            keeps(input),
        ),
    decreases s.len(),
{
    reveal(Seq::filter);
    if s.len() > 0 {
        lemma_filter_views(s.drop_last(), input);
        assert(str_views(s.drop_last()) =~= str_views(s).drop_last());
        let a = s.drop_last().filter(|x: &str| suggestion_matches(x, input));
        if suggestion_matches(s.last(), input) {
            assert(str_views(a.push(s.last())) =~= str_views(a).push(s.last()@));
        }
    } else {
        assert(str_views(s.filter(|x: &str| suggestion_matches(x, input))) =~= str_views(s).filter(
            keeps(input),
        ));
    }
}

/// A suggestion is kept where the input, in small letters, stands in it,
/// in small letters.
pub open spec fn suggestion_matches(s: &str, input: Seq<char>) -> bool {
    has_substring(lower(s@), lower(input))
}

/// The suggestions in which `input` stands, letters of either case matched
/// alike, in their order; all of them where `input` is empty.
pub fn filter_suggestions<'a>(suggestions: &'a [&'a str], input: &str) -> (r: Vec<&'a str>)
    ensures
        r@ == suggestions@.filter(|s: &str| suggestion_matches(s, input@)),
        str_views(r@) == str_views(suggestions@).filter(keeps(input@)),
{
    let ghost pred = |s: &str| suggestion_matches(s, input@);
    let needle_s = to_ascii_lowercase(input);
    let needle = chars_of(needle_s.as_str());
    let mut out: Vec<&'a str> = Vec::new();
    let mut i: usize = 0;
    while i < suggestions.len()
        invariant
            i <= suggestions@.len(),
            needle@ == lower(input@),
            pred == (|s: &str| suggestion_matches(s, input@)),
            out@ == suggestions@.take(i as int).filter(pred),
        decreases suggestions@.len() - i,
    {
        let s = suggestions[i];
        let hay_s = to_ascii_lowercase(s);
        let hay = chars_of(hay_s.as_str());
        let keep = input.unicode_len() == 0 || contains_chars(&hay, &needle);
        proof {
            reveal(Seq::filter);
            assert(suggestions@.take(i + 1).drop_last() =~= suggestions@.take(i as int));
            if input@.len() == 0 {
                assert(lower(input@).subrange(0, 0) =~= lower(input@));
                assert(lower(s@).subrange(0, 0) =~= lower(input@));
                assert(crate::text::occurs_at(lower(s@), lower(input@), 0));
            }
        }
        if keep {
            out.push(s);
        }
        i += 1;
    }
    assert(suggestions@.take(suggestions@.len() as int) =~= suggestions@);
    proof {
        lemma_filter_views(suggestions@, input@);
    }
    out
}

} // verus!
