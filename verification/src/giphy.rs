//! Giphy search queries.

use vstd::prelude::*;

use crate::text::{append_chars, chars_of, decimal, decimal_chars, plus_encode, plus_encoded, string_of};

verus! {

/// Escapes a search query for the Giphy search URL: spaces become `+`, and
/// `&`, `?`, `#` are percent-encoded.
pub fn urlencoded(s: &str) -> (r: String)
    ensures
        r@ == plus_encode(s@),
{
    plus_encoded(s)
}

/// The public key of Giphy's SDK demo, used when no key is configured.
pub open spec fn demo_key() -> Seq<char> {
    "GlVGYHkr3WSBnllca54iNt0yFbjz7L65"@
}

/// The key a search uses: the given one, or else the demo key.
pub open spec fn key_used(api_key: Option<&str>) -> Seq<char> {
    match api_key {
        Some(k) => k@,
        None => demo_key(),
    }
}

/// The search address for at most `limit` G-rated GIFs matching `query`.
pub fn search_url(query: &str, limit: u32, api_key: Option<&str>) -> (r: String)
    ensures
        r@ == "https://api.giphy.com/v1/gifs/search?api_key="@ + key_used(api_key) + "&q="@
            + plus_encode(query@) + "&limit="@ + decimal(limit as nat) + "&rating=g"@,
{
    let key = match api_key {
        Some(k) => k,
        None => "GlVGYHkr3WSBnllca54iNt0yFbjz7L65",
    };
    let mut u = chars_of("https://api.giphy.com/v1/gifs/search?api_key=");
    append_chars(&mut u, &chars_of(key));
    append_chars(&mut u, &chars_of("&q="));
    append_chars(&mut u, &chars_of(urlencoded(query).as_str()));
    append_chars(&mut u, &chars_of("&limit="));
    append_chars(&mut u, &decimal_chars(limit as u64));
    append_chars(&mut u, &chars_of("&rating=g"));
    string_of(&u)
}

} // verus!
