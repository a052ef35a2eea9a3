//! Klipy GIF search: query escaping and the choice of one URL per result.

use vstd::prelude::*;

use vstd::string::StringSliceAdditionalSpecFns;

use crate::text::{append_chars, char_from_ascii, chars_of, clone_opt_string, decimal, decimal_chars, string_of};

verus! {

/// A search result with URL and title metadata for relevance filtering.
#[derive(Debug)]
pub struct GifResult {
    pub url: String,
    pub title: String,
}

/// One search result as the API describes it: its title and the GIF
/// addresses of its HD and MD renditions, where present.
#[derive(Debug)]
pub struct GifItem {
    pub title: String,
    pub hd_gif: Option<String>,
    pub md_gif: Option<String>,
}

/// Bytes that stay as they are: ASCII letters, digits, `-`, `_`, `.`, `~`.
pub open spec fn unreserved(b: u8) -> bool {
    (0x41 <= b <= 0x5A) || (0x61 <= b <= 0x7A) || (0x30 <= b <= 0x39) || b == 0x2D || b == 0x5F
        || b == 0x2E || b == 0x7E
}

/// Upper-case hexadecimal digit of a value below 16.
pub open spec fn hex_upper(d: int) -> char {
    if d < 10 {
        (('0' as int) + d) as char
    } else {
        (('A' as int) + d - 10) as char
    }
}

/// The escaped form of one byte: itself when unreserved, `+` for a space,
/// otherwise `%` and two upper-case hex digits.
pub open spec fn encode_byte(b: u8) -> Seq<char> {
    if unreserved(b) {
        seq![b as char]
    } else if b == 0x20 {
        seq!['+']
    } else {
        seq!['%', hex_upper(b as int / 16), hex_upper(b as int % 16)]
    }
}

/// The escaped form of a byte string.
pub open spec fn encode_bytes(bs: Seq<u8>) -> Seq<char>
    decreases bs.len(),
{
    if bs.len() == 0 {
        seq![]
    } else {
        encode_bytes(bs.drop_last()) + encode_byte(bs.last())
    }
}

fn hex_digit(d: u8) -> (r: char)
    requires
        d < 16,
    ensures
        r == hex_upper(d as int),
{
    if d < 10 {
        char_from_ascii(0x30 + d as u32)
    } else {
        char_from_ascii(0x41 + (d - 10) as u32)
    }
}

/// Percent-encodes the UTF-8 bytes of a search query for the Klipy URL.
pub fn urlencoded(s: &str) -> (r: String)
    ensures
        r@ == encode_bytes(s.spec_bytes()),
{
    let bs = s.as_bytes();
    let mut out: Vec<char> = Vec::new();
    let mut i: usize = 0;
    while i < bs.len()
        invariant
            bs@ == s.spec_bytes(),
            i <= bs@.len(),
            out@ == encode_bytes(bs@.take(i as int)),
        decreases bs@.len() - i,
    {
        assert(bs@.take(i + 1).drop_last() =~= bs@.take(i as int));
        let b = bs[i];
        if (0x41 <= b && b <= 0x5A) || (0x61 <= b && b <= 0x7A) || (0x30 <= b && b <= 0x39) || b == 0x2D
            || b == 0x5F || b == 0x2E || b == 0x7E {
            out.push(char_from_ascii(b as u32));
        } else if b == 0x20 {
            out.push('+');
        } else {
            out.push('%');
            out.push(hex_digit(b / 16));
            out.push(hex_digit(b % 16));
        }
        i = i + 1;
    }
    assert(bs@.take(bs@.len() as int) =~= bs@);
    string_of(&out)
}

/// The GIF address of an item: the HD one, else the MD one.
pub open spec fn item_url(it: GifItem) -> Option<Seq<char>> {
    match it.hd_gif {
        Some(u) => Some(u@),
        None => match it.md_gif {
            Some(u) => Some(u@),
            None => None,
        },
    }
}

/// The results with an address, in order, as (address, title).
pub open spec fn usable(items: Seq<GifItem>) -> Seq<(Seq<char>, Seq<char>)>
    decreases items.len(),
{
    if items.len() == 0 {
        seq![]
    } else {
        let p = usable(items.drop_last());
        match item_url(items.last()) {
            Some(u) => p.push((u, items.last().title@)),
            None => p,
        }
    }
}

/// The results as (address, title).
pub open spec fn result_pairs(v: Seq<GifResult>) -> Seq<(Seq<char>, Seq<char>)> {
    Seq::new(v.len(), |i: int| (v[i].url@, v[i].title@))
}

/// The first `limit` items that have a GIF address, each with the HD
/// address when there is one and the MD address otherwise.
pub fn collect_results(items: Vec<GifItem>, limit: usize) -> (r: Vec<GifResult>)
    ensures
        result_pairs(r@) == (if usable(items@).len() <= limit { usable(items@) } else { usable(items@).take(limit as int) }),
{
    let mut r: Vec<GifResult> = Vec::new();
    let mut i: usize = 0;
    while i < items.len()
        invariant
            i <= items.len(),
            result_pairs(r@) == usable(items@.take(i as int)),
        decreases items.len() - i,
    {
        assert(items@.take(i + 1).drop_last() =~= items@.take(i as int));
        let it = &items[i];
        let url = match &it.hd_gif {
            Some(u) => Some(u.clone()),
            None => clone_opt_string(&it.md_gif),
        };
        if let Some(u) = url {
            let ghost before = result_pairs(r@);
            r.push(GifResult { url: u, title: it.title.clone() });
            assert(result_pairs(r@) =~= before.push((u@, it.title@)));
        }
        i = i + 1;
    }
    assert(items@.take(items.len() as int) =~= items@);
    if r.len() > limit {
        let ghost before = result_pairs(r@);
        r.truncate(limit);
        assert(result_pairs(r@) =~= before.take(limit as int));
    }
    r
}

/// The search address for at most `limit` GIFs matching `query`, with the
/// strictest content filter.
pub fn search_url(query: &str, limit: usize, api_key: &str) -> (r: String)
    ensures
        r@ == "https://api.klipy.com/api/v1/"@ + api_key@ + "/gifs/search?q="@
            + encode_bytes(query.spec_bytes()) + "&per_page="@ + decimal(limit as nat)
            + "&content_filter=high"@,
{
    let mut u = chars_of("https://api.klipy.com/api/v1/");
    append_chars(&mut u, &chars_of(api_key));
    append_chars(&mut u, &chars_of("/gifs/search?q="));
    append_chars(&mut u, &chars_of(urlencoded(query).as_str()));
    append_chars(&mut u, &chars_of("&per_page="));
    append_chars(&mut u, &decimal_chars(limit as u64));
    append_chars(&mut u, &chars_of("&content_filter=high"));
    string_of(&u)
}

/// The characters an escaped query is made of: ASCII letters, digits,
/// `-`, `_`, `.`, `~`, `+` and `%`.
pub open spec fn escaped_char(c: char) -> bool {
    ('A' <= c <= 'Z') || ('a' <= c <= 'z') || ('0' <= c <= '9') || c == '-' || c == '_' || c == '.' || c == '~'
        || c == '+' || c == '%'
}

/// The value of a hexadecimal digit (0 for anything else).
pub open spec fn hex_value(c: char) -> int {
    if '0' <= c <= '9' {
        c as int - '0' as int
    } else if 'A' <= c <= 'F' {
        c as int - 'A' as int + 10
    } else if 'a' <= c <= 'f' {
        c as int - 'a' as int + 10
    } else {
        0
    }
}

/// Decoding of an escaped query: `+` is a space, `%XY` the byte `0xXY`, any
/// other character the byte of its code.
pub open spec fn percent_decode(s: Seq<char>) -> Seq<u8>
    decreases s.len(),
{
    if s.len() == 0 {
        seq![]
    } else if s[0] == '+' {
        seq![0x20u8] + percent_decode(s.drop_first())
    } else if s[0] == '%' && s.len() >= 3 {
        seq![(hex_value(s[1]) * 16 + hex_value(s[2])) as u8] + percent_decode(s.subrange(3, s.len() as int))
    } else {
        seq![(s[0] as u32) as u8] + percent_decode(s.drop_first())
    }
}

proof fn lemma_encode_bytes_front(bs: Seq<u8>)
    requires
        bs.len() > 0,
    ensures
        encode_bytes(bs) == encode_byte(bs[0]) + encode_bytes(bs.drop_first()),
    decreases bs.len(),
{
    if bs.len() == 1 {
        assert(bs.drop_last() =~= Seq::<u8>::empty());
        assert(bs.drop_first() =~= Seq::<u8>::empty());
        assert(encode_bytes(bs) =~= encode_byte(bs[0]) + encode_bytes(bs.drop_first()));
    } else {
        lemma_encode_bytes_front(bs.drop_last());
        assert(bs.drop_last().drop_first() =~= bs.drop_first().drop_last());
        assert(bs.drop_first().last() == bs.last());
        assert(encode_bytes(bs) =~= encode_byte(bs[0]) + encode_bytes(bs.drop_first()));
    }
}

proof fn lemma_hex_value(d: int)
    requires
        0 <= d < 16,
    ensures
        hex_value(hex_upper(d)) == d,
        escaped_char(hex_upper(d)),
{
}

proof fn lemma_decode_step(b: u8, rest: Seq<char>)
    ensures
        percent_decode(encode_byte(b) + rest) == seq![b] + percent_decode(rest),
{
    let u = encode_byte(b) + rest;
    if unreserved(b) {
        assert(u.drop_first() =~= rest);
        assert(((b as char) as u32) as u8 == b);
    } else if b == 0x20 {
        assert(u.drop_first() =~= rest);
    } else {
        lemma_hex_value(b as int / 16);
        lemma_hex_value(b as int % 16);
        assert(u.subrange(3, u.len() as int) =~= rest);
        assert((b as int / 16) * 16 + b as int % 16 == b);
    }
}

/// Decoding an escaped query gives back its UTF-8 bytes exactly, and the
/// escaped form uses only letters, digits, `-`, `_`, `.`, `~`, `+` and `%`.
pub proof fn lemma_escape_round_trip(bs: Seq<u8>)
    ensures
        percent_decode(encode_bytes(bs)) == bs,
        forall|i: int| 0 <= i < encode_bytes(bs).len() ==> escaped_char(#[trigger] encode_bytes(bs)[i]),
    decreases bs.len(),
{
    if bs.len() > 0 {
        lemma_escape_round_trip(bs.drop_first());
        lemma_encode_bytes_front(bs);
        lemma_decode_step(bs[0], encode_bytes(bs.drop_first()));
        assert(seq![bs[0]] + bs.drop_first() =~= bs);
        let e = encode_byte(bs[0]);
        let r = encode_bytes(bs.drop_first());
        if !unreserved(bs[0]) && bs[0] != 0x20 {
            lemma_hex_value(bs[0] as int / 16);
            lemma_hex_value(bs[0] as int % 16);
        }
        assert forall|i: int| 0 <= i < encode_bytes(bs).len() implies escaped_char(#[trigger] encode_bytes(bs)[i]) by {
            if i >= e.len() {
                assert(encode_bytes(bs)[i] == r[i - e.len()]);
            }
        }
    }
}

} // verus!
