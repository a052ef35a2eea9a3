//! Tenor search pages: their address, and the GIF addresses read out of one.

use vstd::prelude::*;

use crate::text::{append_chars, chars_eq, chars_of, join, join_with, split_whitespace, string_of, words};

verus! {

/// The (id, file name) pairs of Tenor thumbnail addresses in a page, in page
/// order, as the pattern
/// `https://media\.tenor\.com/([^"]+?)AAAAM/([^"]+?\.gif)` finds them.
pub uninterp spec fn thumbnail_captures(html: Seq<char>) -> Seq<(Seq<char>, Seq<char>)>;

/// `s` ends with `suffix`.
pub open spec fn ends_with(s: Seq<char>, suffix: Seq<char>) -> bool {
    s.len() >= suffix.len() && s.subrange(s.len() - suffix.len(), s.len() as int) == suffix
}

/// What the pattern's two groups match: an id of at least one character and
/// a file name of at least one character before `.gif`, neither holding `"`.
pub open spec fn thumbnail_shape(p: (Seq<char>, Seq<char>)) -> bool {
    &&& p.0.len() > 0
    &&& !p.0.contains('"')
    &&& p.1.len() > 4
    &&& ends_with(p.1, ".gif"@)
    &&& !p.1.contains('"')
}

/// Calls `regex::Regex::captures_iter` with the Tenor thumbnail pattern and
/// returns groups 1 and 2 of each match, in order; claims that this depends
/// on the page text alone (named `thumbnail_captures`) and that each pair
/// has the shape the groups `([^"]+?)` and `([^"]+?\.gif)` force.
#[verifier::external_body]
fn thumbnail_pairs(html: &str) -> (r: Vec<(String, String)>)
    ensures
        pair_texts(r@) == thumbnail_captures(html@),
        forall|i: int| 0 <= i < r@.len() ==> thumbnail_shape(#[trigger] pair_texts(r@)[i]),
{
    match regex::Regex::new(r#"https://media\.tenor\.com/([^"]+?)AAAAM/([^"]+?\.gif)"#) {
        Ok(re) => re.captures_iter(html).map(|cap| (cap[1].to_string(), cap[2].to_string())).collect(),
        Err(_) => Vec::new(),
    }
}

/// The texts of pairs of strings.
pub open spec fn pair_texts(v: Seq<(String, String)>) -> Seq<(Seq<char>, Seq<char>)> {
    Seq::new(v.len(), |i: int| (v[i].0@, v[i].1@))
}

/// The search page of a query: its words joined by `-`.
pub fn search_page_url(query: &str) -> (r: String)
    ensures
        r@ == "https://tenor.com/search/"@ + join(words(query@), "-"@) + "-gifs?format=gifs"@,
{
    let slug = join_with(&split_whitespace(&chars_of(query)), &chars_of("-"));
    let mut u = chars_of("https://tenor.com/search/");
    append_chars(&mut u, &slug);
    append_chars(&mut u, &chars_of("-gifs?format=gifs"));
    string_of(&u)
}

/// Full-size address of a thumbnail: `https://media.tenor.com/<id>AAAAd/<file>`.
pub open spec fn full_url(p: (Seq<char>, Seq<char>)) -> Seq<char> {
    "https://media.tenor.com/"@ + p.0 + "AAAAd/"@ + p.1
}

/// The items of `s` without repeats, each at its first place.
pub open spec fn first_occurrences(s: Seq<Seq<char>>) -> Seq<Seq<char>>
    decreases s.len(),
{
    if s.len() == 0 {
        seq![]
    } else {
        let p = first_occurrences(s.drop_last());
        if p.contains(s.last()) {
            p
        } else {
            p.push(s.last())
        }
    }
}

/// The full-size addresses of the thumbnails of a page, in order.
pub open spec fn page_gif_urls(html: Seq<char>) -> Seq<Seq<char>> {
    let caps = thumbnail_captures(html);
    first_occurrences(Seq::new(caps.len(), |i: int| full_url(caps[i])))
}

/// The texts of a vector of strings.
pub open spec fn string_texts(v: Seq<String>) -> Seq<Seq<char>> {
    Seq::new(v.len(), |i: int| v[i]@)
}

/// A full-size address ends as its file name does.
proof fn lemma_full_url_suffix(p: (Seq<char>, Seq<char>))
    requires
        ends_with(p.1, ".gif"@),
    ensures
        ends_with(full_url(p), ".gif"@),
{
    reveal_strlit(".gif");
    let u = full_url(p);
    assert(u.subrange(u.len() - 4, u.len() as int) =~= p.1.subrange(p.1.len() - 4, p.1.len() as int));
}

/// Full-size GIF addresses of a search page in ranked order, without
/// repeats, at most `limit`; each is a tenor media address ending in `.gif`.
pub fn extract_gif_urls(html: &str, limit: usize) -> (r: Vec<String>)
    ensures
        string_texts(r@) == (if page_gif_urls(html@).len() <= limit { page_gif_urls(html@) } else { page_gif_urls(html@).take(limit as int) }),
        forall|i: int| 0 <= i < r@.len() ==> ends_with(#[trigger] string_texts(r@)[i], ".gif"@)
            && string_texts(r@)[i].take(24) == "https://media.tenor.com/"@,
{
    proof {
        reveal_strlit(".gif");
        reveal_strlit("https://media.tenor.com/");
    }
    let caps = thumbnail_pairs(html);
    let ghost all = Seq::new(caps@.len(), |i: int| full_url(pair_texts(caps@)[i]));
    let mut seen: Vec<Vec<char>> = Vec::new();
    let mut r: Vec<String> = Vec::new();
    let mut i: usize = 0;
    while i < caps.len()
        invariant
            i <= caps.len(),
            all == Seq::new(caps@.len(), |i: int| full_url(pair_texts(caps@)[i])),
            crate::text::texts(seen@) == first_occurrences(all.take(i as int)),
            string_texts(r@) == first_occurrences(all.take(i as int)),
            forall|j: int| 0 <= j < caps@.len() ==> thumbnail_shape(#[trigger] pair_texts(caps@)[j]),
            forall|j: int| 0 <= j < r@.len() ==> ends_with(#[trigger] string_texts(r@)[j], ".gif"@)
                && string_texts(r@)[j].take(24) == "https://media.tenor.com/"@,
            ".gif"@.len() == 4,
            "https://media.tenor.com/"@.len() == 24,
        decreases caps.len() - i,
    {
        assert(all.take(i + 1).drop_last() =~= all.take(i as int));
        let mut u = chars_of("https://media.tenor.com/");
        append_chars(&mut u, &chars_of(caps[i].0.as_str()));
        append_chars(&mut u, &chars_of("AAAAd/"));
        append_chars(&mut u, &chars_of(caps[i].1.as_str()));
        assert(u@ == all[i as int]);
        let mut found = false;
        let mut k: usize = 0;
        while k < seen.len() && !found
            invariant
                k <= seen.len(),
                found == exists|j: int| 0 <= j < k && seen@[j]@ == u@,
            decreases seen.len() - k,
        {
            if chars_eq(&seen[k], &u) {
                found = true;
            }
            k = k + 1;
        }
        let ghost prev = first_occurrences(all.take(i as int));
        if found {
            proof {
                let j = choose|j: int| 0 <= j < k && seen@[j]@ == u@;
                assert(crate::text::texts(seen@)[j] == u@);
                assert(prev.contains(u@));
            }
        } else {
            assert forall|j: int| 0 <= j < prev.len() implies prev[j] != u@ by {
                assert(crate::text::texts(seen@)[j] == seen@[j]@);
            }
            let ghost before_r = string_texts(r@);
            let ghost before_s = crate::text::texts(seen@);
            proof {
                assert(thumbnail_shape(pair_texts(caps@)[i as int]));
                lemma_full_url_suffix(pair_texts(caps@)[i as int]);
                assert(all[i as int].take(24) =~= "https://media.tenor.com/"@);
            }
            r.push(string_of(&u));
            seen.push(u);
            assert(string_texts(r@) =~= before_r.push(all[i as int]));
            assert(crate::text::texts(seen@) =~= before_s.push(all[i as int]));
        }
        i = i + 1;
    }
    assert(all.take(caps.len() as int) =~= all);
    if r.len() > limit {
        let ghost before = string_texts(r@);
        r.truncate(limit);
        assert(string_texts(r@) =~= before.take(limit as int));
        assert forall|j: int| 0 <= j < r@.len() implies ends_with(#[trigger] string_texts(r@)[j], ".gif"@)
            && string_texts(r@)[j].take(24) == "https://media.tenor.com/"@ by {
            assert(string_texts(r@)[j] == before[j]);
        }
    }
    r
}

/// No address appears twice among the addresses of a page.
pub proof fn lemma_first_occurrences_distinct(s: Seq<Seq<char>>)
    ensures
        first_occurrences(s).no_duplicates(),
        forall|x: Seq<char>| first_occurrences(s).contains(x) <==> s.contains(x),
    decreases s.len(),
{
    if s.len() > 0 {
        lemma_first_occurrences_distinct(s.drop_last());
        let p = first_occurrences(s.drop_last());
        let t = s.drop_last();
        let f = first_occurrences(s);
        assert forall|x: Seq<char>| s.contains(x) <==> (t.contains(x) || x == s.last()) by {
            if s.contains(x) {
                let i = choose|i: int| 0 <= i < s.len() && s[i] == x;
                if i < s.len() - 1 {
                    assert(t[i] == x);
                }
            }
            if t.contains(x) {
                let i = choose|i: int| 0 <= i < t.len() && t[i] == x;
                assert(s[i] == x);
            }
            if x == s.last() {
                assert(s[s.len() - 1] == x);
            }
        }
        if !p.contains(s.last()) {
            assert forall|x: Seq<char>| f.contains(x) <==> (p.contains(x) || x == s.last()) by {
                if f.contains(x) {
                    let i = choose|i: int| 0 <= i < f.len() && f[i] == x;
                    if i < p.len() {
                        assert(p[i] == x);
                    }
                }
                if p.contains(x) {
                    let i = choose|i: int| 0 <= i < p.len() && p[i] == x;
                    assert(f[i] == x);
                }
                if x == s.last() {
                    assert(f[p.len() as int] == x);
                }
            }
        }
    }
}

} // verus!
