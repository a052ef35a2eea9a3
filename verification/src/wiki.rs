//! Fandom wiki addresses of an anime and of a character's images.

use vstd::prelude::*;

use crate::text::{
    alphanumeric, append_chars, chars_of, is_alphanumeric, lowercase, plus_encode, plus_encoded,
    replace_char, replace_char_in, split_whitespace, str_texts, string_of, texts, to_lowercase,
    words, in_list,
};

verus! {

/// Short words skipped when looking for the wiki name of a title.
pub open spec fn particles() -> Seq<Seq<char>> {
    seq!["no"@, "na"@, "ni"@, "wo"@, "ga"@, "de"@, "the"@, "of"@, "on"@, "in"@, "a"@]
}

/// The words that are not particles, in order.
pub open spec fn non_particles(ws: Seq<Seq<char>>) -> Seq<Seq<char>>
    decreases ws.len(),
{
    if ws.len() == 0 {
        seq![]
    } else if particles().contains(ws.last()) {
        non_particles(ws.drop_last())
    } else {
        non_particles(ws.drop_last()).push(ws.last())
    }
}

/// The alphanumeric characters of `s`, in order.
pub open spec fn alnum_only(s: Seq<char>) -> Seq<char>
    decreases s.len(),
{
    if s.len() == 0 {
        seq![]
    } else if alphanumeric(s.last()) {
        alnum_only(s.drop_last()).push(s.last())
    } else {
        alnum_only(s.drop_last())
    }
}

/// The fandom wiki name of an anime: the first word of the lowercase title
/// that is not a particle (or, when all are, the first word; "anime" when
/// the title has none), keeping only its alphanumeric characters.
pub open spec fn subdomain_of(anime_title: Seq<char>) -> Seq<char> {
    let lw = words(lowercase(anime_title));
    let kept = non_particles(lw);
    let slug = if kept.len() > 0 {
        kept[0]
    } else if lw.len() > 0 {
        lw[0]
    } else {
        "anime"@
    };
    alnum_only(slug)
}

/// Derive a fandom wiki subdomain from an anime title:
/// "Higurashi no Naku Koro ni Gou" gives "higurashi".
pub fn fandom_subdomain(anime_title: &str) -> (r: String)
    ensures
        r@ == subdomain_of(anime_title@),
{
    let lower = chars_of(to_lowercase(anime_title).as_str());
    let lw = split_whitespace(&lower);
    let skip: [&str; 11] = ["no", "na", "ni", "wo", "ga", "de", "the", "of", "on", "in", "a"];
    assert(str_texts(skip@) =~= particles());
    let mut first: Option<usize> = None;
    let mut i: usize = 0;
    while i < lw.len() && first.is_none()
        invariant
            i <= lw.len(),
            str_texts(skip@) == particles(),
            texts(lw@) == words(lowercase(anime_title@)),
            first is None ==> non_particles(texts(lw@).take(i as int)).len() == 0,
            first matches Some(j) ==> j < lw.len() && non_particles(texts(lw@).take(i as int)).len() > 0
                && non_particles(texts(lw@).take(i as int))[0] == lw@[j as int]@,
        decreases lw.len() - i,
    {
        assert(texts(lw@).take(i + 1).drop_last() =~= texts(lw@).take(i as int));
        assert(texts(lw@).take(i + 1).last() == lw@[i as int]@);
        if !in_list(&lw[i], &skip) {
            first = Some(i);
        }
        i = i + 1;
    }
    proof {
        lemma_non_particles_prefix(texts(lw@), i as int);
    }
    let slug: Vec<char> = match first {
        Some(j) => crate::text::copy_chars(&lw[j]),
        None => if lw.len() > 0 {
            crate::text::copy_chars(&lw[0])
        } else {
            chars_of("anime")
        },
    };
    let mut out: Vec<char> = Vec::new();
    let mut k: usize = 0;
    while k < slug.len()
        invariant
            k <= slug.len(),
            out@ == alnum_only(slug@.take(k as int)),
        decreases slug.len() - k,
    {
        assert(slug@.take(k + 1).drop_last() =~= slug@.take(k as int));
        if is_alphanumeric(slug[k]) {
            out.push(slug[k]);
        }
        k = k + 1;
    }
    assert(slug@.take(slug.len() as int) =~= slug@);
    string_of(&out)
}

/// Once a prefix has a non-particle word, the first one stays first.
proof fn lemma_non_particles_prefix(ws: Seq<Seq<char>>, i: int)
    requires
        0 <= i <= ws.len(),
    ensures
        non_particles(ws.take(i)).len() > 0 ==> non_particles(ws).len() > 0 && non_particles(ws)[0] == non_particles(ws.take(i))[0],
        non_particles(ws.take(i)).len() == 0 && i == ws.len() ==> non_particles(ws).len() == 0,
    decreases ws.len() - i,
{
    assert(ws.take(ws.len() as int) =~= ws);
    if i < ws.len() {
        lemma_non_particles_prefix(ws, i + 1);
        assert(ws.take(i + 1).drop_last() =~= ws.take(i));
    }
}

/// The wiki API address: `https://<subdomain>.fandom.com/api.php`.
pub fn wiki_api_url(anime_title: &str) -> (r: String)
    ensures
        r@ == "https://"@ + subdomain_of(anime_title@) + ".fandom.com/api.php"@,
{
    let mut u = chars_of("https://");
    append_chars(&mut u, &chars_of(fandom_subdomain(anime_title).as_str()));
    append_chars(&mut u, &chars_of(".fandom.com/api.php"));
    string_of(&u)
}

/// Query for the image file names on a character's page; the page title is
/// the name with spaces as underscores.
pub fn page_images_url(wiki_api: &str, character_name: &str) -> (r: String)
    ensures
        r@ == wiki_api@ + "?action=query&titles="@ + replace_char(character_name@, ' ', '_')
            + "&prop=images&imlimit=50&format=json"@,
{
    let mut u = chars_of(wiki_api);
    append_chars(&mut u, &chars_of("?action=query&titles="));
    append_chars(&mut u, &replace_char_in(&chars_of(character_name), ' ', '_'));
    append_chars(&mut u, &chars_of("&prop=images&imlimit=50&format=json"));
    string_of(&u)
}

/// Query for the direct address of an image file.
pub fn image_info_url(wiki_api: &str, filename: &str) -> (r: String)
    ensures
        r@ == wiki_api@ + "?action=query&titles="@ + plus_encode(filename@)
            + "&prop=imageinfo&iiprop=url&format=json"@,
{
    let mut u = chars_of(wiki_api);
    append_chars(&mut u, &chars_of("?action=query&titles="));
    append_chars(&mut u, &chars_of(urlencoded(filename).as_str()));
    append_chars(&mut u, &chars_of("&prop=imageinfo&iiprop=url&format=json"));
    string_of(&u)
}

/// The image-information queries of a list of file names, in order.
pub fn image_info_urls(wiki_api: &str, filenames: &Vec<String>) -> (r: Vec<String>)
    ensures
        r@.len() == filenames@.len(),
        forall|i: int| 0 <= i < r@.len() ==> (#[trigger] r@[i])@ == wiki_api@ + "?action=query&titles="@
            + plus_encode(filenames@[i]@) + "&prop=imageinfo&iiprop=url&format=json"@,
{
    let mut r: Vec<String> = Vec::new();
    let mut i: usize = 0;
    while i < filenames.len()
        invariant
            i <= filenames@.len(),
            r@.len() == i,
            forall|k: int| 0 <= k < i ==> (#[trigger] r@[k])@ == wiki_api@ + "?action=query&titles="@
                + plus_encode(filenames@[k]@) + "&prop=imageinfo&iiprop=url&format=json"@,
        decreases filenames@.len() - i,
    {
        r.push(image_info_url(wiki_api, filenames[i].as_str()));
        i = i + 1;
    }
    r
}

/// The present values, in order.
pub open spec fn present(v: Seq<Option<String>>) -> Seq<Seq<char>>
    decreases v.len(),
{
    if v.len() == 0 {
        seq![]
    } else {
        match v.last() {
            Some(u) => present(v.drop_last()).push(u@),
            None => present(v.drop_last()),
        }
    }
}

/// The image addresses that were found, in the order of the file names;
/// a file whose address could not be read is left out.
pub fn found_image_urls(answers: Vec<Option<String>>) -> (r: Vec<String>)
    ensures
        Seq::new(r@.len(), |i: int| r@[i]@) == present(answers@),
{
    let mut r: Vec<String> = Vec::new();
    let mut i: usize = 0;
    while i < answers.len()
        invariant
            i <= answers@.len(),
            Seq::new(r@.len(), |k: int| r@[k]@) == present(answers@.take(i as int)),
        decreases answers@.len() - i,
    {
        assert(answers@.take(i + 1).drop_last() =~= answers@.take(i as int));
        let ghost before = Seq::new(r@.len(), |k: int| r@[k]@);
        match &answers[i] {
            Some(u) => {
                r.push(u.clone());
                assert(Seq::new(r@.len(), |k: int| r@[k]@) =~= before.push(u@));
            },
            None => {},
        }
        i = i + 1;
    }
    assert(answers@.take(answers@.len() as int) =~= answers@);
    r
}

/// Escapes an image file name for the wiki query: spaces become `+`, and
/// `&`, `?`, `#` are percent-encoded.
pub fn urlencoded(s: &str) -> (r: String)
    ensures
        r@ == plus_encode(s@),
{
    plus_encoded(s)
}

proof fn lemma_alnum_only(s: Seq<char>)
    ensures
        forall|i: int| 0 <= i < alnum_only(s).len() ==> alphanumeric(#[trigger] alnum_only(s)[i]),
    decreases s.len(),
{
    if s.len() > 0 {
        let prev = alnum_only(s.drop_last());
        lemma_alnum_only(s.drop_last());
        if alphanumeric(s.last()) {
            assert forall|i: int| 0 <= i < alnum_only(s).len() implies alphanumeric(#[trigger] alnum_only(s)[i]) by {
                if i < prev.len() {
                    assert(alnum_only(s)[i] == prev[i]);
                }
            }
        }
    }
}

/// The wiki name of a title holds only alphanumeric characters, so it is a
/// single host name label.
pub proof fn lemma_subdomain_alphanumeric(anime_title: Seq<char>)
    ensures
        forall|i: int| 0 <= i < subdomain_of(anime_title).len() ==> alphanumeric(#[trigger] subdomain_of(anime_title)[i]),
{
    let lw = words(lowercase(anime_title));
    let kept = non_particles(lw);
    let slug = if kept.len() > 0 {
        kept[0]
    } else if lw.len() > 0 {
        lw[0]
    } else {
        "anime"@
    };
    lemma_alnum_only(slug);
}

} // verus!
