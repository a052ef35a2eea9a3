//! Choosing a character's portrait from an anime's character list.

use vstd::prelude::*;

use crate::text::{append_chars, chars_eq, chars_of, decimal, decimal_chars, string_of, clone_opt_string, contains, contains_sub, lowercase, split_whitespace, texts, to_lowercase, words};

verus! {

/// One character of an anime's character list: its name as listed
/// ("Last, First") and its portrait address, where there is one.
#[derive(Debug)]
pub struct CharacterImage {
    pub name: String,
    pub image_url: Option<String>,
}

/// The listed name equals the wanted one in lowercase.
pub open spec fn exact_match(e: CharacterImage, wanted: Seq<char>) -> bool {
    lowercase(e.name@) == lowercase(wanted)
}

/// Every word of the wanted name (in lowercase) occurs in the listed name
/// (in lowercase), in any order.
pub open spec fn parts_match(e: CharacterImage, wanted: Seq<char>) -> bool {
    let parts = words(lowercase(wanted));
    forall|i: int| 0 <= i < parts.len() ==> contains_sub(lowercase(e.name@), #[trigger] parts[i])
}

/// The portrait of the first character whose name matches exactly, or else
/// of the first whose name holds every word of the wanted name; none when
/// no character matches or the match has no portrait.
pub open spec fn chosen_image(entries: Seq<CharacterImage>, wanted: Seq<char>) -> Option<Seq<char>> {
    if exists|i: int| 0 <= i < entries.len() && exact_match(entries[i], wanted) {
        let i = choose|i: int| 0 <= i < entries.len() && exact_match(entries[i], wanted)
            && forall|j: int| 0 <= j < i ==> !exact_match(entries[j], wanted);
        url_of(entries[i])
    } else if exists|i: int| 0 <= i < entries.len() && parts_match(entries[i], wanted) {
        let i = choose|i: int| 0 <= i < entries.len() && parts_match(entries[i], wanted)
            && forall|j: int| 0 <= j < i ==> !parts_match(entries[j], wanted);
        url_of(entries[i])
    } else {
        None
    }
}

/// The portrait address of an entry.
pub open spec fn url_of(e: CharacterImage) -> Option<Seq<char>> {
    match e.image_url {
        Some(u) => Some(u@),
        None => None,
    }
}

/// The view of an optional string.
pub open spec fn opt_text(o: Option<String>) -> Option<Seq<char>> {
    match o {
        Some(u) => Some(u@),
        None => None,
    }
}

/// Whether an entry holds every part of the wanted name.
fn holds_parts(name_lower: &Vec<char>, parts: &Vec<Vec<char>>) -> (r: bool)
    ensures
        r == forall|i: int| 0 <= i < parts@.len() ==> contains_sub(name_lower@, #[trigger] texts(parts@)[i]),
{
    let mut i: usize = 0;
    while i < parts.len()
        invariant
            i <= parts.len(),
            forall|k: int| 0 <= k < i ==> contains_sub(name_lower@, #[trigger] texts(parts@)[k]),
        decreases parts.len() - i,
    {
        if !contains(name_lower, &parts[i]) {
            assert(!contains_sub(name_lower@, texts(parts@)[i as int]));
            return false;
        }
        i = i + 1;
    }
    true
}

/// Pick the portrait of the wanted character from a character list.
pub fn select_character_image(entries: &Vec<CharacterImage>, character_name: &str) -> (r: Option<String>)
    ensures
        opt_text(r) == chosen_image(entries@, character_name@),
{
    let wanted = chars_of(to_lowercase(character_name).as_str());
    let mut lowers: Vec<Vec<char>> = Vec::new();
    let mut i: usize = 0;
    while i < entries.len()
        invariant
            i <= entries.len(),
            wanted@ == lowercase(character_name@),
            lowers@.len() == i,
            forall|k: int| 0 <= k < i ==> (#[trigger] lowers@[k])@ == lowercase(entries@[k].name@),
            forall|k: int| 0 <= k < i ==> !exact_match(#[trigger] entries@[k], character_name@),
        decreases entries.len() - i,
    {
        let l = chars_of(to_lowercase(entries[i].name.as_str()).as_str());
        if chars_eq(&l, &wanted) {
            assert(exact_match(entries@[i as int], character_name@));
            return clone_opt_string(&entries[i].image_url);
        }
        lowers.push(l);
        i = i + 1;
    }
    let parts = split_whitespace(&wanted);
    let mut j: usize = 0;
    while j < entries.len()
        invariant
            j <= entries.len(),
            lowers@.len() == entries.len(),
            texts(parts@) == words(lowercase(character_name@)),
            forall|k: int| 0 <= k < entries.len() ==> (#[trigger] lowers@[k])@ == lowercase(entries@[k].name@),
            forall|k: int| 0 <= k < entries.len() ==> !exact_match(#[trigger] entries@[k], character_name@),
            forall|k: int| 0 <= k < j ==> !parts_match(#[trigger] entries@[k], character_name@),
        decreases entries.len() - j,
    {
        if holds_parts(&lowers[j], &parts) {
            assert(parts_match(entries@[j as int], character_name@));
            return clone_opt_string(&entries[j].image_url);
        }
        j = j + 1;
    }
    None
}

/// The address of the character list of the anime with MyAnimeList id
/// `mal_id`.
pub fn characters_url(mal_id: u64) -> (r: String)
    ensures
        r@ == "https://api.jikan.moe/v4/anime/"@ + decimal(mal_id as nat) + "/characters"@,
{
    let mut u = chars_of("https://api.jikan.moe/v4/anime/");
    append_chars(&mut u, &decimal_chars(mal_id));
    append_chars(&mut u, &chars_of("/characters"));
    string_of(&u)
}

} // verus!
