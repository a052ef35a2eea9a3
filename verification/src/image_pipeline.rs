//! Frame data of a pull, and the text rules that pick GIF search queries and
//! relevant results for a character.

use vstd::prelude::*;

use crate::klipy::GifResult;
use crate::text::{append_chars, is_ws, scan_words, contains, contains_sub, lowercase, remove_all, remove_all_of, to_lowercase, utf8_len, byte_len, chars_of, copy_chars, eq_ascii_nocase, in_list, in_list_nocase, join, join_with, split_whitespace, str_texts, string_of, texts, words};

verus! {

/// One cell of a rendered frame: its colour and brightness.
#[derive(Debug, Clone, Copy, PartialEq, Eq, Structural)]
pub struct FramePixel {
    pub r: u8,
    pub g: u8,
    pub b: u8,
    pub brightness: u8,
}

/// One frame as rows of cells, `pixels[row][col]`.
#[derive(Debug)]
pub struct AsciiFrame {
    pub pixels: Vec<Vec<FramePixel>>,
}

/// The frames of a pull and where they came from.
#[derive(Debug)]
pub struct PipelineResult {
    pub frames: Vec<AsciiFrame>,
    pub cols: u32,
    pub rows: u32,
    /// "klipy" or "jikan".
    pub source: String,
    pub source_url: String,
    pub matched_query: String,
}

impl Default for PipelineResult {
    fn default() -> (r: Self)
        ensures
            r.frames@.len() == 0,
            r.cols == 0,
            r.rows == 0,
            r.source@.len() == 0,
            r.source_url@.len() == 0,
            r.matched_query@.len() == 0,
    {
        PipelineResult {
            frames: Vec::new(),
            cols: 0,
            rows: 0,
            source: String::new(),
            source_url: String::new(),
            matched_query: String::new(),
        }
    }
}

/// Roman numerals I to X.
pub open spec fn roman_numerals() -> Seq<Seq<char>> {
    seq!["I"@, "II"@, "III"@, "IV"@, "V"@, "VI"@, "VII"@, "VIII"@, "IX"@, "X"@]
}

/// Season and release words, compared without ASCII case.
pub open spec fn noise_words() -> Seq<Seq<char>> {
    seq!["Season"@, "Part"@, "Cour"@, "OVA"@, "ONA"@, "Special"@, "Movie"@, "2nd"@, "3rd"@, "4th"@, "5th"@, "Final"@]
}

/// Every character of `w` is an ASCII digit.
pub open spec fn all_digits(w: Seq<char>) -> bool {
    forall|i: int| 0 <= i < w.len() ==> '0' <= #[trigger] w[i] <= '9'
}

/// A title word that stays: not a roman numeral, not a noise word, not a number.
pub open spec fn title_word_kept(w: Seq<char>) -> bool {
    &&& !roman_numerals().contains(w)
    &&& !(exists|k: int| 0 <= k < noise_words().len() && eq_ascii_nocase(w, #[trigger] noise_words()[k]))
    &&& !all_digits(w)
}

/// The kept words of a list, in order.
pub open spec fn kept_title_words(ws: Seq<Seq<char>>) -> Seq<Seq<char>>
    decreases ws.len(),
{
    if ws.len() == 0 {
        seq![]
    } else if title_word_kept(ws.last()) {
        kept_title_words(ws.drop_last()).push(ws.last())
    } else {
        kept_title_words(ws.drop_last())
    }
}

/// An anime title without season numbers, roman numerals and release words,
/// its remaining words joined by single spaces.
pub open spec fn clean_title(title: Seq<char>) -> Seq<char> {
    join(kept_title_words(words(title)), " "@)
}

/// A word: not empty, without whitespace.
pub open spec fn is_word(w: Seq<char>) -> bool {
    w.len() > 0 && forall|i: int| 0 <= i < w.len() ==> !is_ws(#[trigger] w[i])
}

proof fn lemma_scan_words_shape(s: Seq<char>)
    ensures
        forall|i: int| 0 <= i < scan_words(s).0.len() ==> is_word(#[trigger] scan_words(s).0[i]),
        forall|i: int| 0 <= i < scan_words(s).1.len() ==> !is_ws(#[trigger] scan_words(s).1[i]),
    decreases s.len(),
{
    if s.len() > 0 {
        lemma_scan_words_shape(s.drop_last());
        let (done, cur) = scan_words(s.drop_last());
        let c = s.last();
        if is_ws(c) {
            if cur.len() > 0 {
                assert(is_word(cur));
                assert forall|i: int| 0 <= i < done.push(cur).len() implies is_word(#[trigger] done.push(cur)[i]) by {
                    if i < done.len() {
                        assert(done.push(cur)[i] == done[i]);
                    }
                }
            }
        } else {
            assert forall|i: int| 0 <= i < cur.push(c).len() implies !is_ws(#[trigger] cur.push(c)[i]) by {
                if i < cur.len() {
                    assert(cur.push(c)[i] == cur[i]);
                }
            }
        }
    }
}

proof fn lemma_words_shape(s: Seq<char>)
    ensures
        forall|i: int| 0 <= i < words(s).len() ==> is_word(#[trigger] words(s)[i]),
{
    lemma_scan_words_shape(s);
}

proof fn lemma_scan_append_word(y: Seq<char>, w: Seq<char>)
    requires
        forall|i: int| 0 <= i < w.len() ==> !is_ws(#[trigger] w[i]),
    ensures
        scan_words(y + w) == (scan_words(y).0, scan_words(y).1 + w),
    decreases w.len(),
{
    if w.len() == 0 {
        assert(y + w =~= y);
        assert(scan_words(y).1 + w =~= scan_words(y).1);
    } else {
        lemma_scan_append_word(y, w.drop_last());
        assert((y + w).drop_last() =~= y + w.drop_last());
        assert((y + w).last() == w.last());
        assert(!is_ws(w[w.len() - 1]));
        assert(scan_words(y).1 + w.drop_last() + seq![w.last()] =~= scan_words(y).1 + w);
        assert((scan_words(y).1 + w.drop_last()).push(w.last()) =~= scan_words(y).1 + w);
    }
}

proof fn lemma_words_of_join(ws: Seq<Seq<char>>)
    requires
        forall|i: int| 0 <= i < ws.len() ==> is_word(#[trigger] ws[i]),
    ensures
        words(join(ws, " "@)) == ws,
    decreases ws.len(),
{
    reveal_strlit(" ");
    if ws.len() == 0 {
        assert(words(join(ws, " "@)) =~= ws);
    } else if ws.len() == 1 {
        let w = ws[0];
        assert(is_word(ws[0]));
        lemma_scan_append_word(seq![], w);
        assert(Seq::<char>::empty() + w =~= w);
        assert(words(w) =~= seq![w]);
        assert(ws =~= seq![w]);
    } else {
        let x = join(ws.drop_last(), " "@);
        let w = ws.last();
        assert(is_word(ws[ws.len() - 1]));
        lemma_words_of_join(ws.drop_last());
        let xs = x + " "@;
        assert(xs.drop_last() =~= x);
        assert(xs.last() == ' ');
        assert(scan_words(xs) == (words(x), Seq::<char>::empty()));
        lemma_scan_append_word(xs, w);
        assert(Seq::<char>::empty() + w =~= w);
        assert(join(ws, " "@) == xs + w);
        assert(words(join(ws, " "@)) =~= ws.drop_last().push(w));
        assert(ws.drop_last().push(w) =~= ws);
    }
}

proof fn lemma_kept_title_words(ws: Seq<Seq<char>>)
    ensures
        forall|i: int| 0 <= i < kept_title_words(ws).len() ==> title_word_kept(#[trigger] kept_title_words(ws)[i])
            && ws.contains(kept_title_words(ws)[i]),
        (forall|i: int| 0 <= i < ws.len() ==> title_word_kept(#[trigger] ws[i])) ==> kept_title_words(ws) == ws,
    decreases ws.len(),
{
    if ws.len() > 0 {
        lemma_kept_title_words(ws.drop_last());
        let k = kept_title_words(ws);
        let p = kept_title_words(ws.drop_last());
        assert forall|i: int| 0 <= i < k.len() implies title_word_kept(#[trigger] k[i]) && ws.contains(k[i]) by {
            if i < p.len() {
                assert(k[i] == p[i]);
                let j = choose|j: int| 0 <= j < ws.drop_last().len() && ws.drop_last()[j] == p[i];
                assert(ws[j] == p[i]);
            } else {
                assert(k[i] == ws.last());
                assert(ws[ws.len() - 1] == ws.last());
            }
        }
        if forall|i: int| 0 <= i < ws.len() ==> title_word_kept(#[trigger] ws[i]) {
            assert(title_word_kept(ws[ws.len() - 1]));
            assert forall|i: int| 0 <= i < ws.drop_last().len() implies title_word_kept(#[trigger] ws.drop_last()[i]) by {
                assert(ws.drop_last()[i] == ws[i]);
            }
            assert(ws.drop_last().push(ws.last()) =~= ws);
        }
    }
}

/// No word of a cleaned title is a roman numeral from I to X, a season or
/// release word (Season, Part, Cour, OVA, ONA, Special, Movie, 2nd, 3rd,
/// 4th, 5th, Final, in any ASCII case) or a number written in digits.
pub proof fn lemma_clean_title_words(title: Seq<char>, j: int)
    requires
        0 <= j < words(clean_title(title)).len(),
    ensures
        ({
            let w = words(clean_title(title))[j];
            &&& w != "I"@ && w != "II"@ && w != "III"@ && w != "IV"@ && w != "V"@
            &&& w != "VI"@ && w != "VII"@ && w != "VIII"@ && w != "IX"@ && w != "X"@
            &&& !eq_ascii_nocase(w, "Season"@) && !eq_ascii_nocase(w, "Part"@) && !eq_ascii_nocase(w, "Cour"@)
            &&& !eq_ascii_nocase(w, "OVA"@) && !eq_ascii_nocase(w, "ONA"@) && !eq_ascii_nocase(w, "Special"@)
            &&& !eq_ascii_nocase(w, "Movie"@) && !eq_ascii_nocase(w, "2nd"@) && !eq_ascii_nocase(w, "3rd"@)
            &&& !eq_ascii_nocase(w, "4th"@) && !eq_ascii_nocase(w, "5th"@) && !eq_ascii_nocase(w, "Final"@)
            &&& exists|k: int| 0 <= k < w.len() && !('0' <= #[trigger] w[k] <= '9')
        }),
{
    let ws = words(title);
    let k = kept_title_words(ws);
    lemma_words_shape(title);
    lemma_kept_title_words(ws);
    assert forall|i: int| 0 <= i < k.len() implies is_word(#[trigger] k[i]) by {
        let m = choose|m: int| 0 <= m < ws.len() && ws[m] == k[i];
        assert(is_word(ws[m]));
    }
    lemma_words_of_join(k);
    let w = k[j];
    assert(title_word_kept(w));
    let r = roman_numerals();
    assert(r[0] == "I"@ && r[1] == "II"@ && r[2] == "III"@ && r[3] == "IV"@ && r[4] == "V"@);
    assert(r[5] == "VI"@ && r[6] == "VII"@ && r[7] == "VIII"@ && r[8] == "IX"@ && r[9] == "X"@);
    let nw = noise_words();
    assert(nw[0] == "Season"@ && nw[1] == "Part"@ && nw[2] == "Cour"@ && nw[3] == "OVA"@);
    assert(nw[4] == "ONA"@ && nw[5] == "Special"@ && nw[6] == "Movie"@ && nw[7] == "2nd"@);
    assert(nw[8] == "3rd"@ && nw[9] == "4th"@ && nw[10] == "5th"@ && nw[11] == "Final"@);
    assert(!all_digits(w));
}

proof fn lemma_kept_contains(ws: Seq<Seq<char>>, i: int)
    requires
        0 <= i < ws.len(),
        title_word_kept(ws[i]),
    ensures
        kept_title_words(ws).contains(ws[i]),
    decreases ws.len(),
{
    let k = kept_title_words(ws);
    if i == ws.len() - 1 {
        assert(k[k.len() - 1] == ws[i]);
    } else {
        assert(ws.drop_last()[i] == ws[i]);
        lemma_kept_contains(ws.drop_last(), i);
        let p = kept_title_words(ws.drop_last());
        let j = choose|j: int| 0 <= j < p.len() && p[j] == ws[i];
        assert(k[j] == p[j]);
    }
}

/// A word of the title that is no roman numeral from I to X, no season or
/// release word (in any ASCII case) and not all digits stays in the cleaned
/// title.
pub proof fn lemma_clean_title_keeps(title: Seq<char>, i: int)
    requires
        0 <= i < words(title).len(),
        ({
            let w = words(title)[i];
            &&& w != "I"@ && w != "II"@ && w != "III"@ && w != "IV"@ && w != "V"@
            &&& w != "VI"@ && w != "VII"@ && w != "VIII"@ && w != "IX"@ && w != "X"@
            &&& !eq_ascii_nocase(w, "Season"@) && !eq_ascii_nocase(w, "Part"@) && !eq_ascii_nocase(w, "Cour"@)
            &&& !eq_ascii_nocase(w, "OVA"@) && !eq_ascii_nocase(w, "ONA"@) && !eq_ascii_nocase(w, "Special"@)
            &&& !eq_ascii_nocase(w, "Movie"@) && !eq_ascii_nocase(w, "2nd"@) && !eq_ascii_nocase(w, "3rd"@)
            &&& !eq_ascii_nocase(w, "4th"@) && !eq_ascii_nocase(w, "5th"@) && !eq_ascii_nocase(w, "Final"@)
            &&& exists|k: int| 0 <= k < w.len() && !('0' <= #[trigger] w[k] <= '9')
        }),
    ensures
        words(clean_title(title)).contains(words(title)[i]),
{
    let ws = words(title);
    let w = ws[i];
    assert(!roman_numerals().contains(w)) by {
        if roman_numerals().contains(w) {
            let k = choose|k: int| 0 <= k < roman_numerals().len() && roman_numerals()[k] == w;
            if k == 0 {
                assert(roman_numerals()[0] == "I"@);
            } else if k == 1 {
                assert(roman_numerals()[1] == "II"@);
            } else if k == 2 {
                assert(roman_numerals()[2] == "III"@);
            } else if k == 3 {
                assert(roman_numerals()[3] == "IV"@);
            } else if k == 4 {
                assert(roman_numerals()[4] == "V"@);
            } else if k == 5 {
                assert(roman_numerals()[5] == "VI"@);
            } else if k == 6 {
                assert(roman_numerals()[6] == "VII"@);
            } else if k == 7 {
                assert(roman_numerals()[7] == "VIII"@);
            } else if k == 8 {
                assert(roman_numerals()[8] == "IX"@);
            } else if k == 9 {
                assert(roman_numerals()[9] == "X"@);
            }
        }
    }
    assert(!(exists|k: int| 0 <= k < noise_words().len() && eq_ascii_nocase(w, #[trigger] noise_words()[k]))) by {
        if exists|k: int| 0 <= k < noise_words().len() && eq_ascii_nocase(w, #[trigger] noise_words()[k]) {
            let k = choose|k: int| 0 <= k < noise_words().len() && eq_ascii_nocase(w, #[trigger] noise_words()[k]);
            if k == 0 {
                assert(noise_words()[0] == "Season"@);
            } else if k == 1 {
                assert(noise_words()[1] == "Part"@);
            } else if k == 2 {
                assert(noise_words()[2] == "Cour"@);
            } else if k == 3 {
                assert(noise_words()[3] == "OVA"@);
            } else if k == 4 {
                assert(noise_words()[4] == "ONA"@);
            } else if k == 5 {
                assert(noise_words()[5] == "Special"@);
            } else if k == 6 {
                assert(noise_words()[6] == "Movie"@);
            } else if k == 7 {
                assert(noise_words()[7] == "2nd"@);
            } else if k == 8 {
                assert(noise_words()[8] == "3rd"@);
            } else if k == 9 {
                assert(noise_words()[9] == "4th"@);
            } else if k == 10 {
                assert(noise_words()[10] == "5th"@);
            } else if k == 11 {
                assert(noise_words()[11] == "Final"@);
            }
        }
    }
    assert(!all_digits(w));
    lemma_kept_contains(ws, i);
    let kt = kept_title_words(ws);
    lemma_words_shape(title);
    lemma_kept_title_words(ws);
    assert forall|j: int| 0 <= j < kt.len() implies is_word(#[trigger] kt[j]) by {
        let m = choose|m: int| 0 <= m < ws.len() && ws[m] == kt[j];
        assert(is_word(ws[m]));
    }
    lemma_words_of_join(kt);
}

/// Cleaning a cleaned title changes nothing.
pub proof fn lemma_clean_title_idempotent(title: Seq<char>)
    ensures
        clean_title(clean_title(title)) == clean_title(title),
{
    let w = words(title);
    let k = kept_title_words(w);
    lemma_words_shape(title);
    lemma_kept_title_words(w);
    assert forall|i: int| 0 <= i < k.len() implies is_word(#[trigger] k[i]) by {
        let j = choose|j: int| 0 <= j < w.len() && w[j] == k[i];
        assert(is_word(w[j]));
    }
    lemma_words_of_join(k);
    lemma_kept_title_words(k);
}

fn is_all_digits(w: &Vec<char>) -> (r: bool)
    ensures
        r == all_digits(w@),
{
    let mut i: usize = 0;
    while i < w.len()
        invariant
            i <= w.len(),
            forall|k: int| 0 <= k < i ==> '0' <= #[trigger] w@[k] <= '9',
        decreases w.len() - i,
    {
        if !('0' <= w[i] && w[i] <= '9') {
            return false;
        }
        i = i + 1;
    }
    true
}

/// Whether a title word is kept.
fn keep_title_word(w: &Vec<char>) -> (r: bool)
    ensures
        r == title_word_kept(w@),
{
    let roman: [&str; 10] = ["I", "II", "III", "IV", "V", "VI", "VII", "VIII", "IX", "X"];
    let noise: [&str; 12] = ["Season", "Part", "Cour", "OVA", "ONA", "Special", "Movie", "2nd", "3rd", "4th", "5th", "Final"];
    assert(str_texts(roman@) =~= roman_numerals());
    assert(str_texts(noise@) =~= noise_words());
    !in_list(w, &roman) && !in_list_nocase(w, &noise) && !is_all_digits(w)
}

/// The words of `ws` that `keep_title_word` keeps.
fn keep_title_words(ws: &Vec<Vec<char>>) -> (r: Vec<Vec<char>>)
    ensures
        texts(r@) == kept_title_words(texts(ws@)),
{
    let mut r: Vec<Vec<char>> = Vec::new();
    let mut i: usize = 0;
    while i < ws.len()
        invariant
            i <= ws.len(),
            texts(r@) == kept_title_words(texts(ws@).take(i as int)),
        decreases ws.len() - i,
    {
        assert(texts(ws@).take(i + 1).drop_last() =~= texts(ws@).take(i as int));
        assert(texts(ws@).take(i + 1).last() == ws@[i as int]@);
        if keep_title_word(&ws[i]) {
            let ghost before = texts(r@);
            r.push(copy_chars(&ws[i]));
            assert(texts(r@) =~= before.push(ws@[i as int]@));
        }
        i = i + 1;
    }
    assert(texts(ws@).take(ws.len() as int) =~= texts(ws@));
    r
}

/// Strip season numbers, roman numerals and other suffixes from an anime title:
/// "Overlord III" becomes "Overlord".
pub fn clean_anime_title(title: &str) -> (r: String)
    ensures
        r@ == clean_title(title@),
{
    let r = clean_title_chars(&chars_of(title));
    string_of(&r)
}

/// `clean_anime_title` on characters.
pub fn clean_title_chars(title: &Vec<char>) -> (r: Vec<char>)
    ensures
        r@ == clean_title(title@),
{
    let ws = split_whitespace(title);
    let kept = keep_title_words(&ws);
    let sep = chars_of(" ");
    join_with(&kept, &sep)
}

/// The first word of a text, empty when it has none.
pub open spec fn first_word(s: Seq<char>) -> Seq<char> {
    if words(s).len() > 0 {
        words(s)[0]
    } else {
        seq![]
    }
}

/// Whether a GIF result title is about the wanted character: an empty title
/// always passes; otherwise every word of a two-or-more-word character name
/// appears in it, or the first name and a word of three or more bytes of the
/// cleaned anime title both appear in it (all compared in lowercase).
pub open spec fn relevant(title: Seq<char>, character_name: Seq<char>, anime_title: Seq<char>) -> bool {
    let tl = lowercase(title);
    let first = first_word(character_name);
    let has_character = first.len() > 0 && contains_sub(tl, lowercase(first));
    let cw = words(clean_title(anime_title));
    let has_anime = exists|i: int| 0 <= i < cw.len() && utf8_len(#[trigger] cw[i]) >= 3 && contains_sub(tl, lowercase(cw[i]));
    let parts = words(character_name);
    let has_full_name = parts.len() >= 2 && forall|i: int| 0 <= i < parts.len() ==> contains_sub(tl, lowercase(#[trigger] parts[i]));
    title.len() == 0 || has_full_name || (has_character && has_anime)
}

/// A result title is relevant when it is empty; when it holds (in
/// lowercase) every word of a character name of two or more words; and when
/// it holds the character's first name and any word of three or more bytes
/// of the cleaned anime title, wherever that word stands in the title.
/// Nothing else is relevant.
pub proof fn lemma_relevant_cases(title: Seq<char>, character_name: Seq<char>, anime_title: Seq<char>, i: int)
    ensures
        title.len() == 0 ==> relevant(title, character_name, anime_title),
        words(character_name).len() >= 2
            && (forall|k: int| 0 <= k < words(character_name).len()
                ==> contains_sub(lowercase(title), lowercase(#[trigger] words(character_name)[k])))
            ==> relevant(title, character_name, anime_title),
        words(character_name).len() >= 1
            && words(character_name)[0].len() > 0
            && contains_sub(lowercase(title), lowercase(words(character_name)[0]))
            && 0 <= i < words(clean_title(anime_title)).len()
            && utf8_len(words(clean_title(anime_title))[i]) >= 3
            && contains_sub(lowercase(title), lowercase(words(clean_title(anime_title))[i]))
            ==> relevant(title, character_name, anime_title),
        relevant(title, character_name, anime_title) ==> title.len() == 0
            || (words(character_name).len() >= 2 && forall|k: int| 0 <= k < words(character_name).len()
                ==> contains_sub(lowercase(title), lowercase(#[trigger] words(character_name)[k])))
            || (words(character_name).len() >= 1 && contains_sub(lowercase(title), lowercase(words(character_name)[0]))
                && exists|j: int| 0 <= j < words(clean_title(anime_title)).len()
                    && utf8_len(#[trigger] words(clean_title(anime_title))[j]) >= 3
                    && contains_sub(lowercase(title), lowercase(words(clean_title(anime_title))[j]))),
{
    let cw = words(clean_title(anime_title));
    if 0 <= i < cw.len() {
        assert(utf8_len(cw[i]) >= 3 ==> contains_sub(lowercase(title), lowercase(cw[i])) ==> (exists|j: int| 0 <= j < cw.len() && utf8_len(#[trigger] cw[j]) >= 3 && contains_sub(lowercase(title), lowercase(cw[j]))));
    }
}

/// The lowercase of a text held as characters.
pub fn lower_chars(s: &Vec<char>) -> (r: Vec<char>)
    ensures
        r@ == lowercase(s@),
{
    let st = string_of(s);
    let l = to_lowercase(st.as_str());
    chars_of(l.as_str())
}

/// Whether a GIF result's title is relevant to the character and anime.
pub fn is_relevant(title: &str, character_name: &str, anime_title: &str) -> (r: bool)
    ensures
        r == relevant(title@, character_name@, anime_title@),
{
    if title.is_empty() {
        return true;
    }
    let tl = chars_of(to_lowercase(title).as_str());
    let parts = split_whitespace(&chars_of(character_name));

    // Full name: every part of a name of two or more words.
    let mut has_full_name = parts.len() >= 2;
    let mut i: usize = 0;
    while i < parts.len()
        invariant
            i <= parts.len(),
            tl@ == lowercase(title@),
            texts(parts@) == words(character_name@),
            has_full_name == (parts.len() >= 2 && forall|k: int| 0 <= k < i ==> contains_sub(tl@, lowercase(#[trigger] texts(parts@)[k]))),
        decreases parts.len() - i,
    {
        assert(texts(parts@)[i as int] == parts@[i as int]@);
        if has_full_name {
            let lp = lower_chars(&parts[i]);
            if !contains(&tl, &lp) {
                has_full_name = false;
            }
        }
        i = i + 1;
    }
    if has_full_name {
        return true;
    }

    let has_character = if parts.len() > 0 {
        assert(first_word(character_name@) == parts@[0]@);
        let lf = lower_chars(&parts[0]);
        parts[0].len() > 0 && contains(&tl, &lf)
    } else {
        false
    };

    let cw = split_whitespace(&clean_title_chars(&chars_of(anime_title)));
    let mut has_anime = false;
    let mut j: usize = 0;
    while j < cw.len() && !has_anime
        invariant
            j <= cw.len(),
            tl@ == lowercase(title@),
            texts(cw@) == words(clean_title(anime_title@)),
            has_anime == exists|k: int| 0 <= k < j && utf8_len(#[trigger] texts(cw@)[k]) >= 3 && contains_sub(tl@, lowercase(texts(cw@)[k])),
        decreases cw.len() - j,
    {
        if byte_len(&cw[j]) >= 3 {
            let lw = lower_chars(&cw[j]);
            if contains(&tl, &lw) {
                has_anime = true;
                assert(utf8_len(texts(cw@)[j as int]) >= 3 && contains_sub(tl@, lowercase(texts(cw@)[j as int])));
            }
        }
        j = j + 1;
    }
    has_character && has_anime
}

/// The texts of a vector of strings.
pub open spec fn string_texts(v: Seq<String>) -> Seq<Seq<char>> {
    Seq::new(v.len(), |i: int| v[i]@)
}

/// The words of a search query left once the character name and the cleaned
/// anime title are cut out of it (all in lowercase), joined by spaces.
pub open spec fn descriptors(search_query: Seq<char>, character_name: Seq<char>, anime_title: Seq<char>) -> Seq<char> {
    let cut = remove_all(remove_all(lowercase(search_query), lowercase(character_name)), lowercase(clean_title(anime_title)));
    join(words(cut), " "@)
}

/// The words of four or more bytes, in order.
pub open spec fn long_words(ws: Seq<Seq<char>>) -> Seq<Seq<char>>
    decreases ws.len(),
{
    if ws.len() == 0 {
        seq![]
    } else if utf8_len(ws.last()) >= 4 {
        long_words(ws.drop_last()).push(ws.last())
    } else {
        long_words(ws.drop_last())
    }
}

/// The first two long words of a scene description.
pub open spec fn scene_words(scene: Seq<char>) -> Seq<Seq<char>> {
    let l = long_words(words(scene));
    if l.len() <= 2 {
        l
    } else {
        l.take(2)
    }
}

/// `q` appended unless a query equal to it in lowercase is already there.
pub open spec fn add_query(qs: Seq<Seq<char>>, q: Seq<char>) -> Seq<Seq<char>> {
    if exists|i: int| 0 <= i < qs.len() && lowercase(#[trigger] qs[i]) == lowercase(q) {
        qs
    } else {
        qs.push(q)
    }
}

/// The GIF search queries tried for a character, most targeted first:
/// name with the query's descriptive words, name with two long words of the
/// scene, the name alone, name with the cleaned anime title; a query that
/// equals an earlier one in lowercase is dropped, as are the first two when
/// they would have no words after the name.
pub open spec fn search_queries(search_query: Seq<char>, character_name: Seq<char>, anime_title: Seq<char>, scene: Seq<char>) -> Seq<Seq<char>> {
    let d = descriptors(search_query, character_name, anime_title);
    let q1 = if d.len() > 0 { add_query(seq![], character_name + " "@ + d) } else { seq![] };
    let sw = scene_words(scene);
    let q2 = if sw.len() > 0 { add_query(q1, character_name + " "@ + join(sw, " "@)) } else { q1 };
    let q3 = add_query(q2, character_name);
    add_query(q3, character_name + " "@ + clean_title(anime_title))
}

/// Appends `q` to `qs` unless an equal query (in lowercase) is there;
/// `lowers` holds the lowercase of each query.
fn push_query(qs: &mut Vec<String>, lowers: &mut Vec<Vec<char>>, q: Vec<char>)
    requires
        old(qs)@.len() == old(lowers)@.len(),
        forall|i: int| 0 <= i < old(qs)@.len() ==> (#[trigger] old(lowers)@[i])@ == lowercase(old(qs)@[i]@),
    ensures
        final(qs)@.len() == final(lowers)@.len(),
        forall|i: int| 0 <= i < final(qs)@.len() ==> (#[trigger] final(lowers)@[i])@ == lowercase(final(qs)@[i]@),
        string_texts(final(qs)@) == add_query(string_texts(old(qs)@), q@),
{
    let lq = lower_chars(&q);
    let mut i: usize = 0;
    while i < lowers.len()
        invariant
            qs@ == old(qs)@,
            lowers@ == old(lowers)@,
            qs@.len() == lowers@.len(),
            forall|k: int| 0 <= k < qs@.len() ==> (#[trigger] lowers@[k])@ == lowercase(qs@[k]@),
            i <= lowers.len(),
            lq@ == lowercase(q@),
            forall|k: int| 0 <= k < i ==> lowercase(#[trigger] string_texts(qs@)[k]) != lowercase(q@),
        decreases lowers.len() - i,
    {
        if crate::text::chars_eq(&lowers[i], &lq) {
            assert(lowercase(string_texts(qs@)[i as int]) == lowercase(q@));
            return;
        }
        i = i + 1;
    }
    let ghost before = string_texts(qs@);
    qs.push(string_of(&q));
    lowers.push(lq);
    assert(string_texts(qs@) =~= before.push(q@));
}

/// The long words among the first words of `ws`, at most two.
fn first_long_words(ws: &Vec<Vec<char>>) -> (r: Vec<Vec<char>>)
    ensures
        texts(r@) == (if long_words(texts(ws@)).len() <= 2 { long_words(texts(ws@)) } else { long_words(texts(ws@)).take(2) }),
{
    let mut r: Vec<Vec<char>> = Vec::new();
    let mut i: usize = 0;
    while i < ws.len()
        invariant
            i <= ws.len(),
            texts(r@) == long_words(texts(ws@).take(i as int)),
        decreases ws.len() - i,
    {
        assert(texts(ws@).take(i + 1).drop_last() =~= texts(ws@).take(i as int));
        assert(texts(ws@).take(i + 1).last() == ws@[i as int]@);
        if byte_len(&ws[i]) >= 4 {
            let ghost before = texts(r@);
            r.push(copy_chars(&ws[i]));
            assert(texts(r@) =~= before.push(ws@[i as int]@));
        }
        i = i + 1;
    }
    assert(texts(ws@).take(ws.len() as int) =~= texts(ws@));
    if r.len() > 2 {
        let ghost before = texts(r@);
        r.truncate(2);
        assert(texts(r@) =~= before.take(2));
    }
    r
}

/// `name`, a space and `rest`.
fn name_with(name: &Vec<char>, rest: &Vec<char>) -> (r: Vec<char>)
    ensures
        r@ == name@ + " "@ + rest@,
{
    let mut q = copy_chars(name);
    append_chars(&mut q, &chars_of(" "));
    append_chars(&mut q, rest);
    q
}

/// The queries to search GIFs with, in the order to try them.
pub fn build_queries(search_query: &str, character_name: &str, anime_title: &str, scene: &str) -> (r: Vec<String>)
    ensures
        string_texts(r@) == search_queries(search_query@, character_name@, anime_title@, scene@),
{
    let name = chars_of(character_name);
    let clean = clean_title_chars(&chars_of(anime_title));
    let cut1 = remove_all_of(&lower_chars(&chars_of(search_query)), &lower_chars(&name));
    let cut = remove_all_of(&cut1, &lower_chars(&clean));
    let space = chars_of(" ");
    let d = join_with(&split_whitespace(&cut), &space);

    let mut qs: Vec<String> = Vec::new();
    let mut lowers: Vec<Vec<char>> = Vec::new();
    assert(string_texts(qs@) =~= Seq::<Seq<char>>::empty());
    if d.len() > 0 {
        push_query(&mut qs, &mut lowers, name_with(&name, &d));
    }
    let sw = first_long_words(&split_whitespace(&chars_of(scene)));
    if sw.len() > 0 {
        push_query(&mut qs, &mut lowers, name_with(&name, &join_with(&sw, &space)));
    }
    push_query(&mut qs, &mut lowers, copy_chars(&name));
    push_query(&mut qs, &mut lowers, name_with(&name, &clean));
    qs
}

/// Frames kept of an animation: at most this many.
pub const MAX_FRAMES: usize = 40;

/// Distance between kept frames: 1 for short animations, otherwise
/// `total / MAX_FRAMES`.
pub open spec fn frame_step(total: int) -> int {
    if total <= 40 {
        1
    } else {
        total / 40
    }
}

/// Indices of the frames to keep out of `total`: every `frame_step`-th frame
/// from the first, at most `MAX_FRAMES` of them.
pub fn sample_frame_indices(total: usize) -> (r: Vec<usize>)
    ensures
        r@.len() <= 40,
        forall|j: int| 0 <= j < r@.len() ==> (#[trigger] r@[j]) as int == j * frame_step(total as int) && r@[j] < total,
        r@.len() == 40 || r@.len() * frame_step(total as int) >= total,
        r@.len() == (if total <= 40 { total as int } else { 40 }),
{
    let r = sample_frame_positions(total);
    if total > MAX_FRAMES && r.len() < MAX_FRAMES {
        let step: usize = total / MAX_FRAMES;
        assert(false) by (nonlinear_arith)
            requires
                step == total / 40,
                total > 40,
                r@.len() < 40,
                r@.len() * step >= total,
        {
        }
    }
    r
}

fn sample_frame_positions(total: usize) -> (r: Vec<usize>)
    ensures
        r@.len() <= 40,
        forall|j: int| 0 <= j < r@.len() ==> (#[trigger] r@[j]) as int == j * frame_step(total as int) && r@[j] < total,
        r@.len() == 40 || r@.len() * frame_step(total as int) >= total,
        total <= 40 ==> r@.len() == total,
{
    let step: usize = if total <= MAX_FRAMES { 1 } else { total / MAX_FRAMES };
    assert(step >= 1);
    let mut r: Vec<usize> = Vec::new();
    let mut pos: usize = 0;
    while pos < total && r.len() < MAX_FRAMES
        invariant
            step as int == frame_step(total as int),
            step >= 1,
            r@.len() <= 40,
            pos as int == r@.len() * step,
            forall|j: int| 0 <= j < r@.len() ==> (#[trigger] r@[j]) as int == j * step && r@[j] < total,
        decreases total - pos,
    {
        let ghost k = r@.len();
        r.push(pos);
        if step < total - pos {
            pos = pos + step;
        } else {
            pos = total;
            assert(r@.len() * step >= total) by (nonlinear_arith)
                requires
                    r@.len() == k + 1,
                    k * step + step >= total,
            {
            }
            assert(forall|j: int| 0 <= j < r@.len() ==> (#[trigger] r@[j]) < total);
            if total <= MAX_FRAMES {
                assert(r@[r@.len() - 1] < total);
            }
            return r;
        }
        assert(pos as int == r@.len() * step) by (nonlinear_arith)
            requires
                pos as int == k * step + step,
                r@.len() == k + 1,
        {
        }
    }
    if total <= MAX_FRAMES && r.len() > 0 {
        assert(r@[r@.len() - 1] < total);
    }
    r
}

/// Whether a GIF result is worth downloading: its address is not used by
/// an earlier pull and its title is relevant.
pub fn wanted_result(url: &str, title: &str, used_urls: &Vec<String>, character_name: &str, anime_title: &str) -> (r: bool)
    ensures
        r == (!string_texts(used_urls@).contains(url@) && relevant(title@, character_name@, anime_title@)),
{
    if used_before(url, used_urls) {
        return false;
    }
    is_relevant(title, character_name, anime_title)
}

/// No two queries are equal in lowercase.
pub open spec fn distinct_lower(qs: Seq<Seq<char>>) -> bool {
    forall|i: int, j: int| 0 <= i < j < qs.len() ==> lowercase(qs[i]) != lowercase(qs[j])
}

proof fn lemma_add_query(qs: Seq<Seq<char>>, q: Seq<char>)
    requires
        distinct_lower(qs),
    ensures
        distinct_lower(add_query(qs, q)),
        exists|i: int| 0 <= i < add_query(qs, q).len() && lowercase(#[trigger] add_query(qs, q)[i]) == lowercase(q),
        add_query(qs, q).len() <= qs.len() + 1,
        add_query(qs, q).len() >= qs.len(),
        forall|i: int| 0 <= i < qs.len() ==> add_query(qs, q)[i] == qs[i],
{
    let r = add_query(qs, q);
    if !(exists|i: int| 0 <= i < qs.len() && lowercase(#[trigger] qs[i]) == lowercase(q)) {
        assert(r[qs.len() as int] == q);
    }
}

/// The queries of a pull are between one and four, no two equal in
/// lowercase, and one of them is the character's name.
pub proof fn lemma_queries_distinct(search_query: Seq<char>, character_name: Seq<char>, anime_title: Seq<char>, scene: Seq<char>)
    ensures
        distinct_lower(search_queries(search_query, character_name, anime_title, scene)),
        1 <= search_queries(search_query, character_name, anime_title, scene).len() <= 4,
        exists|i: int| 0 <= i < search_queries(search_query, character_name, anime_title, scene).len()
            && lowercase(#[trigger] search_queries(search_query, character_name, anime_title, scene)[i]) == lowercase(character_name),
{
    let d = descriptors(search_query, character_name, anime_title);
    let q0: Seq<Seq<char>> = seq![];
    lemma_add_query(q0, character_name + " "@ + d);
    let q1 = if d.len() > 0 { add_query(q0, character_name + " "@ + d) } else { q0 };
    let sw = scene_words(scene);
    lemma_add_query(q1, character_name + " "@ + join(sw, " "@));
    let q2 = if sw.len() > 0 { add_query(q1, character_name + " "@ + join(sw, " "@)) } else { q1 };
    lemma_add_query(q2, character_name);
    let q3 = add_query(q2, character_name);
    lemma_add_query(q3, character_name + " "@ + clean_title(anime_title));
    let q4 = add_query(q3, character_name + " "@ + clean_title(anime_title));
    let i = choose|i: int| 0 <= i < q3.len() && lowercase(#[trigger] q3[i]) == lowercase(character_name);
    assert(q4[i] == q3[i]);
}

/// A decoded image: its size and its pixels as RGBA bytes, row by row.
#[derive(Debug)]
pub struct RgbaFrame {
    pub width: u32,
    pub height: u32,
    pub rgba: Vec<u8>,
}

/// An image as (width, height, RGBA bytes).
pub open spec fn frame_view(f: RgbaFrame) -> (u32, u32, Seq<u8>) {
    (f.width, f.height, f.rgba@)
}

/// The views of decoded frames, `None` where a frame failed to decode.
pub open spec fn frames_view(v: Seq<Option<RgbaFrame>>) -> Seq<Option<(u32, u32, Seq<u8>)>> {
    Seq::new(v.len(), |i: int| match v[i] {
        Some(f) => Some(frame_view(f)),
        None => None,
    })
}

/// The first `limit` frames that the `image` crate's GIF decoder yields for
/// `data`, each as (width, height, RGBA bytes), or `None` where the decoder
/// reported an error for that frame; `None` when it does not accept `data`.
pub uninterp spec fn gif_frames(data: Seq<u8>, limit: usize) -> Option<Seq<Option<(u32, u32, Seq<u8>)>>>;

/// Calls `image::codecs::gif::GifDecoder::new` on `data`, then
/// `AnimationDecoder::into_frames` and, for each of the first `limit`
/// frames, `Frame::into_buffer`; claims only that the result depends on the
/// bytes and `limit` alone (named `gif_frames`).
#[verifier::external_body]
fn decode_gif_frames(data: &[u8], limit: usize) -> (r: Option<Vec<Option<RgbaFrame>>>)
    ensures
        match r {
            Some(v) => gif_frames(data@, limit) == Some(frames_view(v@)),
            None => gif_frames(data@, limit) is None,
        },
{
    match image::codecs::gif::GifDecoder::new(std::io::Cursor::new(data)) {
        Ok(d) => Some(image::AnimationDecoder::into_frames(d).take(limit).map(|f| match f {
            Ok(frame) => {
                let b = frame.into_buffer();
                Some(RgbaFrame { width: b.width(), height: b.height(), rgba: b.into_raw() })
            },
            Err(_) => None,
        }).collect()),
        Err(_) => None,
    }
}

/// The image that the `image` crate decodes from `data`, its format guessed
/// from the bytes, as (width, height, RGBA bytes); `None` when it cannot.
pub uninterp spec fn still_image(data: Seq<u8>) -> Option<(u32, u32, Seq<u8>)>;

/// Calls `image::ImageReader::new(..).with_guessed_format()`, `decode` and
/// `DynamicImage::to_rgba8`; claims only that the result depends on the bytes
/// alone (named `still_image`).
#[verifier::external_body]
fn decode_still_image(data: &[u8]) -> (r: Option<RgbaFrame>)
    ensures
        match r {
            Some(f) => still_image(data@) == Some(frame_view(f)),
            None => still_image(data@) is None,
        },
{
    match image::ImageReader::new(std::io::Cursor::new(data)).with_guessed_format() {
        Ok(reader) => match reader.decode() {
            Ok(img) => {
                let b = img.to_rgba8();
                Some(RgbaFrame { width: b.width(), height: b.height(), rgba: b.into_raw() })
            },
            Err(_) => None,
        },
        Err(_) => None,
    }
}

/// Frames read from a GIF at most.
pub const GIF_FRAME_LIMIT: usize = 200;

/// The frames that decoded, in order.
pub open spec fn decoded_ok(s: Seq<Option<(u32, u32, Seq<u8>)>>) -> Seq<(u32, u32, Seq<u8>)>
    decreases s.len(),
{
    if s.len() == 0 {
        seq![]
    } else {
        match s.last() {
            Some(f) => decoded_ok(s.drop_last()).push(f),
            None => decoded_ok(s.drop_last()),
        }
    }
}

/// The frames of a GIF that are rendered: of the first `GIF_FRAME_LIMIT`
/// frames, those that decoded, sampled as `sample_frame_indices` says;
/// `None` when the data is not a GIF.
pub open spec fn gif_render_frames(data: Seq<u8>) -> Option<Seq<(u32, u32, Seq<u8>)>> {
    match gif_frames(data, 200) {
        None => None,
        Some(all) => {
            let ok = decoded_ok(all);
            let n = if ok.len() <= 40 { ok.len() as int } else { 40 };
            Some(Seq::new(n as nat, |j: int| ok[j * frame_step(ok.len() as int)]))
        },
    }
}

fn copy_frame(f: &RgbaFrame) -> (r: RgbaFrame)
    ensures
        frame_view(r) == frame_view(*f),
{
    let rgba = f.rgba.clone();
    assert(rgba@ =~= f.rgba@);
    RgbaFrame { width: f.width, height: f.height, rgba: rgba }
}

/// The views of a sequence of frames.
pub open spec fn views_of(v: Seq<RgbaFrame>) -> Seq<(u32, u32, Seq<u8>)> {
    Seq::new(v.len(), |j: int| frame_view(v[j]))
}

/// Decodes a GIF and keeps the frames to render.
pub fn gif_frames_to_render(data: &[u8]) -> (r: Option<Vec<RgbaFrame>>)
    ensures
        match r {
            Some(v) => gif_render_frames(data@) == Some(views_of(v@)),
            None => gif_render_frames(data@) is None,
        },
{
    let all = match decode_gif_frames(data, GIF_FRAME_LIMIT) {
        Some(v) => v,
        None => return None,
    };
    let ghost all_view = frames_view(all@);
    let mut ok: Vec<RgbaFrame> = Vec::new();
    let mut i: usize = 0;
    while i < all.len()
        invariant
            all_view == frames_view(all@),
            i <= all@.len(),
            views_of(ok@) == decoded_ok(all_view.take(i as int)),
        decreases all@.len() - i,
    {
        assert(all_view.take(i + 1).drop_last() =~= all_view.take(i as int));
        assert(all_view.take(i + 1).last() == all_view[i as int]);
        let ghost before = views_of(ok@);
        match &all[i] {
            Some(fr) => {
                let c = copy_frame(fr);
                ok.push(c);
                assert(views_of(ok@) =~= before.push(frame_view(*fr)));
            },
            None => {},
        }
        i = i + 1;
    }
    assert(all_view.take(all@.len() as int) =~= all_view);
    let ghost okv = views_of(ok@);
    let keep = sample_frame_indices(ok.len());
    let mut out: Vec<RgbaFrame> = Vec::new();
    let mut j: usize = 0;
    while j < keep.len()
        invariant
            j <= keep@.len(),
            okv == views_of(ok@),
            keep@.len() == (if okv.len() <= 40 { okv.len() as int } else { 40 }),
            forall|t: int| 0 <= t < keep@.len() ==> (#[trigger] keep@[t]) < okv.len() && keep@[t] as int == t * frame_step(okv.len() as int),
            out@.len() == j,
            forall|t: int| 0 <= t < j ==> frame_view(#[trigger] out@[t]) == okv[t * frame_step(okv.len() as int)],
        decreases keep@.len() - j,
    {
        let k = keep[j];
        let c = copy_frame(&ok[k]);
        out.push(c);
        j = j + 1;
    }
    proof {
        let n2: int = if okv.len() <= 40 { okv.len() as int } else { 40 };
        assert(views_of(out@) =~= Seq::new(n2 as nat, |t: int| okv[t * frame_step(okv.len() as int)]));
    }
    Some(out)
}

/// Decodes a still image (a character portrait).
pub fn still_image_frame(data: &[u8]) -> (r: Option<RgbaFrame>)
    ensures
        match r {
            Some(f) => still_image(data@) == Some(frame_view(f)),
            None => still_image(data@) is None,
        },
{
    decode_still_image(data)
}

/// A search result is worth downloading: its address is not used by an
/// earlier pull and its title is relevant.
pub open spec fn wanted(res: GifResult, used: Seq<String>, character_name: Seq<char>, anime_title: Seq<char>) -> bool {
    !string_texts(used).contains(res.url@) && relevant(res.title@, character_name, anime_title)
}

/// The search for a pull's frames: the GIF queries in order, the results
/// of the query under way, and the next result to look at; when every
/// query is used up, the character's portrait.
#[derive(Debug)]
pub struct FrameSearch {
    pub queries: Vec<String>,
    /// The query under way.
    pub query: usize,
    /// The results of the query under way, once searched.
    pub results: Vec<GifResult>,
    pub searched: bool,
    /// The next result of the query under way to look at.
    pub result: usize,
    /// A GIF with frames, found.
    pub found: Option<PipelineResult>,
    pub done: bool,
}

/// What the caller does next.
#[derive(Debug)]
pub enum FrameStep {
    /// Search GIFs (10 results) for the query with this index.
    Search(usize),
    /// Download and decode the GIF of this result of this query.
    Download { query: usize, result: usize },
    /// Look up the character's portrait; `portrait` gives the outcome.
    Portrait,
    /// The search is over.
    Finished(Result<PipelineResult, String>),
}

/// The well-formedness of a frame search.
pub open spec fn frame_search_wf(s: FrameSearch) -> bool {
    &&& s.query <= s.queries@.len()
    &&& s.result <= s.results@.len()
    &&& s.searched ==> s.query < s.queries@.len()
    &&& (s.found matches Some(p) ==> p.frames@.len() >= 1 && s.done)
}

impl FrameSearch {
    /// A search over the queries built from the model's query, the names
    /// and the scene.
    pub fn new(search_query: &str, character_name: &str, anime_title: &str, scene: &str) -> (r: Self)
        ensures
            string_texts(r.queries@) == search_queries(search_query@, character_name@, anime_title@, scene@),
            r.query == 0,
            !r.searched,
            r.results@.len() == 0,
            r.result == 0,
            r.found is None,
            !r.done,
            frame_search_wf(r),
    {
        FrameSearch {
            queries: build_queries(search_query, character_name, anime_title, scene),
            query: 0,
            results: Vec::new(),
            searched: false,
            result: 0,
            found: None,
            done: false,
        }
    }

    /// The next step.  A GIF found earlier ends the search with it.  With
    /// queries left but no GIF service key, the search fails with
    /// "klipy_api_key not set".  A query not yet searched is searched; of
    /// a searched query, the first result from `result` on that is wanted
    /// (unused address, relevant title) is downloaded, and when none is,
    /// the search moves to the next query.  After the last query comes the
    /// portrait, and after that the search is over.
    pub fn next_step(&mut self, klipy_api_key: Option<&str>, used_urls: &Vec<String>, character_name: &str, anime_title: &str) -> (step: FrameStep)
        requires
            frame_search_wf(*old(self)),
        ensures
            frame_search_wf(*final(self)),
            final(self).queries == old(self).queries,
            match step {
                FrameStep::Finished(r) => {
                    &&& final(self).done
                    &&& final(self).found is None
                    &&& match old(self).found {
                        Some(p) => r == Ok::<PipelineResult, String>(p),
                        None => r matches Err(e) && (
                            if !old(self).done && old(self).query < old(self).queries@.len() && klipy_api_key is None {
                                e@ == "klipy_api_key not set"@
                            } else {
                                e@ == "no images found from any source"@ && old(self).done
                            }),
                    }
                },
                FrameStep::Search(q) => {
                    &&& !old(self).done && klipy_api_key is Some
                    &&& q == final(self).query && q < old(self).queries@.len()
                    &&& !final(self).searched
                    &&& (q == old(self).query ==> !old(self).searched)
                    &&& (q != old(self).query ==> q == old(self).query + 1 && old(self).searched
                        && forall|j: int| old(self).result <= j < old(self).results@.len()
                            ==> !wanted(#[trigger] old(self).results@[j], used_urls@, character_name@, anime_title@))
                    &&& final(self).found == old(self).found
                    &&& !final(self).done
                },
                FrameStep::Download { query, result } => {
                    &&& !old(self).done && klipy_api_key is Some && old(self).searched
                    &&& query == old(self).query && query == final(self).query
                    &&& old(self).result <= result < old(self).results@.len()
                    &&& wanted(old(self).results@[result as int], used_urls@, character_name@, anime_title@)
                    &&& forall|j: int| old(self).result <= j < result
                        ==> !wanted(#[trigger] old(self).results@[j], used_urls@, character_name@, anime_title@)
                    &&& final(self).results == old(self).results
                    &&& final(self).searched
                    &&& final(self).result == result
                    &&& final(self).found == old(self).found
                    &&& !final(self).done
                },
                FrameStep::Portrait => {
                    &&& !old(self).done && old(self).found is None
                    &&& (old(self).query < old(self).queries@.len() ==> klipy_api_key is Some)
                    &&& (old(self).query < old(self).queries@.len() ==> old(self).query + 1 == old(self).queries@.len()
                        && old(self).searched
                        && forall|j: int| old(self).result <= j < old(self).results@.len()
                            ==> !wanted(#[trigger] old(self).results@[j], used_urls@, character_name@, anime_title@))
                    &&& final(self).query == old(self).queries@.len()
                    &&& final(self).done
                    &&& final(self).found is None
                },
            },
    {
        if self.done || self.found.is_some() {
            self.done = true;
            let f = self.found.take();
            return match f {
                Some(p) => FrameStep::Finished(Ok(p)),
                None => FrameStep::Finished(Err("no images found from any source".to_owned())),
            };
        }
        if self.query < self.queries.len() {
            if klipy_api_key.is_none() {
                self.done = true;
                return FrameStep::Finished(Err("klipy_api_key not set".to_owned()));
            }
            if !self.searched {
                return FrameStep::Search(self.query);
            }
            let mut j: usize = self.result;
            while j < self.results.len()
                invariant
                    *self == *old(self),
                    klipy_api_key is Some,
                    frame_search_wf(*self),
                    self.searched,
                    !self.done,
                    self.found is None,
                    self.result <= j <= self.results@.len(),
                    forall|t: int| self.result <= t < j ==> !wanted(#[trigger] self.results@[t], used_urls@, character_name@, anime_title@),
                decreases self.results@.len() - j,
            {
                if wanted_result(self.results[j].url.as_str(), self.results[j].title.as_str(), used_urls, character_name, anime_title) {
                    let q = self.query;
                    self.result = j;
                    return FrameStep::Download { query: q, result: j };
                }
                j = j + 1;
            }
            self.query = self.query + 1;
            self.searched = false;
            self.results = Vec::new();
            self.result = 0;
            if self.query < self.queries.len() {
                return FrameStep::Search(self.query);
            }
        }
        self.query = self.queries.len();
        self.done = true;
        FrameStep::Portrait
    }

    /// The results of searching the query under way.
    pub fn searched(&mut self, results: Vec<GifResult>)
        requires
            frame_search_wf(*old(self)),
            old(self).query < old(self).queries@.len(),
        ensures
            frame_search_wf(*final(self)),
            final(self).results == results,
            final(self).searched,
            final(self).result == 0,
            final(self).query == old(self).query,
            final(self).queries == old(self).queries,
            final(self).found == old(self).found,
            final(self).done == old(self).done,
    {
        self.results = results;
        self.searched = true;
        self.result = 0;
    }

    /// The outcome of downloading and decoding the GIF of the current
    /// result.  A GIF with at least one frame is found: it ends the search,
    /// marked as from "klipy", with the result's address and the query.
    /// Otherwise the search goes on with the next result.
    pub fn decoded(&mut self, gif: Option<PipelineResult>)
        requires
            frame_search_wf(*old(self)),
            old(self).searched,
            old(self).result < old(self).results@.len(),
            !old(self).done,
        ensures
            frame_search_wf(*final(self)),
            final(self).queries == old(self).queries,
            final(self).query == old(self).query,
            final(self).results == old(self).results,
            final(self).searched,
            match gif {
                Some(p) => if p.frames@.len() >= 1 {
                    &&& final(self).found matches Some(f) && f.frames == p.frames && f.cols == p.cols && f.rows == p.rows
                        && f.source@ == "klipy"@
                        && f.source_url@ == old(self).results@[old(self).result as int].url@
                        && f.matched_query@ == old(self).queries@[old(self).query as int]@
                    &&& final(self).done
                } else {
                    &&& final(self).found == old(self).found
                    &&& final(self).result == old(self).result + 1
                    &&& final(self).done == old(self).done
                },
                None => {
                    &&& final(self).found == old(self).found
                    &&& final(self).result == old(self).result + 1
                    &&& final(self).done == old(self).done
                },
            },
    {
        let n = self.results.len();
        assert(self.result < n);
        match gif {
            Some(p) => {
                if p.frames.len() >= 1 {
                    let mut p = p;
                    p.source = "klipy".to_owned();
                    p.source_url = self.results[self.result].url.clone();
                    p.matched_query = self.queries[self.query].clone();
                    self.found = Some(p);
                    self.done = true;
                } else {
                    self.result = self.result + 1;
                }
            },
            None => {
                self.result = self.result + 1;
            },
        }
    }
}

/// There is an address, and no earlier pull used it.
pub open spec fn unused_url(url: Option<String>, used: Seq<String>) -> bool {
    match url {
        Some(u) => !string_texts(used).contains(u@),
        None => false,
    }
}

/// Whether the portrait at `url` is worth downloading: there is one and it
/// is not used by an earlier pull.
pub fn portrait_wanted(url: &Option<String>, used_urls: &Vec<String>) -> (r: bool)
    ensures
        r == unused_url(*url, used_urls@),
{
    match url {
        Some(u) => !used_before(u.as_str(), used_urls),
        None => false,
    }
}

/// Whether an earlier pull used the address `url`.
fn used_before(url: &str, used_urls: &Vec<String>) -> (r: bool)
    ensures
        r == string_texts(used_urls@).contains(url@),
{
    let uc = chars_of(url);
    let mut i: usize = 0;
    while i < used_urls.len()
        invariant
            uc@ == url@,
            i <= used_urls.len(),
            forall|k: int| 0 <= k < i ==> string_texts(used_urls@)[k] != url@,
        decreases used_urls.len() - i,
    {
        if crate::text::chars_eq(&chars_of(used_urls[i].as_str()), &uc) {
            assert(string_texts(used_urls@)[i as int] == url@);
            return true;
        }
        i = i + 1;
    }
    false
}

/// The outcome of the portrait fallback: one frame, marked as from
/// "jikan", when there is an unused portrait address and its image was
/// rendered; otherwise "no images found from any source".
pub fn portrait(url: Option<String>, frame: Option<AsciiFrame>, used_urls: &Vec<String>, cols: u32, character_name: &str) -> (r: Result<PipelineResult, String>)
    ensures
        match r {
            Ok(p) => {
                &&& unused_url(url, used_urls@)
                &&& Some(p.source_url) == url
                &&& frame is Some
                &&& p.frames@ == seq![frame->0]
                &&& p.cols == cols
                &&& p.rows == 0
                &&& p.source@ == "jikan"@
                &&& p.matched_query@ == character_name@
            },
            Err(e) => e@ == "no images found from any source"@ && !(unused_url(url, used_urls@) && frame is Some),
        },
{
    if portrait_wanted(&url, used_urls) {
        match (url, frame) {
            (Some(u), Some(f)) => {
                let mut frames: Vec<AsciiFrame> = Vec::new();
                frames.push(f);
                return Ok(PipelineResult {
                    frames: frames,
                    cols: cols,
                    rows: 0,
                    source: "jikan".to_owned(),
                    source_url: u,
                    matched_query: character_name.to_owned(),
                });
            },
            _ => {},
        }
    }
    Err("no images found from any source".to_owned())
}

} // verus!
