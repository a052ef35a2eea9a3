//! One gacha pull: which anime and which model answer to try next, which
//! result to keep, and the record written for it.  The caller does the
//! outside work (asking the model, fetching frames, waiting) and reports
//! back; these functions decide.

use vstd::prelude::*;

use crate::anime_db::{lemma_tier_order, pick_anime_index, picked_position, tier_positions, AnimeDb, AnimeEntry};
use crate::gacha::{label_of, Rarity};
use crate::image_pipeline::PipelineResult;
use crate::llm::CharacterSelection;
use crate::storage::PullMeta;
use crate::text::{append_chars, chars_of, decimal, decimal_chars, string_of};

verus! {

/// Anime tried per pull.
pub const ANIME_TRIES: u64 = 2;

/// Characters asked for per anime.
pub const CHARACTER_TRIES: u64 = 2;

/// A result worth keeping: the model's pick, its frames, and the position
/// of its anime in the list.
#[derive(Debug)]
pub struct PullFound {
    pub selection: CharacterSelection,
    pub pipeline: PipelineResult,
    pub anime_index: usize,
}

/// Where a pull stands.
#[derive(Debug)]
pub struct PullSearch {
    /// The anime try under way (0 or 1; 2 when all are used up).
    pub anime_try: u64,
    /// The character try under way for the current anime.
    pub char_try: u64,
    /// Model questions asked so far.
    pub llm_calls: u32,
    /// The result kept so far.
    pub found: Option<PullFound>,
    /// An animated result was found: the pull is over.
    pub done: bool,
    pub last_error: String,
}

/// What the caller does next.
#[derive(Debug)]
pub enum PullAction {
    /// Wait five seconds first when `cool_down`, then ask the model for a
    /// character of the anime at `anime_index`, showing it `total` as the
    /// day's keystroke total; then fetch frames for its answer.
    AskModel { anime_index: usize, total: u64, cool_down: bool },
    /// The pull is over, with the kept result or the last error.
    Finished(Result<PullFound, String>),
}

/// The seed of anime try `t`: the keystroke total plus `7 t`, wrapping.
pub open spec fn anime_seed(total: u64, t: u64) -> u64 {
    wrapped(total as int + 7 * t as int)
}

/// A sum taken modulo 2^64 (it is below 2^65).
pub open spec fn wrapped(x: int) -> u64 {
    if x > u64::MAX {
        (x - 0x1_0000_0000_0000_0000) as u64
    } else {
        x as u64
    }
}

/// The total shown to the model on character try `c`: plus `13 c`, wrapping.
pub open spec fn shown_total(total: u64, c: u64) -> u64 {
    wrapped(total as int + 13 * c as int)
}

/// The seed of anime try `t` is the keystroke total plus seven per try,
/// modulo 2^64.
pub proof fn lemma_anime_seed(total: u64, t: u64)
    requires
        t <= ANIME_TRIES,
    ensures
        anime_seed(total, t) as int == (total as int + 7 * t as int) % 0x1_0000_0000_0000_0000,
        t == 0 ==> anime_seed(total, t) == total,
{
    let x = total as int + 7 * t as int;
    if x > u64::MAX {
        assert(x % 0x1_0000_0000_0000_0000 == x - 0x1_0000_0000_0000_0000) by (nonlinear_arith)
            requires
                0x1_0000_0000_0000_0000 <= x < 2 * 0x1_0000_0000_0000_0000,
        {
        }
    } else {
        assert(x % 0x1_0000_0000_0000_0000 == x) by (nonlinear_arith)
            requires
                0 <= x < 0x1_0000_0000_0000_0000,
        {
        }
    }
}

/// The total shown on character try `c` is the keystroke total plus
/// thirteen per try, modulo 2^64.
pub proof fn lemma_shown_total(total: u64, c: u64)
    requires
        c <= CHARACTER_TRIES,
    ensures
        shown_total(total, c) as int == (total as int + 13 * c as int) % 0x1_0000_0000_0000_0000,
{
    let x = total as int + 13 * c as int;
    if x > u64::MAX {
        assert(x % 0x1_0000_0000_0000_0000 == x - 0x1_0000_0000_0000_0000) by (nonlinear_arith)
            requires
                0x1_0000_0000_0000_0000 <= x < 2 * 0x1_0000_0000_0000_0000,
        {
        }
    } else {
        assert(x % 0x1_0000_0000_0000_0000 == x) by (nonlinear_arith)
            requires
                0 <= x < 0x1_0000_0000_0000_0000,
        {
        }
    }
}

/// With more than seven anime in the tier (and no wrap-around of the
/// seed), the second anime try asks about another anime than the first.
pub proof fn lemma_second_try_differs(s: Seq<AnimeEntry>, r: Rarity, total: u64)
    requires
        tier_positions(s, r).len() > 7,
        total + 7 <= u64::MAX,
        total + 7 <= usize::MAX,
    ensures
        picked_position(s, r, anime_seed(total, 0)) != picked_position(s, r, anime_seed(total, 1)),
{
    let m = tier_positions(s, r);
    let n = m.len() as int;
    lemma_anime_seed(total, 0);
    lemma_anime_seed(total, 1);
    assert(anime_seed(total, 1) == total + 7);
    let a = total as int;
    assert((anime_seed(total, 0) as usize) as int == a);
    assert((anime_seed(total, 1) as usize) as int == a + 7);
    vstd::arithmetic::div_mod::lemma_mod_equivalence(a + 7, a, n);
    assert((a + 7) - a == 7);
    vstd::arithmetic::div_mod::lemma_small_mod(7, n as nat);
    assert(a % n != (a + 7) % n);
    vstd::arithmetic::div_mod::lemma_mod_bound(a, n);
    vstd::arithmetic::div_mod::lemma_mod_bound(a + 7, n);
    lemma_tier_order(s, r, a % n, (a + 7) % n);
}

/// Model questions the pull may still ask: the character tries left of
/// the anime tries left, none once the pull is over.
pub open spec fn questions_left(s: PullSearch) -> int {
    if s.done {
        0
    } else {
        (ANIME_TRIES - s.anime_try) * CHARACTER_TRIES - s.char_try
    }
}

/// Every result kept has at least one frame.
pub open spec fn kept_frames(s: PullSearch) -> bool {
    s.found matches Some(f) ==> f.pipeline.frames@.len() >= 1
}

/// A finished pull that succeeded has at least one frame.
pub open spec fn has_frames(r: Result<PullFound, String>) -> bool {
    match r {
        Ok(f) => f.pipeline.frames@.len() >= 1,
        Err(_) => true,
    }
}

impl PullSearch {
    /// A pull that has tried nothing yet.
    pub fn new() -> (r: Self)
        ensures
            r.anime_try == 0,
            r.char_try == 0,
            r.llm_calls == 0,
            r.found is None,
            !r.done,
            r.last_error@ == "no pulls succeeded"@,
            questions_left(r) == ANIME_TRIES * CHARACTER_TRIES,
            kept_frames(r),
    {
        PullSearch {
            anime_try: 0,
            char_try: 0,
            llm_calls: 0,
            found: None,
            done: false,
            last_error: "no pulls succeeded".to_owned(),
        }
    }

    /// The next step.  Unless the pull is over, this is a model question
    /// for the current try: the current anime try if it has an anime
    /// and a character try left, otherwise the first character try of the
    /// next anime try that has an anime.  When no try is left, or an
    /// animated result was found, the pull finishes with the kept result,
    /// or else the last error.
    pub fn next_action(&mut self, db: &AnimeDb, rarity: &Rarity, stats_total: u64) -> (a: PullAction)
        requires
            old(self).llm_calls < u32::MAX,
            old(self).anime_try <= ANIME_TRIES,
            old(self).char_try <= CHARACTER_TRIES,
        ensures
            match a {
                PullAction::AskModel { anime_index, total, cool_down } => {
                    &&& !old(self).done
                    &&& final(self).anime_try < ANIME_TRIES
                    &&& final(self).char_try < CHARACTER_TRIES
                    &&& old(self).anime_try <= final(self).anime_try
                    &&& (final(self).anime_try == old(self).anime_try ==> final(self).char_try == old(self).char_try)
                    &&& (final(self).anime_try != old(self).anime_try ==> final(self).char_try == 0)
                    &&& picked_position(db.anime@, *rarity, anime_seed(stats_total, final(self).anime_try)) == Some(anime_index as int)
                    &&& forall|t: u64| old(self).anime_try <= t < final(self).anime_try ==> (
                        (t == old(self).anime_try && old(self).char_try >= CHARACTER_TRIES)
                        || picked_position(db.anime@, *rarity, anime_seed(stats_total, t)) is None)
                    &&& total == shown_total(stats_total, final(self).char_try)
                    &&& cool_down == (old(self).llm_calls > 0)
                    &&& final(self).llm_calls == old(self).llm_calls + 1
                    &&& final(self).found == old(self).found
                    &&& final(self).last_error == old(self).last_error
                    &&& !final(self).done
                    &&& 1 <= questions_left(*final(self)) <= questions_left(*old(self))
                },
                PullAction::Finished(r) => {
                    &&& (old(self).done || forall|t: u64| old(self).anime_try <= t < ANIME_TRIES ==> (
                        (t == old(self).anime_try && old(self).char_try >= CHARACTER_TRIES)
                        || picked_position(db.anime@, *rarity, anime_seed(stats_total, t)) is None))
                    &&& match old(self).found {
                        Some(f) => r == Ok::<PullFound, String>(f),
                        None => r matches Err(e) && e@ == old(self).last_error@,
                    }
                    &&& final(self).found is None
                    &&& final(self).done
                    &&& (kept_frames(*old(self)) ==> has_frames(r))
                },
            },
            kept_frames(*old(self)) ==> kept_frames(*final(self)),
    {
        if !self.done {
            while self.anime_try < ANIME_TRIES
                invariant
                    old(self).anime_try <= self.anime_try <= ANIME_TRIES,
                    self.llm_calls == old(self).llm_calls,
                    self.llm_calls < u32::MAX,
                    self.found == old(self).found,
                    self.last_error == old(self).last_error,
                    self.done == old(self).done,
                    !self.done,
                    self.anime_try == old(self).anime_try ==> self.char_try == old(self).char_try,
                    self.anime_try != old(self).anime_try ==> self.char_try == 0,
                    self.char_try <= CHARACTER_TRIES,
                    questions_left(*self) <= questions_left(*old(self)),
                    forall|t: u64| old(self).anime_try <= t < self.anime_try ==> (
                        (t == old(self).anime_try && old(self).char_try >= CHARACTER_TRIES)
                        || picked_position(db.anime@, *rarity, anime_seed(stats_total, t)) is None),
                decreases ANIME_TRIES - self.anime_try,
            {
                if self.char_try < CHARACTER_TRIES {
                    let seed = stats_total.wrapping_add(self.anime_try * 7);
                    assert(seed == anime_seed(stats_total, self.anime_try));
                    match pick_anime_index(db, rarity, seed) {
                        Some(i) => {
                            let cool_down = self.llm_calls > 0;
                            self.llm_calls = self.llm_calls + 1;
                            let total = stats_total.wrapping_add(self.char_try * 13);
                            return PullAction::AskModel { anime_index: i, total: total, cool_down: cool_down };
                        },
                        None => {},
                    }
                }
                self.anime_try = self.anime_try + 1;
                self.char_try = 0;
            }
        }
        self.done = true;
        let found = self.found.take();
        match found {
            Some(f) => PullAction::Finished(Ok(f)),
            None => PullAction::Finished(Err(self.last_error.clone())),
        }
    }

    /// The model gave no usable answer: remember its error and go on to
    /// the next character try.
    pub fn model_failed(&mut self, error: String)
        requires
            old(self).anime_try < ANIME_TRIES,
            old(self).char_try < CHARACTER_TRIES,
        ensures
            final(self).last_error == error,
            final(self).char_try == old(self).char_try + 1,
            final(self).anime_try == old(self).anime_try,
            final(self).llm_calls == old(self).llm_calls,
            final(self).found == old(self).found,
            final(self).done == old(self).done,
            !old(self).done ==> questions_left(*final(self)) == questions_left(*old(self)) - 1,
            kept_frames(*old(self)) ==> kept_frames(*final(self)),
    {
        self.last_error = error;
        self.char_try = self.char_try + 1;
    }

    /// The frames fetched for the model's answer.  An animation (more than
    /// one frame) is kept and ends the pull; a still image is kept only
    /// when nothing is kept yet, and the search goes on; a failure, or a
    /// result without frames ("no frames found"), is remembered and the
    /// search goes on.
    pub fn frames_fetched(&mut self, selection: CharacterSelection, frames: Result<PipelineResult, String>, anime_index: usize)
        requires
            old(self).anime_try < ANIME_TRIES,
            old(self).char_try < CHARACTER_TRIES,
        ensures
            final(self).anime_try == old(self).anime_try,
            final(self).llm_calls == old(self).llm_calls,
            !old(self).done ==> questions_left(*final(self)) < questions_left(*old(self)),
            kept_frames(*old(self)) ==> kept_frames(*final(self)),
            match frames {
                Ok(p) => if p.frames@.len() == 0 {
                    &&& final(self).found == old(self).found
                    &&& final(self).done == old(self).done
                    &&& final(self).char_try == old(self).char_try + 1
                    &&& final(self).last_error@ == "no frames found"@
                } else if p.frames@.len() > 1 {
                    &&& final(self).found == Some(PullFound { selection: selection, pipeline: p, anime_index: anime_index })
                    &&& final(self).done
                    &&& final(self).char_try == old(self).char_try
                    &&& final(self).last_error == old(self).last_error
                } else {
                    &&& final(self).found == (if old(self).found is None { Some(PullFound { selection: selection, pipeline: p, anime_index: anime_index }) } else { old(self).found })
                    &&& final(self).done == old(self).done
                    &&& final(self).char_try == old(self).char_try + 1
                    &&& final(self).last_error@ == "only static image found"@
                },
                Err(e) => {
                    &&& final(self).found == old(self).found
                    &&& final(self).done == old(self).done
                    &&& final(self).char_try == old(self).char_try + 1
                    &&& final(self).last_error == e
                },
            },
    {
        match frames {
            Ok(p) => {
                if p.frames.len() == 0 {
                    self.last_error = "no frames found".to_owned();
                    self.char_try = self.char_try + 1;
                } else if p.frames.len() > 1 {
                    self.found = Some(PullFound { selection: selection, pipeline: p, anime_index: anime_index });
                    self.done = true;
                } else {
                    if self.found.is_none() {
                        self.found = Some(PullFound { selection: selection, pipeline: p, anime_index: anime_index });
                    }
                    self.last_error = "only static image found".to_owned();
                    self.char_try = self.char_try + 1;
                }
            },
            Err(e) => {
                self.last_error = e;
                self.char_try = self.char_try + 1;
            },
        }
    }
}

/// A number written with at least two digits, as `{:02}` writes it.
pub open spec fn two_digits(n: nat) -> Seq<char> {
    if n < 10 {
        seq!['0'] + decimal(n)
    } else {
        decimal(n)
    }
}

fn two_digit_chars(n: u32) -> (r: Vec<char>)
    ensures
        r@ == two_digits(n as nat),
{
    let d = decimal_chars(n as u64);
    if n < 10 {
        let mut r: Vec<char> = Vec::new();
        r.push('0');
        append_chars(&mut r, &d);
        r
    } else {
        d
    }
}

/// The key of a pull: the stats date, then hour and minute, `date-HHMM`.
pub open spec fn pull_key_text(date: Seq<char>, hour: nat, minute: nat) -> Seq<char> {
    date + "-"@ + two_digits(hour) + two_digits(minute)
}

/// The key a pull is stored under.
pub fn pull_key(date: &str, hour: u32, minute: u32) -> (r: String)
    ensures
        r@ == pull_key_text(date@, hour as nat, minute as nat),
{
    let mut k = chars_of(date);
    append_chars(&mut k, &chars_of("-"));
    append_chars(&mut k, &two_digit_chars(hour));
    append_chars(&mut k, &two_digit_chars(minute));
    string_of(&k)
}

/// Some text, unless it is empty.
pub open spec fn non_empty(t: Seq<char>) -> Option<Seq<char>> {
    if t.len() > 0 {
        Some(t)
    } else {
        None
    }
}

/// The view of an optional string.
pub open spec fn opt_view(o: Option<String>) -> Option<Seq<char>> {
    match o {
        Some(s) => Some(s@),
        None => None,
    }
}

fn non_empty_string(s: &String) -> (r: Option<String>)
    ensures
        opt_view(r) == non_empty(s@),
{
    if s.as_str().is_empty() {
        None
    } else {
        Some(s.clone())
    }
}

/// The record of a pull: keyed by date, hour and minute, with the model's
/// pick, the frames' source, the anime, the tier's name, "color" or
/// "mono", and the image address and query when there are.
pub fn pull_meta(stats_date: &str, hour: u32, minute: u32, found: &PullFound, anime: &AnimeEntry, rarity: &Rarity, color: bool) -> (m: PullMeta)
    ensures
        m.date@ == pull_key_text(stats_date@, hour as nat, minute as nat),
        m.character@ == found.selection.character@,
        m.scene@ == found.selection.scene@,
        m.rarity@ == label_of(*rarity),
        m.flavor_text@ == found.selection.flavor_text@,
        m.source@ == found.pipeline.source@,
        m.color_mode@ == (if color { "color"@ } else { "mono"@ }),
        m.frame_count == found.pipeline.frames@.len(),
        m.anime_title@ == anime.title@,
        m.anime_rank == anime.popularity_rank,
        opt_view(m.source_url) == non_empty(found.pipeline.source_url@),
        opt_view(m.search_query) == non_empty(found.pipeline.matched_query@),
{
    PullMeta {
        date: pull_key(stats_date, hour, minute),
        character: found.selection.character.clone(),
        scene: found.selection.scene.clone(),
        rarity: rarity.label().to_owned(),
        flavor_text: found.selection.flavor_text.clone(),
        source: found.pipeline.source.clone(),
        color_mode: if color { "color".to_owned() } else { "mono".to_owned() },
        frame_count: found.pipeline.frames.len(),
        anime_title: anime.title.clone(),
        anime_rank: anime.popularity_rank,
        source_url: non_empty_string(&found.pipeline.source_url),
        search_query: non_empty_string(&found.pipeline.matched_query),
    }
}

} // verus!
