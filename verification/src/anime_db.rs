use vstd::prelude::*;

use crate::gacha::{Rarity, tier_level};
use crate::text::{append_chars, chars_of, decimal, decimal_chars, string_of};

verus! {

/// One anime of the popularity list.
#[derive(Debug)]
pub struct AnimeEntry {
    pub mal_id: u64,
    pub title: String,
    pub members: u64,
    /// 1 = most popular.
    pub popularity_rank: u32,
}

/// The popularity list and the day it was fetched.
#[derive(Debug)]
pub struct AnimeDb {
    pub anime: Vec<AnimeEntry>,
    pub fetched_at: String,
}

/// Tier of an anime by popularity rank (1 = most popular):
/// ranks 1-25 Legendary, 26-100 Epic, 101-300 Rare, 301-600 Uncommon,
/// everything else (rank 0 and ranks above 600) Common.
pub open spec fn rarity_of_rank(rank: u32) -> Rarity {
    if 1 <= rank <= 25 {
        Rarity::Legendary
    } else if 26 <= rank <= 100 {
        Rarity::Epic
    } else if 101 <= rank <= 300 {
        Rarity::Rare
    } else if 301 <= rank <= 600 {
        Rarity::Uncommon
    } else {
        Rarity::Common
    }
}

/// Map a popularity rank to its rarity tier.
pub fn rank_to_rarity(rank: u32) -> (r: Rarity)
    ensures
        r == rarity_of_rank(rank),
{
    if 1 <= rank && rank <= 25 {
        Rarity::Legendary
    } else if 26 <= rank && rank <= 100 {
        Rarity::Epic
    } else if 101 <= rank && rank <= 300 {
        Rarity::Rare
    } else if 301 <= rank && rank <= 600 {
        Rarity::Uncommon
    } else {
        Rarity::Common
    }
}

/// A more popular anime (smaller rank, counting from 1) is never in a
/// commoner tier than a less popular one.
pub proof fn lemma_rarity_monotone(a: u32, b: u32)
    requires
        1 <= a <= b,
    ensures
        tier_level(rarity_of_rank(a)) >= tier_level(rarity_of_rank(b)),
{
}

/// Positions of the entries of `s` whose rank falls in tier `r`, in order.
pub open spec fn tier_positions(s: Seq<AnimeEntry>, r: Rarity) -> Seq<int>
    decreases s.len(),
{
    if s.len() == 0 {
        seq![]
    } else {
        let p = tier_positions(s.drop_last(), r);
        if rarity_of_rank(s.last().popularity_rank) == r {
            p.push(s.len() - 1)
        } else {
            p
        }
    }
}

/// Position of the anime `pick_anime` chooses: entry number `seed mod n` of
/// the `n` entries of the tier, or the last (least popular) entry of the
/// list when the tier has none; none for an empty list.
pub open spec fn picked_position(s: Seq<AnimeEntry>, r: Rarity, seed: u64) -> Option<int> {
    let m = tier_positions(s, r);
    if m.len() == 0 {
        if s.len() == 0 {
            None
        } else {
            Some(s.len() - 1)
        }
    } else {
        Some(m[((seed as usize) as int) % (m.len() as int)])
    }
}

/// Position in the list of the anime to pull for a tier and seed.
pub fn pick_anime_index(db: &AnimeDb, rarity: &Rarity, seed: u64) -> (r: Option<usize>)
    ensures
        match r {
            Some(i) => picked_position(db.anime@, *rarity, seed) == Some(i as int) && i < db.anime.len(),
            None => picked_position(db.anime@, *rarity, seed) is None,
        },
{
    let mut idx: Vec<usize> = Vec::new();
    let mut i: usize = 0;
    while i < db.anime.len()
        invariant
            i <= db.anime.len(),
            idx@.len() == tier_positions(db.anime@.take(i as int), *rarity).len(),
            forall|k: int| 0 <= k < idx@.len() ==> (#[trigger] idx@[k]) < i
                && idx@[k] as int == tier_positions(db.anime@.take(i as int), *rarity)[k],
        decreases db.anime.len() - i,
    {
        assert(db.anime@.take(i + 1).drop_last() == db.anime@.take(i as int));
        if rank_to_rarity(db.anime[i].popularity_rank) == *rarity {
            idx.push(i);
        }
        i = i + 1;
    }
    assert(db.anime@.take(db.anime.len() as int) == db.anime@);
    if idx.len() == 0 {
        if db.anime.len() == 0 {
            return None;
        }
        return Some(db.anime.len() - 1);
    }
    let j = (seed as usize) % idx.len();
    Some(idx[j])
}

/// Pick an anime of the given tier, the choice among them fixed by `seed`.
pub fn pick_anime<'a>(db: &'a AnimeDb, rarity: &Rarity, seed: u64) -> (r: Option<&'a AnimeEntry>)
    ensures
        match r {
            Some(e) => exists|i: int| picked_position(db.anime@, *rarity, seed) == Some(i) && 0 <= i < db.anime@.len() && *e == db.anime@[i],
            None => picked_position(db.anime@, *rarity, seed) is None,
        },
{
    match pick_anime_index(db, rarity, seed) {
        Some(i) => Some(&db.anime[i]),
        None => None,
    }
}

/// Every position of `tier_positions(s, r)` is in the list and holds an
/// anime of tier `r`.
pub proof fn lemma_tier_positions(s: Seq<AnimeEntry>, r: Rarity)
    ensures
        forall|k: int| 0 <= k < tier_positions(s, r).len() ==> 0 <= #[trigger] tier_positions(s, r)[k] < s.len()
            && rarity_of_rank(s[tier_positions(s, r)[k]].popularity_rank) == r,
    decreases s.len(),
{
    if s.len() > 0 {
        lemma_tier_positions(s.drop_last(), r);
    }
}

proof fn lemma_tier_nonempty(s: Seq<AnimeEntry>, r: Rarity)
    requires
        exists|i: int| 0 <= i < s.len() && rarity_of_rank(s[i].popularity_rank) == r,
    ensures
        tier_positions(s, r).len() > 0,
    decreases s.len(),
{
    let i = choose|i: int| 0 <= i < s.len() && rarity_of_rank(s[i].popularity_rank) == r;
    if i < s.len() - 1 {
        assert(s.drop_last()[i] == s[i]);
        lemma_tier_nonempty(s.drop_last(), r);
    }
}

/// When the list holds an anime of the requested tier, the pick is one of
/// them.
pub proof fn lemma_pick_in_tier(s: Seq<AnimeEntry>, r: Rarity, seed: u64)
    requires
        exists|i: int| 0 <= i < s.len() && rarity_of_rank(s[i].popularity_rank) == r,
    ensures
        picked_position(s, r, seed) matches Some(i) && 0 <= i < s.len() && rarity_of_rank(s[i].popularity_rank) == r,
{
    lemma_tier_positions(s, r);
    lemma_tier_nonempty(s, r);
    let m = tier_positions(s, r);
    let k = ((seed as usize) as int) % (m.len() as int);
    assert(0 <= k < m.len());
}

proof fn lemma_tier_positions_increasing(s: Seq<AnimeEntry>, r: Rarity)
    ensures
        forall|a: int, b: int| 0 <= a < b < tier_positions(s, r).len()
            ==> tier_positions(s, r)[a] < tier_positions(s, r)[b],
    decreases s.len(),
{
    if s.len() > 0 {
        lemma_tier_positions_increasing(s.drop_last(), r);
        lemma_tier_positions(s.drop_last(), r);
    }
}

proof fn lemma_tier_positions_complete(s: Seq<AnimeEntry>, r: Rarity, i: int)
    requires
        0 <= i < s.len(),
        rarity_of_rank(s[i].popularity_rank) == r,
    ensures
        exists|k: int| 0 <= k < tier_positions(s, r).len() && tier_positions(s, r)[k] == i,
    decreases s.len(),
{
    let m = tier_positions(s, r);
    if i == s.len() - 1 {
        assert(m[m.len() - 1] == i);
    } else {
        assert(s.drop_last()[i] == s[i]);
        lemma_tier_positions_complete(s.drop_last(), r, i);
        let p = tier_positions(s.drop_last(), r);
        let k = choose|k: int| 0 <= k < p.len() && p[k] == i;
        assert(m[k] == p[k]);
    }
}

/// The anime of a tier are picked in turn as the seed grows: the seeds `seed`
/// and `seed + n` pick the same anime, `n` being the number of anime of the
/// tier.
pub proof fn lemma_pick_periodic(s: Seq<AnimeEntry>, r: Rarity, seed: u64)
    requires
        tier_positions(s, r).len() >= 1,
        seed + tier_positions(s, r).len() <= u64::MAX,
        seed + tier_positions(s, r).len() <= usize::MAX,
    ensures
        picked_position(s, r, seed) == picked_position(s, r, (seed + tier_positions(s, r).len()) as u64),
{
    let n = tier_positions(s, r).len() as int;
    let t = (seed + n) as u64;
    assert((seed as usize) as int == seed);
    assert((t as usize) as int == seed + n);
    let x = seed as int;
    assert((x + n) % n == x % n) by (nonlinear_arith)
        requires
            n >= 1,
            x >= 0,
    {
        vstd::arithmetic::div_mod::lemma_mod_add_multiples_vanish(x, n);
    }
}

/// Every anime of a tier is picked by some seed below the number `n` of
/// anime of the tier.
pub proof fn lemma_pick_covers(s: Seq<AnimeEntry>, r: Rarity, i: int)
    requires
        0 <= i < s.len(),
        s.len() <= usize::MAX,
        rarity_of_rank(s[i].popularity_rank) == r,
    ensures
        exists|seed: u64| seed < tier_positions(s, r).len() && #[trigger] picked_position(s, r, seed) == Some(i),
{
    let m = tier_positions(s, r);
    lemma_tier_positions_complete(s, r, i);
    lemma_tier_positions(s, r);
    let k = choose|k: int| 0 <= k < m.len() && m[k] == i;
    assert(m.len() <= s.len()) by {
        lemma_tier_positions_increasing(s, r);
        lemma_tier_len(s, r);
    }
    let seed = k as u64;
    assert((seed as usize) as int == k);
    assert(k % (m.len() as int) == k) by (nonlinear_arith)
        requires
            0 <= k < m.len(),
    {
    }
    assert(picked_position(s, r, seed) == Some(i));
}

proof fn lemma_tier_len(s: Seq<AnimeEntry>, r: Rarity)
    ensures
        tier_positions(s, r).len() <= s.len(),
    decreases s.len(),
{
    if s.len() > 0 {
        lemma_tier_len(s.drop_last(), r);
    }
}

/// Seeds below the number `n` of anime of a tier pick its anime in list
/// order: a smaller seed picks an anime nearer the top of the list.
pub proof fn lemma_pick_in_order(s: Seq<AnimeEntry>, r: Rarity, a: u64, b: u64)
    requires
        a < b < tier_positions(s, r).len(),
        b <= usize::MAX,
    ensures
        picked_position(s, r, a) matches Some(x) && picked_position(s, r, b) matches Some(y) && x < y,
{
    let m = tier_positions(s, r);
    lemma_tier_positions_increasing(s, r);
    assert((a as usize) as int == a);
    assert((b as usize) as int == b);
    assert(a as int % (m.len() as int) == a) by (nonlinear_arith)
        requires
            0 <= a < m.len(),
    {
    }
    assert(b as int % (m.len() as int) == b) by (nonlinear_arith)
        requires
            0 <= b < m.len(),
    {
    }
    assert(m[a as int] < m[b as int]);
}

/// Different entries of a tier are different positions of the list.
pub proof fn lemma_tier_order(s: Seq<AnimeEntry>, r: Rarity, a: int, b: int)
    requires
        0 <= a < tier_positions(s, r).len(),
        0 <= b < tier_positions(s, r).len(),
        a != b,
    ensures
        tier_positions(s, r)[a] != tier_positions(s, r)[b],
{
    lemma_tier_positions_increasing(s, r);
}

proof fn lemma_tier_empty(s: Seq<AnimeEntry>, r: Rarity)
    requires
        forall|i: int| 0 <= i < s.len() ==> rarity_of_rank(#[trigger] s[i].popularity_rank) != r,
    ensures
        tier_positions(s, r).len() == 0,
    decreases s.len(),
{
    if s.len() > 0 {
        assert(rarity_of_rank(s[s.len() - 1].popularity_rank) != r);
        assert forall|i: int| 0 <= i < s.drop_last().len() implies rarity_of_rank(#[trigger] s.drop_last()[i].popularity_rank) != r by {
            assert(s.drop_last()[i] == s[i]);
        }
        lemma_tier_empty(s.drop_last(), r);
    }
}

/// When no anime of the list is of the asked tier, whatever the seed, the
/// pick is the last (least popular) anime of the list, and there is none for
/// an empty list.
pub proof fn lemma_pick_without_tier(s: Seq<AnimeEntry>, r: Rarity, seed: u64)
    requires
        forall|i: int| 0 <= i < s.len() ==> rarity_of_rank(#[trigger] s[i].popularity_rank) != r,
    ensures
        s.len() == 0 ==> picked_position(s, r, seed) is None,
        s.len() > 0 ==> picked_position(s, r, seed) == Some(s.len() - 1),
{
    lemma_tier_empty(s, r);
}

/// Days a cached list stays in use.
pub const CACHE_DAYS: i64 = 14;

/// The day number (days from the start of the common era, 0001-01-01 being
/// day 1) of a `YYYY-MM-DD` date, none when the text is not such a date.
pub uninterp spec fn ymd_day_number(s: Seq<char>) -> Option<int>;

/// Calls `chrono::NaiveDate::parse_from_str(s, "%Y-%m-%d")` and, on success,
/// `Datelike::num_days_from_ce`; claims only that the result depends on the
/// text alone (named `ymd_day_number`).
#[verifier::external_body]
fn day_number(s: &str) -> (r: Option<i32>)
    ensures
        match r {
            Some(d) => ymd_day_number(s@) == Some(d as int),
            None => ymd_day_number(s@) is None,
        },
{
    match chrono::NaiveDate::parse_from_str(s, "%Y-%m-%d") {
        Ok(d) => Some(chrono::Datelike::num_days_from_ce(&d)),
        Err(_) => None,
    }
}

/// Whether a list fetched on `fetched_at` is still fresh on `today`:
/// both are dates and fewer than `CACHE_DAYS` days lie between them.
pub open spec fn cache_is_fresh(fetched_at: Seq<char>, today: Seq<char>) -> bool {
    match (ymd_day_number(fetched_at), ymd_day_number(today)) {
        (Some(f), Some(t)) => t - f < CACHE_DAYS,
        _ => false,
    }
}

/// Whether the cached list can be used instead of fetching a new one.
pub fn cache_fresh(fetched_at: &str, today: &str) -> (r: bool)
    ensures
        r == cache_is_fresh(fetched_at@, today@),
{
    match (day_number(fetched_at), day_number(today)) {
        (Some(f), Some(t)) => (t as i64) - (f as i64) < CACHE_DAYS,
        _ => false,
    }
}

/// Pages of the popularity list fetched at most (25 anime each).
pub const PAGES_TO_FETCH: u32 = 40;

/// The address of page `page` (counting from 1) of the list of TV anime by
/// popularity, 25 to a page.
pub fn top_page_url(page: u32) -> (r: String)
    ensures
        r@ == "https://api.jikan.moe/v4/top/anime?type=tv&filter=bypopularity&limit=25&page="@
            + decimal(page as nat),
{
    let mut u = chars_of("https://api.jikan.moe/v4/top/anime?type=tv&filter=bypopularity&limit=25&page=");
    append_chars(&mut u, &decimal_chars(page as u64));
    string_of(&u)
}

/// One anime as a page of the popularity list gives it.
#[derive(Debug)]
pub struct ListedAnime {
    pub mal_id: u64,
    pub title: String,
    pub members: u64,
}

/// Each entry's rank is its position in the list, counting from 1.
pub open spec fn ranked_by_position(s: Seq<AnimeEntry>) -> bool {
    forall|i: int| 0 <= i < s.len() ==> (#[trigger] s[i]).popularity_rank == i + 1
}

/// Entry `e` is the listed anime `l` with rank `rank`.
pub open spec fn entry_of(e: AnimeEntry, l: ListedAnime, rank: int) -> bool {
    &&& e.mal_id == l.mal_id
    &&& e.title@ == l.title@
    &&& e.members == l.members
    &&& e.popularity_rank == rank
}

/// The popularity list being fetched page by page.  The caller fetches
/// the address `next_url` gives, hands the page to `page_fetched`, and
/// waits a little before the next page, until `next_url` gives none.
#[derive(Debug)]
pub struct TopListFetch {
    /// Pages fetched so far.
    pub pages: u32,
    /// The list so far.
    pub entries: Vec<AnimeEntry>,
    /// The last page said that another follows.
    pub more: bool,
}

impl TopListFetch {
    /// Nothing fetched yet.
    pub fn new() -> (r: Self)
        ensures
            r.pages == 0,
            r.entries@.len() == 0,
            r.more,
            ranked_by_position(r.entries@),
    {
        TopListFetch { pages: 0, entries: Vec::new(), more: true }
    }

    /// The page to fetch next: the one after the last, while the last said
    /// that another follows and fewer than `PAGES_TO_FETCH` were fetched.
    pub fn next_url(&self) -> (r: Option<String>)
        ensures
            match r {
                Some(u) => self.more && self.pages < PAGES_TO_FETCH
                    && u@ == "https://api.jikan.moe/v4/top/anime?type=tv&filter=bypopularity&limit=25&page="@
                        + decimal(self.pages as nat + 1),
                None => !self.more || self.pages >= PAGES_TO_FETCH,
            },
    {
        if self.more && self.pages < PAGES_TO_FETCH {
            Some(top_page_url(self.pages + 1))
        } else {
            None
        }
    }

    /// A page arrived: its anime join the list in order, each ranked by
    /// its position in the whole list.
    pub fn page_fetched(&mut self, listed: &Vec<ListedAnime>, has_next: bool)
        requires
            old(self).pages < PAGES_TO_FETCH,
            old(self).entries@.len() + listed@.len() < u32::MAX,
        ensures
            final(self).pages == old(self).pages + 1,
            final(self).more == has_next,
            final(self).entries@.len() == old(self).entries@.len() + listed@.len(),
            forall|i: int| 0 <= i < old(self).entries@.len() ==> final(self).entries@[i] == old(self).entries@[i],
            forall|j: int| 0 <= j < listed@.len() ==> entry_of(
                #[trigger] final(self).entries@[old(self).entries@.len() + j],
                listed@[j],
                old(self).entries@.len() + j + 1,
            ),
            ranked_by_position(old(self).entries@) ==> ranked_by_position(final(self).entries@),
    {
        let n0 = self.entries.len();
        let mut j: usize = 0;
        while j < listed.len()
            invariant
                j <= listed@.len(),
                n0 == old(self).entries@.len(),
                n0 + listed@.len() < u32::MAX,
                self.entries@.len() == n0 + j,
                self.pages == old(self).pages,
                forall|i: int| 0 <= i < n0 ==> self.entries@[i] == old(self).entries@[i],
                forall|k: int| 0 <= k < j ==> entry_of(#[trigger] self.entries@[n0 + k], listed@[k], n0 + k + 1),
            decreases listed@.len() - j,
        {
            let rank = (self.entries.len() + 1) as u32;
            let l = &listed[j];
            self.entries.push(AnimeEntry { mal_id: l.mal_id, title: l.title.clone(), members: l.members, popularity_rank: rank });
            proof {
                assert(entry_of(self.entries@[n0 + j as int], listed@[j as int], n0 + j + 1));
            }
            j = j + 1;
        }
        self.pages = self.pages + 1;
        self.more = has_next;
        proof {
            if ranked_by_position(old(self).entries@) {
                assert forall|i: int| 0 <= i < self.entries@.len() implies (#[trigger] self.entries@[i]).popularity_rank == i + 1 by {
                    if i >= n0 {
                        assert(entry_of(self.entries@[n0 + (i - n0)], listed@[i - n0], n0 + (i - n0) + 1));
                    } else {
                        assert(self.entries@[i] == old(self).entries@[i]);
                    }
                }
            }
        }
    }

    /// The finished list, dated `fetched_at`.
    pub fn finish(self, fetched_at: String) -> (db: AnimeDb)
        ensures
            db.anime@ == self.entries@,
            db.fetched_at == fetched_at,
    {
        AnimeDb { anime: self.entries, fetched_at: fetched_at }
    }
}

} // verus!
