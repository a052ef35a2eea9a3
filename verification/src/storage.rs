//! Pull records, the collection index, and where pulls are kept.

use vstd::prelude::*;

use crate::config::{join_path, path_join};
use crate::stats::{bump, distinct_keys, lemma_bump_distinct};
use crate::text::{append_chars, chars_eq, chars_of, contains, contains_sub, string_of};

verus! {

/// What is recorded of one pull.
#[derive(Debug)]
pub struct PullMeta {
    /// Date and time key of the pull, `YYYY-MM-DD-HHMM`.
    pub date: String,
    pub character: String,
    pub scene: String,
    pub rarity: String,
    pub flavor_text: String,
    pub source: String,
    pub color_mode: String,
    pub frame_count: usize,
    pub anime_title: String,
    /// Popularity rank of the anime at the time of the pull.
    pub anime_rank: u32,
    /// The original image URL.
    pub source_url: Option<String>,
    /// The query that found the image.
    pub search_query: Option<String>,
}

/// All pulls so far, and how often each character was pulled.
#[derive(Debug)]
pub struct Collection {
    pub pulls: Vec<PullMeta>,
    pub unique_characters: Vec<(String, u32)>,
}

impl Default for Collection {
    fn default() -> (r: Self)
        ensures
            r.pulls@.len() == 0,
            r.unique_characters@.len() == 0,
    {
        Collection { pulls: Vec::new(), unique_characters: Vec::new() }
    }
}

/// The character counts as texts with counts.
pub open spec fn char_tallies(v: Seq<(String, u32)>) -> Seq<(Seq<char>, int)> {
    Seq::new(v.len(), |i: int| (v[i].0@, v[i].1 as int))
}

/// Number of pulls of character `c`.
pub open spec fn pulls_of(pulls: Seq<PullMeta>, c: Seq<char>) -> int
    decreases pulls.len(),
{
    if pulls.len() == 0 {
        0
    } else {
        pulls_of(pulls.drop_last(), c) + if pulls.last().character@ == c { 1int } else { 0int }
    }
}

/// Whether the counts have an entry for `c`.
pub open spec fn has_entry(t: Seq<(Seq<char>, int)>, c: Seq<char>) -> bool {
    exists|i: int| 0 <= i < t.len() && t[i].0 == c
}

/// The character counts agree with the pulls: one entry per character,
/// holding the number of its pulls, and an entry for every pulled character.
pub open spec fn tallied(c: &Collection) -> bool {
    let t = char_tallies(c.unique_characters@);
    &&& distinct_keys(t)
    &&& forall|i: int| 0 <= i < t.len() ==> (#[trigger] t[i]).1 == pulls_of(c.pulls@, t[i].0)
    &&& forall|p: int| 0 <= p < c.pulls@.len() ==> has_entry(t, (#[trigger] c.pulls@[p]).character@)
}

/// The pulls directory inside the data directory.
pub fn pulls_dir(data_dir: &str) -> (r: String)
    ensures
        r@ == path_join(data_dir@, "pulls"@),
{
    join_path(data_dir, "pulls")
}

/// A file of one pull: `<data_dir>/pulls/<date>/<file_name>`.
pub fn pull_file(data_dir: &str, date: &str, file_name: &str) -> (r: String)
    ensures
        r@ == path_join(path_join(path_join(data_dir@, "pulls"@), date@), file_name@),
{
    let d = pulls_dir(data_dir);
    let p = join_path(d.as_str(), date);
    join_path(p.as_str(), file_name)
}

/// The label of a pull in the recent list: "character - scene".
pub open spec fn pull_label(p: PullMeta) -> Seq<char> {
    p.character@ + " - "@ + p.scene@
}

/// Labels of the `n` most recent pulls, newest first.
pub open spec fn recent_labels(pulls: Seq<PullMeta>, n: int) -> Seq<Seq<char>> {
    let m = if n < pulls.len() { n } else { pulls.len() as int };
    Seq::new(m as nat, |i: int| pull_label(pulls[pulls.len() - 1 - i]))
}

/// The texts of a vector of strings.
pub open spec fn strings_view(v: Seq<String>) -> Seq<Seq<char>> {
    Seq::new(v.len(), |i: int| v[i]@)
}

/// Names of the `n` most recent pulls, newest first.
pub fn recent_pull_names(collection: &Collection, n: usize) -> (r: Vec<String>)
    ensures
        strings_view(r@) == recent_labels(collection.pulls@, n as int),
{
    let len = collection.pulls.len();
    let m = if n < len { n } else { len };
    let mut r: Vec<String> = Vec::new();
    let mut i: usize = 0;
    while i < m
        invariant
            len == collection.pulls@.len(),
            m <= len,
            m as int == (if (n as int) < len { n as int } else { len as int }),
            i <= m,
            strings_view(r@) == recent_labels(collection.pulls@, n as int).take(i as int),
        decreases m - i,
    {
        let p = &collection.pulls[len - 1 - i];
        let mut s = chars_of(p.character.as_str());
        append_chars(&mut s, &chars_of(" - "));
        append_chars(&mut s, &chars_of(p.scene.as_str()));
        let ghost before = strings_view(r@);
        assert(s@ == pull_label(collection.pulls@[len - 1 - i]));
        let st = string_of(&s);
        r.push(st);
        assert(strings_view(r@) =~= before.push(s@));
        i = i + 1;
        assert(strings_view(r@) =~= recent_labels(collection.pulls@, n as int).take(i as int));
    }
    assert(recent_labels(collection.pulls@, n as int).take(m as int) =~= recent_labels(collection.pulls@, n as int));
    r
}

/// A pull key is safe to use as a directory name: it holds no `/`, no `\\`
/// and no `..`.
pub open spec fn safe_date(date: Seq<char>) -> bool {
    !date.contains('/') && !date.contains('\\') && !contains_sub(date, ".."@)
}

/// Rejects a pull key that could leave the pulls directory.
pub fn validate_date(date: &str) -> (r: Result<(), String>)
    ensures
        r is Ok <==> safe_date(date@),
        r matches Err(e) ==> e@ == "invalid date"@,
{
    let d = chars_of(date);
    let mut i: usize = 0;
    while i < d.len()
        invariant
            d@ == date@,
            i <= d.len(),
            forall|k: int| 0 <= k < i ==> d@[k] != '/' && d@[k] != '\\',
        decreases d.len() - i,
    {
        if d[i] == '/' || d[i] == '\\' {
            return Err("invalid date".to_owned());
        }
        i = i + 1;
    }
    if contains(&d, &chars_of("..")) {
        return Err("invalid date".to_owned());
    }
    Ok(())
}

proof fn lemma_pulls_of_push(pulls: Seq<PullMeta>, m: PullMeta, c: Seq<char>)
    ensures
        pulls_of(pulls.push(m), c) == pulls_of(pulls, c) + if m.character@ == c { 1int } else { 0int },
{
    assert(pulls.push(m).drop_last() =~= pulls);
}

/// Adds one pull to the character counts: the entry of `name` goes up by
/// one, or a new entry `(name, 1)` is appended.
fn tally_character(t: &mut Vec<(String, u32)>, name: &String)
    requires
        forall|i: int| 0 <= i < old(t)@.len() ==> #[trigger] old(t)@[i].1 < u32::MAX,
    ensures
        char_tallies(final(t)@) == bump(char_tallies(old(t)@), name@),
{
    let kv = chars_of(name.as_str());
    let mut i: usize = 0;
    while i < t.len()
        invariant
            kv@ == name@,
            t@ == old(t)@,
            forall|j: int| 0 <= j < old(t)@.len() ==> #[trigger] old(t)@[j].1 < u32::MAX,
            i <= t.len(),
            forall|j: int| 0 <= j < i ==> (#[trigger] t@[j]).0@ != name@,
        decreases t.len() - i,
    {
        let ek = chars_of(t[i].0.as_str());
        if chars_eq(&ek, &kv) {
            proof {
                crate::stats::lemma_bump_found(char_tallies(t@), name@, i as int);
            }
            let ghost before = t@;
            let c = t[i].1;
            t[i].1 = c + 1;
            assert(char_tallies(t@) =~= char_tallies(before).update(i as int, (name@, c + 1)));
            return;
        }
        i = i + 1;
    }
    proof {
        crate::stats::lemma_bump_absent(char_tallies(t@), name@);
    }
    let ghost before = t@;
    t.push((name.clone(), 1));
    assert(char_tallies(t@) =~= char_tallies(before).push((name@, 1int)));
}

/// Appends a pull to the collection and counts its character.
pub fn add_pull(collection: &mut Collection, meta: PullMeta)
    requires
        forall|i: int| 0 <= i < old(collection).unique_characters@.len() ==> #[trigger] old(collection).unique_characters@[i].1 < u32::MAX,
    ensures
        final(collection).pulls@ == old(collection).pulls@.push(meta),
        char_tallies(final(collection).unique_characters@) == bump(char_tallies(old(collection).unique_characters@), meta.character@),
        tallied(&*old(collection)) ==> tallied(&*final(collection)),
{
    let ghost m = meta;
    tally_character(&mut collection.unique_characters, &meta.character);
    collection.pulls.push(meta);
    proof {
        if tallied(&*old(collection)) {
            lemma_add_pull_tallied(*old(collection), *collection, m);
        }
    }
}

/// Adding a pull keeps the character counts in agreement with the pulls.
pub proof fn lemma_add_pull_tallied(before: Collection, after: Collection, meta: PullMeta)
    requires
        tallied(&before),
        after.pulls@ == before.pulls@.push(meta),
        char_tallies(after.unique_characters@) == bump(char_tallies(before.unique_characters@), meta.character@),
    ensures
        tallied(&after),
{
    let t0 = char_tallies(before.unique_characters@);
    let t1 = char_tallies(after.unique_characters@);
    let k = meta.character@;
    crate::stats::lemma_bump_distinct(t0, k);
    assert forall|c: Seq<char>| pulls_of(after.pulls@, c) == pulls_of(before.pulls@, c) + if k == c { 1int } else { 0int } by {
        lemma_pulls_of_push(before.pulls@, meta, c);
    }
    assert(distinct_keys(t1));
    if exists|i: int| 0 <= i < t0.len() && t0[i].0 == k {
        let i0 = choose|i: int| 0 <= i < t0.len() && t0[i].0 == k;
        assert forall|j: int| 0 <= j < i0 implies t0[j].0 != k by {}
        crate::stats::lemma_bump_found(t0, k, i0);
        assert(t1 == t0.update(i0, (k, t0[i0].1 + 1)));
        assert forall|i: int| 0 <= i < t1.len() implies (#[trigger] t1[i]).1 == pulls_of(after.pulls@, t1[i].0) by {
            if i != i0 {
                assert(t1[i] == t0[i]);
                assert(t0[i].0 != k);
            }
        }
        assert forall|p: int| 0 <= p < after.pulls@.len() implies has_entry(t1, (#[trigger] after.pulls@[p]).character@) by {
            if p < before.pulls@.len() {
                assert(after.pulls@[p] == before.pulls@[p]);
                assert(has_entry(t0, before.pulls@[p].character@));
                let i = choose|i: int| 0 <= i < t0.len() && t0[i].0 == before.pulls@[p].character@;
                assert(t1[i].0 == t0[i].0);
            } else {
                assert(t1[i0].0 == k);
            }
        }
    } else {
        crate::stats::lemma_bump_absent(t0, k);
        assert(pulls_of(before.pulls@, k) == 0) by {
            lemma_no_entry_no_pulls(before.pulls@, t0, k);
        }
        assert forall|i: int| 0 <= i < t1.len() implies (#[trigger] t1[i]).1 == pulls_of(after.pulls@, t1[i].0) by {
            if i < t0.len() {
                assert(t1[i] == t0[i]);
            }
        }
        assert forall|p: int| 0 <= p < after.pulls@.len() implies has_entry(t1, (#[trigger] after.pulls@[p]).character@) by {
            if p < before.pulls@.len() {
                assert(after.pulls@[p] == before.pulls@[p]);
                assert(has_entry(t0, before.pulls@[p].character@));
                let i = choose|i: int| 0 <= i < t0.len() && t0[i].0 == before.pulls@[p].character@;
                assert(t1[i].0 == t0[i].0);
            } else {
                assert(t1[t0.len() as int].0 == k);
            }
        }
    }
}

proof fn lemma_no_entry_no_pulls(pulls: Seq<PullMeta>, t: Seq<(Seq<char>, int)>, k: Seq<char>)
    requires
        forall|i: int| 0 <= i < t.len() ==> t[i].0 != k,
        forall|p: int| 0 <= p < pulls.len() ==> has_entry(t, (#[trigger] pulls[p]).character@),
    ensures
        pulls_of(pulls, k) == 0,
    decreases pulls.len(),
{
    if pulls.len() > 0 {
        assert forall|p: int| 0 <= p < pulls.drop_last().len() implies has_entry(t, (#[trigger] pulls.drop_last()[p]).character@) by {
            assert(pulls.drop_last()[p] == pulls[p]);
            assert(has_entry(t, pulls[p].character@));
        }
        lemma_no_entry_no_pulls(pulls.drop_last(), t, k);
        let last = pulls.len() - 1;
        assert(pulls[last] == pulls.last());
        assert(has_entry(t, pulls[last].character@));
    }
}

/// An empty collection is in agreement.
pub proof fn lemma_empty_tallied(c: Collection)
    requires
        c.pulls@.len() == 0,
        c.unique_characters@.len() == 0,
    ensures
        tallied(&c),
{
}

/// Whether every character count is below its maximum, so a pull can be
/// counted.
pub fn tallies_have_room(c: &Collection) -> (r: bool)
    ensures
        r == forall|i: int| 0 <= i < c.unique_characters@.len() ==> #[trigger] c.unique_characters@[i].1 < u32::MAX,
{
    let mut i: usize = 0;
    while i < c.unique_characters.len()
        invariant
            i <= c.unique_characters.len(),
            forall|k: int| 0 <= k < i ==> #[trigger] c.unique_characters@[k].1 < u32::MAX,
        decreases c.unique_characters.len() - i,
    {
        if c.unique_characters[i].1 == u32::MAX {
            return false;
        }
        i = i + 1;
    }
    true
}

/// The image addresses of the pulls so far, in order.
pub open spec fn source_urls(pulls: Seq<PullMeta>) -> Seq<Seq<char>>
    decreases pulls.len(),
{
    if pulls.len() == 0 {
        seq![]
    } else {
        match pulls.last().source_url {
            Some(u) => source_urls(pulls.drop_last()).push(u@),
            None => source_urls(pulls.drop_last()),
        }
    }
}

/// The image addresses already in the collection.
pub fn used_urls(collection: &Collection) -> (r: Vec<String>)
    ensures
        strings_view(r@) == source_urls(collection.pulls@),
{
    let mut r: Vec<String> = Vec::new();
    let mut i: usize = 0;
    while i < collection.pulls.len()
        invariant
            i <= collection.pulls.len(),
            strings_view(r@) == source_urls(collection.pulls@.take(i as int)),
        decreases collection.pulls.len() - i,
    {
        assert(collection.pulls@.take(i + 1).drop_last() =~= collection.pulls@.take(i as int));
        match &collection.pulls[i].source_url {
            Some(u) => {
                let ghost before = strings_view(r@);
                r.push(u.clone());
                assert(strings_view(r@) =~= before.push(u@));
            },
            None => {},
        }
        i = i + 1;
    }
    assert(collection.pulls@.take(collection.pulls.len() as int) =~= collection.pulls@);
    r
}

/// A pull key that passes `validate_date` names a directory right inside
/// the pulls directory: the key and the file name are appended as path
/// components, never replacing the path or climbing out of it.
pub proof fn lemma_safe_pull_path(data_dir: Seq<char>, date: Seq<char>, file_name: Seq<char>)
    requires
        safe_date(date),
        date.len() > 0,
        file_name.len() > 0,
        file_name[0] != '/',
    ensures
        path_join(path_join(path_join(data_dir, "pulls"@), date), file_name)
            == path_join(data_dir, "pulls"@) + "/"@ + date + "/"@ + file_name,
{
    let p = path_join(data_dir, "pulls"@);
    assert(date[0] != '/') by {
        assert(!date.contains('/'));
    }
    assert(p.len() > 0 && p.last() != '/') by {
        reveal_strlit("pulls");
        assert(p.last() == 's');
    }
    let q = path_join(p, date);
    assert(q == p + "/"@ + date) by {
        reveal_strlit("/");
    }
    assert(q.last() != '/') by {
        reveal_strlit("/");
        assert(q.last() == date.last());
        assert(date[date.len() - 1] != '/');
    }
    assert(path_join(q, file_name) == q + "/"@ + file_name) by {
        reveal_strlit("/");
    }
}

} // verus!
