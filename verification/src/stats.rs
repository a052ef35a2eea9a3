//! Daily keystroke statistics and how one key press updates them.

use vstd::prelude::*;

use crate::text::{ascii_lower, chars_of, eq_str, to_ascii_lower};

verus! {

/// Keystrokes counted by category.
#[derive(Debug)]
pub struct CategoryCounts {
    pub letter: u64,
    pub number: u64,
    pub symbol: u64,
    pub modifier: u64,
}

/// Keystrokes counted by keyboard region (QWERTY layout).
#[derive(Debug)]
pub struct RegionCounts {
    pub left_hand: u64,
    pub right_hand: u64,
    pub home_row: u64,
}

/// Statistics of one day of typing.  `chars` holds one entry per key name
/// with the number of times it was pressed; `hourly_volume` holds one count
/// per hour of the day.
#[derive(Debug)]
pub struct DailyStats {
    pub date: String,
    pub total: u64,
    pub chars: Vec<(String, u64)>,
    pub categories: CategoryCounts,
    pub backspace_count: u64,
    pub shift_count: u64,
    pub capslock_count: u64,
    pub hourly_volume: Vec<u64>,
    pub regions: RegionCounts,
}

/// The mathematical content of a day's statistics.
pub struct StatsView {
    pub date: Seq<char>,
    pub total: int,
    pub chars: Seq<(Seq<char>, int)>,
    pub letter: int,
    pub number: int,
    pub symbol: int,
    pub modifier: int,
    pub backspace: int,
    pub shift: int,
    pub capslock: int,
    pub hourly: Seq<int>,
    pub left_hand: int,
    pub right_hand: int,
    pub home_row: int,
}

/// The key counts as key texts with their counts.
pub open spec fn count_pairs(v: Seq<(String, u64)>) -> Seq<(Seq<char>, int)> {
    Seq::new(v.len(), |i: int| (v[i].0@, v[i].1 as int))
}

/// A sequence of counters as integers.
pub open spec fn counters(v: Seq<u64>) -> Seq<int> {
    Seq::new(v.len(), |i: int| v[i] as int)
}

impl View for DailyStats {
    type V = StatsView;

    open spec fn view(&self) -> StatsView {
        StatsView {
            date: self.date@,
            total: self.total as int,
            chars: count_pairs(self.chars@),
            letter: self.categories.letter as int,
            number: self.categories.number as int,
            symbol: self.categories.symbol as int,
            modifier: self.categories.modifier as int,
            backspace: self.backspace_count as int,
            shift: self.shift_count as int,
            capslock: self.capslock_count as int,
            hourly: counters(self.hourly_volume@),
            left_hand: self.regions.left_hand as int,
            right_hand: self.regions.right_hand as int,
            home_row: self.regions.home_row as int,
        }
    }
}

/// Which names the special keys carry: spelled-out words (`"backspace"`,
/// `"shift"`, ...) or the key symbols the key-tap helper reports
/// (`"⌫"`, `"⇧"`, ...).
#[derive(Debug, Clone, Copy, PartialEq, Eq, Structural)]
pub enum KeyNaming {
    Words,
    Symbols,
}

/// How a key name is counted.
#[derive(Debug, Clone, Copy, PartialEq, Eq, Structural)]
pub enum KeyClass {
    Backspace,
    Shift,
    CapsLock,
    Modifier,
    /// A name of one byte: a single ASCII character.
    Single(char),
    Other,
}

pub open spec fn backspace_name(n: KeyNaming) -> Seq<char> {
    match n {
        KeyNaming::Words => "backspace"@,
        KeyNaming::Symbols => "⌫"@,
    }
}

pub open spec fn shift_name(n: KeyNaming) -> Seq<char> {
    match n {
        KeyNaming::Words => "shift"@,
        KeyNaming::Symbols => "⇧"@,
    }
}

pub open spec fn capslock_name(n: KeyNaming) -> Seq<char> {
    match n {
        KeyNaming::Words => "capslock"@,
        KeyNaming::Symbols => "⇪"@,
    }
}

/// The other modifier names: command, control, option, tab, escape, return.
pub open spec fn modifier_names(n: KeyNaming) -> Seq<Seq<char>> {
    match n {
        KeyNaming::Words => seq!["cmd"@, "ctrl"@, "option"@, "tab"@, "escape"@, "return"@],
        KeyNaming::Symbols => seq!["⌘"@, "⌃"@, "⌥"@, "⇥"@, "⎋"@, "⏎"@],
    }
}

/// The class of a key name, special names first.
pub open spec fn key_class(key: Seq<char>, n: KeyNaming) -> KeyClass {
    if key == backspace_name(n) {
        KeyClass::Backspace
    } else if key == shift_name(n) {
        KeyClass::Shift
    } else if key == capslock_name(n) {
        KeyClass::CapsLock
    } else if modifier_names(n).contains(key) {
        KeyClass::Modifier
    } else if key.len() == 1 && (key[0] as u32) < 0x80 {
        KeyClass::Single(key[0])
    } else {
        KeyClass::Other
    }
}

pub open spec fn is_ascii_letter(c: char) -> bool {
    ('a' <= c <= 'z') || ('A' <= c <= 'Z')
}

pub open spec fn is_ascii_digit(c: char) -> bool {
    '0' <= c <= '9'
}

/// Keys typed with the left hand.
pub open spec fn left_keys() -> Seq<char> {
    "qwertasdfgzxcvb`12345"@
}

/// Keys of the home row.
pub open spec fn home_keys() -> Seq<char> {
    "asdfghjkl;'"@
}

/// Key counts with one more press of `k`: the first entry for `k` goes up by
/// one, or a new entry `(k, 1)` is appended.
pub open spec fn bump(s: Seq<(Seq<char>, int)>, k: Seq<char>) -> Seq<(Seq<char>, int)>
    decreases s.len(),
{
    if s.len() == 0 {
        seq![(k, 1int)]
    } else if s[0].0 == k {
        s.update(0, (k, s[0].1 + 1))
    } else {
        seq![s[0]] + bump(s.drop_first(), k)
    }
}

/// A fresh day: everything zero, 24 empty hours.
pub open spec fn fresh_view(date: Seq<char>) -> StatsView {
    StatsView {
        date: date,
        total: 0,
        chars: seq![],
        letter: 0,
        number: 0,
        symbol: 0,
        modifier: 0,
        backspace: 0,
        shift: 0,
        capslock: 0,
        hourly: Seq::new(24, |i: int| 0int),
        left_hand: 0,
        right_hand: 0,
        home_row: 0,
    }
}

/// The statistics after one press of `key` in hour `hour`.
pub open spec fn after_key(v: StatsView, key: Seq<char>, hour: int, n: KeyNaming) -> StatsView {
    let hourly = if 0 <= hour < v.hourly.len() {
        v.hourly.update(hour, v.hourly[hour] + 1)
    } else {
        v.hourly
    };
    let b = StatsView { total: v.total + 1, chars: bump(v.chars, key), hourly: hourly, ..v };
    match key_class(key, n) {
        KeyClass::Backspace => StatsView { backspace: b.backspace + 1, ..b },
        KeyClass::Shift => StatsView { shift: b.shift + 1, modifier: b.modifier + 1, ..b },
        KeyClass::CapsLock => StatsView { capslock: b.capslock + 1, modifier: b.modifier + 1, ..b },
        KeyClass::Modifier => StatsView { modifier: b.modifier + 1, ..b },
        KeyClass::Single(c) => {
            let lc = ascii_lower(c);
            StatsView {
                letter: if is_ascii_letter(c) { b.letter + 1 } else { b.letter },
                number: if !is_ascii_letter(c) && is_ascii_digit(c) { b.number + 1 } else { b.number },
                symbol: if !is_ascii_letter(c) && !is_ascii_digit(c) { b.symbol + 1 } else { b.symbol },
                left_hand: if left_keys().contains(lc) { b.left_hand + 1 } else { b.left_hand },
                right_hand: if left_keys().contains(lc) { b.right_hand } else { b.right_hand + 1 },
                home_row: if home_keys().contains(lc) { b.home_row + 1 } else { b.home_row },
                ..b
            }
        },
        KeyClass::Other => StatsView { symbol: b.symbol + 1, ..b },
    }
}

/// No counter that a key press may increase is at its maximum.
pub open spec fn has_room(s: &DailyStats) -> bool {
    &&& s.total < u64::MAX
    &&& s.categories.letter < u64::MAX
    &&& s.categories.number < u64::MAX
    &&& s.categories.symbol < u64::MAX
    &&& s.categories.modifier < u64::MAX
    &&& s.backspace_count < u64::MAX
    &&& s.shift_count < u64::MAX
    &&& s.capslock_count < u64::MAX
    &&& s.regions.left_hand < u64::MAX
    &&& s.regions.right_hand < u64::MAX
    &&& s.regions.home_row < u64::MAX
    &&& forall|i: int| 0 <= i < s.chars.len() ==> #[trigger] s.chars@[i].1 < u64::MAX
    &&& forall|i: int| 0 <= i < s.hourly_volume.len() ==> #[trigger] s.hourly_volume@[i] < u64::MAX
}

impl Default for CategoryCounts {
    fn default() -> (r: Self)
        ensures
            r.letter == 0 && r.number == 0 && r.symbol == 0 && r.modifier == 0,
    {
        CategoryCounts { letter: 0, number: 0, symbol: 0, modifier: 0 }
    }
}

impl Default for RegionCounts {
    fn default() -> (r: Self)
        ensures
            r.left_hand == 0 && r.right_hand == 0 && r.home_row == 0,
    {
        RegionCounts { left_hand: 0, right_hand: 0, home_row: 0 }
    }
}

impl Default for DailyStats {
    /// Empty statistics: no date, no hours, all counters zero.
    fn default() -> (r: Self)
        ensures
            r@ == (StatsView { hourly: seq![], ..fresh_view(seq![]) }),
    {
        let r = DailyStats {
            date: String::new(),
            total: 0,
            chars: Vec::new(),
            categories: CategoryCounts::default(),
            backspace_count: 0,
            shift_count: 0,
            capslock_count: 0,
            hourly_volume: Vec::new(),
            regions: RegionCounts::default(),
        };
        assert(r@.chars =~= seq![]);
        assert(r@.hourly =~= seq![]);
        r
    }
}

/// Empty statistics for `date` with 24 hourly slots.
pub fn new_day(date: &str) -> (r: DailyStats)
    ensures
        r@ == fresh_view(date@),
{
    let mut hourly: Vec<u64> = Vec::new();
    let mut i: usize = 0;
    while i < 24
        invariant
            i <= 24,
            hourly@.len() == i,
            forall|j: int| 0 <= j < i ==> hourly@[j] == 0,
        decreases 24 - i,
    {
        hourly.push(0);
        i = i + 1;
    }
    let r = DailyStats {
        date: date.to_owned(),
        total: 0,
        chars: Vec::new(),
        categories: CategoryCounts::default(),
        backspace_count: 0,
        shift_count: 0,
        capslock_count: 0,
        hourly_volume: hourly,
        regions: RegionCounts::default(),
    };
    assert(r@.chars =~= seq![]);
    assert(r@.hourly =~= Seq::new(24, |i: int| 0int));
    r
}

/// Whether `c` occurs in `lit`.
fn char_in(c: char, lit: &str) -> (r: bool)
    ensures
        r == lit@.contains(c),
{
    let v = chars_of(lit);
    let mut i: usize = 0;
    while i < v.len()
        invariant
            v@ == lit@,
            i <= v.len(),
            forall|j: int| 0 <= j < i ==> v@[j] != c,
        decreases v.len() - i,
    {
        if v[i] == c {
            return true;
        }
        i = i + 1;
    }
    false
}

/// The class of a key name.
pub fn classify(key: &Vec<char>, n: KeyNaming) -> (r: KeyClass)
    ensures
        r == key_class(key@, n),
{
    let (bs, sh, cl, m0, m1, m2, m3, m4, m5) = match n {
        KeyNaming::Words => ("backspace", "shift", "capslock", "cmd", "ctrl", "option", "tab", "escape", "return"),
        KeyNaming::Symbols => ("⌫", "⇧", "⇪", "⌘", "⌃", "⌥", "⇥", "⎋", "⏎"),
    };
    assert(modifier_names(n) == seq![m0@, m1@, m2@, m3@, m4@, m5@]);
    if eq_str(key, bs) {
        KeyClass::Backspace
    } else if eq_str(key, sh) {
        KeyClass::Shift
    } else if eq_str(key, cl) {
        KeyClass::CapsLock
    } else if eq_str(key, m0) || eq_str(key, m1) || eq_str(key, m2) || eq_str(key, m3) || eq_str(key, m4) || eq_str(key, m5) {
        assert(modifier_names(n)[0] == m0@);
        assert(modifier_names(n)[1] == m1@);
        assert(modifier_names(n)[2] == m2@);
        assert(modifier_names(n)[3] == m3@);
        assert(modifier_names(n)[4] == m4@);
        assert(modifier_names(n)[5] == m5@);
        KeyClass::Modifier
    } else if key.len() == 1 && (key[0] as u32) < 0x80 {
        assert(!modifier_names(n).contains(key@));
        KeyClass::Single(key[0])
    } else {
        KeyClass::Other
    }
}

pub proof fn lemma_bump_found(s: Seq<(Seq<char>, int)>, k: Seq<char>, i: int)
    requires
        0 <= i < s.len(),
        s[i].0 == k,
        forall|j: int| 0 <= j < i ==> s[j].0 != k,
    ensures
        bump(s, k) == s.update(i, (k, s[i].1 + 1)),
    decreases s.len(),
{
    if i > 0 {
        lemma_bump_found(s.drop_first(), k, i - 1);
        assert(bump(s, k) =~= s.update(i, (k, s[i].1 + 1)));
    }
}

pub proof fn lemma_bump_absent(s: Seq<(Seq<char>, int)>, k: Seq<char>)
    requires
        forall|j: int| 0 <= j < s.len() ==> s[j].0 != k,
    ensures
        bump(s, k) == s.push((k, 1int)),
    decreases s.len(),
{
    if s.len() > 0 {
        lemma_bump_absent(s.drop_first(), k);
        assert(bump(s, k) =~= s.push((k, 1int)));
    }
}

/// Adds one press of `key` to the per-key counts.
fn bump_key(chars: &mut Vec<(String, u64)>, key: &str)
    requires
        forall|i: int| 0 <= i < old(chars).len() ==> #[trigger] old(chars)@[i].1 < u64::MAX,
    ensures
        count_pairs(final(chars)@) == bump(count_pairs(old(chars)@), key@),
{
    let kv = chars_of(key);
    let mut i: usize = 0;
    while i < chars.len()
        invariant
            kv@ == key@,
            chars@ == old(chars)@,
            forall|j: int| 0 <= j < old(chars).len() ==> #[trigger] old(chars)@[j].1 < u64::MAX,
            i <= chars.len(),
            forall|j: int| 0 <= j < i ==> (#[trigger] chars@[j]).0@ != key@,
        decreases chars.len() - i,
    {
        let ek = chars_of(chars[i].0.as_str());
        if crate::text::chars_eq(&ek, &kv) {
            proof {
                lemma_bump_found(count_pairs(chars@), key@, i as int);
            }
            let ghost before = chars@;
            let c = chars[i].1;
            chars[i].1 = c + 1;
            assert(count_pairs(chars@) =~= count_pairs(before).update(i as int, (key@, c + 1)));
            return;
        }
        i = i + 1;
    }
    proof {
        lemma_bump_absent(count_pairs(chars@), key@);
    }
    let ghost before = chars@;
    chars.push((key.to_owned(), 1));
    assert(count_pairs(chars@) =~= count_pairs(before).push((key@, 1int)));
}

/// Records one press of `key` in hour `hour` on the current statistics,
/// counting special keys under the names of `naming`.
pub fn count_key(stats: &mut DailyStats, key: &str, hour: u32, naming: KeyNaming)
    requires
        has_room(old(stats)),
    ensures
        final(stats)@ == after_key(old(stats)@, key@, hour as int, naming),
{
    let ghost v = stats@;
    stats.total = stats.total + 1;
    bump_key(&mut stats.chars, key);
    let h = hour as usize;
    if h < stats.hourly_volume.len() {
        let x = stats.hourly_volume[h];
        stats.hourly_volume[h] = x + 1;
    }
    let kv = chars_of(key);
    match classify(&kv, naming) {
        KeyClass::Backspace => {
            stats.backspace_count = stats.backspace_count + 1;
        },
        KeyClass::Shift => {
            stats.shift_count = stats.shift_count + 1;
            stats.categories.modifier = stats.categories.modifier + 1;
        },
        KeyClass::CapsLock => {
            stats.capslock_count = stats.capslock_count + 1;
            stats.categories.modifier = stats.categories.modifier + 1;
        },
        KeyClass::Modifier => {
            stats.categories.modifier = stats.categories.modifier + 1;
        },
        KeyClass::Single(c) => {
            if ('a' <= c && c <= 'z') || ('A' <= c && c <= 'Z') {
                stats.categories.letter = stats.categories.letter + 1;
            } else if '0' <= c && c <= '9' {
                stats.categories.number = stats.categories.number + 1;
            } else {
                stats.categories.symbol = stats.categories.symbol + 1;
            }
            let lc = to_ascii_lower(c);
            if char_in(lc, "qwertasdfgzxcvb`12345") {
                stats.regions.left_hand = stats.regions.left_hand + 1;
            } else {
                stats.regions.right_hand = stats.regions.right_hand + 1;
            }
            if char_in(lc, "asdfghjkl;'") {
                stats.regions.home_row = stats.regions.home_row + 1;
            }
        },
        KeyClass::Other => {
            stats.categories.symbol = stats.categories.symbol + 1;
        },
    }
    assert(stats@.hourly =~= after_key(v, key@, hour as int, naming).hourly);
    assert(stats@.chars =~= after_key(v, key@, hour as int, naming).chars);
}

/// Records one press of `key_name` on the day `today`, in hour `hour`.
/// When the statistics belong to another day they are handed back (to be
/// saved) and counting starts over on a fresh day.
pub fn record_key(stats: &mut DailyStats, key_name: &str, today: &str, hour: u32) -> (rolled: Option<DailyStats>)
    requires
        old(stats).date@ == today@ ==> has_room(old(stats)),
    ensures
        old(stats).date@ == today@ ==> rolled is None && final(stats)@ == after_key(old(stats)@, key_name@, hour as int, KeyNaming::Words),
        old(stats).date@ != today@ ==> rolled == Some(*old(stats)) && final(stats)@ == after_key(fresh_view(today@), key_name@, hour as int, KeyNaming::Words),
        distinct_keys(old(stats)@.chars) ==> distinct_keys(final(stats)@.chars),
        final(stats)@ == recorded(old(stats)@, today@, key_name@, hour as int, KeyNaming::Words),
{
    record_key_named(stats, key_name, today, hour, KeyNaming::Words)
}

/// `record_key` for a given naming of the special keys.
pub fn record_key_named(stats: &mut DailyStats, key_name: &str, today: &str, hour: u32, naming: KeyNaming) -> (rolled: Option<DailyStats>)
    requires
        old(stats).date@ == today@ ==> has_room(old(stats)),
    ensures
        old(stats).date@ == today@ ==> rolled is None && final(stats)@ == after_key(old(stats)@, key_name@, hour as int, naming),
        old(stats).date@ != today@ ==> rolled == Some(*old(stats)) && final(stats)@ == after_key(fresh_view(today@), key_name@, hour as int, naming),
        distinct_keys(old(stats)@.chars) ==> distinct_keys(final(stats)@.chars),
{
    proof {
        if distinct_keys(old(stats)@.chars) {
            lemma_bump_distinct(old(stats)@.chars, key_name@);
        }
        lemma_bump_distinct(seq![], key_name@);
    }
    let d = chars_of(stats.date.as_str());
    let t = chars_of(today);
    let mut rolled: Option<DailyStats> = None;
    if !crate::text::chars_eq(&d, &t) {
        let mut fresh = new_day(today);
        std::mem::swap(stats, &mut fresh);
        rolled = Some(fresh);
        assert(stats@ == fresh_view(today@));
        assert(stats@.hourly == Seq::new(24, |i: int| 0int));
        assert forall|i: int| 0 <= i < stats.hourly_volume.len() implies #[trigger] stats.hourly_volume@[i] < u64::MAX by {
            assert(counters(stats.hourly_volume@)[i] == 0);
        }
        assert(count_pairs(stats.chars@).len() == 0);
        assert(has_room(stats));
    }
    count_key(stats, key_name, hour, naming);
    rolled
}

/// Sum of the per-key counts.
pub open spec fn sum_counts(s: Seq<(Seq<char>, int)>) -> int
    decreases s.len(),
{
    if s.len() == 0 {
        0
    } else {
        s[0].1 + sum_counts(s.drop_first())
    }
}

/// Sum of a sequence of counters.
pub open spec fn sum_ints(s: Seq<int>) -> int
    decreases s.len(),
{
    if s.len() == 0 {
        0
    } else {
        s[0] + sum_ints(s.drop_first())
    }
}

/// No key name has two entries.
pub open spec fn distinct_keys(s: Seq<(Seq<char>, int)>) -> bool {
    forall|i: int, j: int| 0 <= i < j < s.len() ==> s[i].0 != s[j].0
}

/// The statistics agree with themselves: every press is counted once per
/// key, once per hour and once in exactly one of the letter, number, symbol,
/// modifier and backspace counters; region and modifier sub-counts stay
/// within the counts they are part of.
pub open spec fn consistent(v: StatsView) -> bool {
    &&& distinct_keys(v.chars)
    &&& sum_counts(v.chars) == v.total
    &&& v.letter + v.number + v.symbol + v.modifier + v.backspace == v.total
    &&& v.hourly.len() == 24
    &&& sum_ints(v.hourly) == v.total
    &&& v.left_hand + v.right_hand <= v.letter + v.number + v.symbol
    &&& v.home_row <= v.left_hand + v.right_hand
    &&& v.shift + v.capslock <= v.modifier
    &&& 0 <= v.letter && 0 <= v.number && 0 <= v.symbol && 0 <= v.modifier && 0 <= v.backspace
    &&& 0 <= v.shift && 0 <= v.capslock && 0 <= v.left_hand && 0 <= v.right_hand && 0 <= v.home_row
}

proof fn lemma_bump_sum(s: Seq<(Seq<char>, int)>, k: Seq<char>)
    ensures
        sum_counts(bump(s, k)) == sum_counts(s) + 1,
    decreases s.len(),
{
    if s.len() == 0 {
        assert(bump(s, k).drop_first() =~= Seq::<(Seq<char>, int)>::empty());
        assert(sum_counts(bump(s, k).drop_first()) == 0);
    } else if s[0].0 == k {
        assert(bump(s, k).drop_first() =~= s.drop_first());
    } else {
        lemma_bump_sum(s.drop_first(), k);
        assert(bump(s, k).drop_first() =~= bump(s.drop_first(), k));
    }
}

pub proof fn lemma_bump_keys(s: Seq<(Seq<char>, int)>, k: Seq<char>)
    ensures
        forall|j: int| 0 <= j < bump(s, k).len() ==>
            (#[trigger] bump(s, k)[j]).0 == k || exists|i: int| 0 <= i < s.len() && s[i].0 == bump(s, k)[j].0,
    decreases s.len(),
{
    if s.len() > 0 && s[0].0 != k {
        lemma_bump_keys(s.drop_first(), k);
        let b = bump(s, k);
        let r = bump(s.drop_first(), k);
        assert forall|j: int| 0 <= j < b.len() implies
            (#[trigger] b[j]).0 == k || exists|i: int| 0 <= i < s.len() && s[i].0 == b[j].0 by {
            if j == 0 {
                assert(s[0].0 == b[j].0);
            } else {
                assert(b[j] == r[j - 1]);
                if r[j - 1].0 != k {
                    let i = choose|i: int| 0 <= i < s.drop_first().len() && s.drop_first()[i].0 == r[j - 1].0;
                    assert(s[i + 1].0 == b[j].0);
                }
            }
        }
    } else if s.len() > 0 {
        let b = bump(s, k);
        assert forall|j: int| 0 <= j < b.len() implies
            (#[trigger] b[j]).0 == k || exists|i: int| 0 <= i < s.len() && s[i].0 == b[j].0 by {
            assert(s[j].0 == b[j].0 || j == 0);
        }
    }
}

pub proof fn lemma_bump_distinct(s: Seq<(Seq<char>, int)>, k: Seq<char>)
    requires
        distinct_keys(s),
    ensures
        distinct_keys(bump(s, k)),
    decreases s.len(),
{
    if s.len() > 0 && s[0].0 != k {
        let t = s.drop_first();
        lemma_bump_distinct(t, k);
        lemma_bump_keys(t, k);
        let b = bump(s, k);
        let r = bump(t, k);
        assert forall|i: int, j: int| 0 <= i < j < b.len() implies b[i].0 != b[j].0 by {
            assert(b[j] == r[j - 1]);
            if i > 0 {
                assert(b[i] == r[i - 1]);
            } else {
                if r[j - 1].0 != k {
                    let m = choose|m: int| 0 <= m < t.len() && t[m].0 == r[j - 1].0;
                    assert(s[m + 1].0 == t[m].0);
                }
            }
        }
    } else if s.len() > 0 {
        let b = bump(s, k);
        assert forall|i: int, j: int| 0 <= i < j < b.len() implies b[i].0 != b[j].0 by {
            assert(b[i].0 == s[i].0);
            assert(b[j].0 == s[j].0);
        }
    }
}

proof fn lemma_sum_update(s: Seq<int>, h: int)
    requires
        0 <= h < s.len(),
    ensures
        sum_ints(s.update(h, s[h] + 1)) == sum_ints(s) + 1,
    decreases s.len(),
{
    if h > 0 {
        lemma_sum_update(s.drop_first(), h - 1);
        assert(s.update(h, s[h] + 1).drop_first() =~= s.drop_first().update(h - 1, s[h] + 1));
    } else {
        assert(s.update(h, s[h] + 1).drop_first() =~= s.drop_first());
    }
}

proof fn lemma_sum_zeros(n: nat)
    ensures
        sum_ints(Seq::new(n, |i: int| 0int)) == 0,
    decreases n,
{
    if n > 0 {
        lemma_sum_zeros((n - 1) as nat);
        assert(Seq::new(n, |i: int| 0int).drop_first() =~= Seq::new((n - 1) as nat, |i: int| 0int));
    }
}

/// A fresh day is consistent.
pub proof fn lemma_fresh_consistent(date: Seq<char>)
    ensures
        consistent(fresh_view(date)),
{
    lemma_sum_zeros(24);
}

/// One key press keeps the statistics consistent and adds exactly one to
/// the total.
pub proof fn lemma_key_keeps_consistent(v: StatsView, key: Seq<char>, hour: int, n: KeyNaming)
    requires
        consistent(v),
        0 <= hour < 24,
    ensures
        consistent(after_key(v, key, hour, n)),
        after_key(v, key, hour, n).total == v.total + 1,
{
    lemma_bump_sum(v.chars, key);
    lemma_bump_distinct(v.chars, key);
    lemma_sum_update(v.hourly, hour);
}

/// Recording a key, with or without a change of day, keeps the statistics
/// consistent; on a new day the count starts again at one.
pub proof fn lemma_record_keeps_consistent(v: StatsView, today: Seq<char>, key: Seq<char>, hour: int, n: KeyNaming)
    requires
        consistent(v),
        0 <= hour < 24,
    ensures
        consistent(after_key(if v.date == today { v } else { fresh_view(today) }, key, hour, n)),
        v.date != today ==> after_key(fresh_view(today), key, hour, n).total == 1,
        v.date == today ==> after_key(v, key, hour, n).total == v.total + 1,
{
    lemma_fresh_consistent(today);
    lemma_key_keeps_consistent(v, key, hour, n);
    lemma_key_keeps_consistent(fresh_view(today), key, hour, n);
}

/// The counters agree with the total, whatever the hours list holds: the
/// per-key counts and the letter, number, symbol, modifier and backspace
/// counts each add up to the total, the hours hold no more than it, and
/// region and modifier sub-counts stay within what they are part of.
pub open spec fn counts_agree(v: StatsView) -> bool {
    &&& sum_counts(v.chars) == v.total
    &&& v.letter + v.number + v.symbol + v.modifier + v.backspace == v.total
    &&& sum_ints(v.hourly) <= v.total
    &&& v.home_row <= v.left_hand + v.right_hand
    &&& v.left_hand + v.right_hand <= v.letter + v.number + v.symbol
    &&& v.shift + v.capslock <= v.modifier
}

/// Counters that agree keep agreeing after any key press in any hour (an
/// hour outside the hours list counts in the total only).
pub proof fn lemma_key_keeps_counts_agree(v: StatsView, key: Seq<char>, hour: int, n: KeyNaming)
    requires
        counts_agree(v),
    ensures
        counts_agree(after_key(v, key, hour, n)),
{
    lemma_bump_sum(v.chars, key);
    if 0 <= hour < v.hourly.len() {
        lemma_sum_update(v.hourly, hour);
    }
}

/// Recording a key in any state whose counters agree, with or without a
/// change of day, leaves counters that agree.
pub proof fn lemma_record_keeps_counts_agree(v: StatsView, today: Seq<char>, key: Seq<char>, hour: int, n: KeyNaming)
    requires
        counts_agree(v),
    ensures
        counts_agree(after_key(if v.date == today { v } else { fresh_view(today) }, key, hour, n)),
{
    lemma_fresh_consistent(today);
    lemma_key_keeps_counts_agree(v, key, hour, n);
    lemma_key_keeps_counts_agree(fresh_view(today), key, hour, n);
}

/// A typed character counts for the hand that types it on a QWERTY
/// keyboard: q w e r t a s d f g z x c v b ` 1 2 3 4 5 (either case) for the
/// left hand, every other ASCII character for the right; a s d f g h j k l ;
/// ' (either case) also count for the home row.  Letters count as letters,
/// digits as numbers, other characters as symbols.
pub proof fn lemma_typed_char_counts(v: StatsView, c: char, hour: int, n: KeyNaming)
    requires
        (c as u32) < 0x80,
    ensures
        ({
            let a = after_key(v, seq![c], hour, n);
            &&& a.total == v.total + 1
            &&& (c == 'q' || c == 'Q' || c == 'w' || c == 'W' || c == 'e' || c == 'E' || c == 'r' || c == 'R' || c == 't' || c == 'T' || c == 'a' || c == 'A' || c == 's' || c == 'S' || c == 'd' || c == 'D' || c == 'f' || c == 'F' || c == 'g' || c == 'G' || c == 'z' || c == 'Z' || c == 'x' || c == 'X' || c == 'c' || c == 'C' || c == 'v' || c == 'V' || c == 'b' || c == 'B' || c == '`' || c == '1' || c == '2' || c == '3' || c == '4' || c == '5') ==> a.left_hand == v.left_hand + 1 && a.right_hand == v.right_hand
            &&& !(c == 'q' || c == 'Q' || c == 'w' || c == 'W' || c == 'e' || c == 'E' || c == 'r' || c == 'R' || c == 't' || c == 'T' || c == 'a' || c == 'A' || c == 's' || c == 'S' || c == 'd' || c == 'D' || c == 'f' || c == 'F' || c == 'g' || c == 'G' || c == 'z' || c == 'Z' || c == 'x' || c == 'X' || c == 'c' || c == 'C' || c == 'v' || c == 'V' || c == 'b' || c == 'B' || c == '`' || c == '1' || c == '2' || c == '3' || c == '4' || c == '5') ==> a.left_hand == v.left_hand && a.right_hand == v.right_hand + 1
            &&& (c == 'a' || c == 'A' || c == 's' || c == 'S' || c == 'd' || c == 'D' || c == 'f' || c == 'F' || c == 'g' || c == 'G' || c == 'h' || c == 'H' || c == 'j' || c == 'J' || c == 'k' || c == 'K' || c == 'l' || c == 'L' || c == ';' || c == '\'') ==> a.home_row == v.home_row + 1
            &&& !(c == 'a' || c == 'A' || c == 's' || c == 'S' || c == 'd' || c == 'D' || c == 'f' || c == 'F' || c == 'g' || c == 'G' || c == 'h' || c == 'H' || c == 'j' || c == 'J' || c == 'k' || c == 'K' || c == 'l' || c == 'L' || c == ';' || c == '\'') ==> a.home_row == v.home_row
            &&& (('a' <= c <= 'z') || ('A' <= c <= 'Z')) ==> a.letter == v.letter + 1 && a.number == v.number && a.symbol == v.symbol
            &&& ('0' <= c <= '9') ==> a.number == v.number + 1 && a.letter == v.letter && a.symbol == v.symbol
            &&& !(('a' <= c <= 'z') || ('A' <= c <= 'Z') || ('0' <= c <= '9'))
                ==> a.symbol == v.symbol + 1 && a.letter == v.letter && a.number == v.number
            &&& a.modifier == v.modifier && a.backspace == v.backspace
        }),
{
    reveal_strlit("backspace");
    reveal_strlit("shift");
    reveal_strlit("capslock");
    reveal_strlit("cmd");
    reveal_strlit("ctrl");
    reveal_strlit("option");
    reveal_strlit("tab");
    reveal_strlit("escape");
    reveal_strlit("return");
    reveal_strlit("⌫");
    reveal_strlit("⇧");
    reveal_strlit("⇪");
    reveal_strlit("⌘");
    reveal_strlit("⌃");
    reveal_strlit("⌥");
    reveal_strlit("⇥");
    reveal_strlit("⎋");
    reveal_strlit("⏎");
    reveal_strlit("qwertasdfgzxcvb`12345");
    reveal_strlit("asdfghjkl;\'");
    let key = seq![c];
    assert(key != backspace_name(n) && key != shift_name(n) && key != capslock_name(n)) by {
        if key == backspace_name(n) || key == shift_name(n) || key == capslock_name(n) {
            assert(key.len() == 1 && key[0] == c);
            match n {
                KeyNaming::Words => {},
                KeyNaming::Symbols => {
                    assert(backspace_name(n)[0] == '⌫' && shift_name(n)[0] == '⇧' && capslock_name(n)[0] == '⇪');
                },
            }
        }
    }
    assert(!modifier_names(n).contains(key)) by {
        if modifier_names(n).contains(key) {
            let i = choose|i: int| 0 <= i < modifier_names(n).len() && modifier_names(n)[i] == key;
            assert(modifier_names(n)[i].len() != 1 || (modifier_names(n)[i][0] as u32) >= 0x80);
        }
    }
    assert(key_class(key, n) == KeyClass::Single(c));
    let lc = ascii_lower(c);
    assert(left_keys().contains(lc) <==> (c == 'q' || c == 'Q' || c == 'w' || c == 'W' || c == 'e' || c == 'E' || c == 'r' || c == 'R' || c == 't' || c == 'T' || c == 'a' || c == 'A' || c == 's' || c == 'S' || c == 'd' || c == 'D' || c == 'f' || c == 'F' || c == 'g' || c == 'G' || c == 'z' || c == 'Z' || c == 'x' || c == 'X' || c == 'c' || c == 'C' || c == 'v' || c == 'V' || c == 'b' || c == 'B' || c == '`' || c == '1' || c == '2' || c == '3' || c == '4' || c == '5')) by {
        if left_keys().contains(lc) {
            let i = choose|i: int| 0 <= i < left_keys().len() && left_keys()[i] == lc;
            if i == 0 {
                assert(left_keys()[0] == 'q');
            } else if i == 1 {
                assert(left_keys()[1] == 'w');
            } else if i == 2 {
                assert(left_keys()[2] == 'e');
            } else if i == 3 {
                assert(left_keys()[3] == 'r');
            } else if i == 4 {
                assert(left_keys()[4] == 't');
            } else if i == 5 {
                assert(left_keys()[5] == 'a');
            } else if i == 6 {
                assert(left_keys()[6] == 's');
            } else if i == 7 {
                assert(left_keys()[7] == 'd');
            } else if i == 8 {
                assert(left_keys()[8] == 'f');
            } else if i == 9 {
                assert(left_keys()[9] == 'g');
            } else if i == 10 {
                assert(left_keys()[10] == 'z');
            } else if i == 11 {
                assert(left_keys()[11] == 'x');
            } else if i == 12 {
                assert(left_keys()[12] == 'c');
            } else if i == 13 {
                assert(left_keys()[13] == 'v');
            } else if i == 14 {
                assert(left_keys()[14] == 'b');
            } else if i == 15 {
                assert(left_keys()[15] == '`');
            } else if i == 16 {
                assert(left_keys()[16] == '1');
            } else if i == 17 {
                assert(left_keys()[17] == '2');
            } else if i == 18 {
                assert(left_keys()[18] == '3');
            } else if i == 19 {
                assert(left_keys()[19] == '4');
            } else if i == 20 {
                assert(left_keys()[20] == '5');
            }
        }
        if c == 'q' { assert(left_keys()[0] == lc); }
        if c == 'Q' { assert(left_keys()[0] == lc); }
        if c == 'w' { assert(left_keys()[1] == lc); }
        if c == 'W' { assert(left_keys()[1] == lc); }
        if c == 'e' { assert(left_keys()[2] == lc); }
        if c == 'E' { assert(left_keys()[2] == lc); }
        if c == 'r' { assert(left_keys()[3] == lc); }
        if c == 'R' { assert(left_keys()[3] == lc); }
        if c == 't' { assert(left_keys()[4] == lc); }
        if c == 'T' { assert(left_keys()[4] == lc); }
        if c == 'a' { assert(left_keys()[5] == lc); }
        if c == 'A' { assert(left_keys()[5] == lc); }
        if c == 's' { assert(left_keys()[6] == lc); }
        if c == 'S' { assert(left_keys()[6] == lc); }
        if c == 'd' { assert(left_keys()[7] == lc); }
        if c == 'D' { assert(left_keys()[7] == lc); }
        if c == 'f' { assert(left_keys()[8] == lc); }
        if c == 'F' { assert(left_keys()[8] == lc); }
        if c == 'g' { assert(left_keys()[9] == lc); }
        if c == 'G' { assert(left_keys()[9] == lc); }
        if c == 'z' { assert(left_keys()[10] == lc); }
        if c == 'Z' { assert(left_keys()[10] == lc); }
        if c == 'x' { assert(left_keys()[11] == lc); }
        if c == 'X' { assert(left_keys()[11] == lc); }
        if c == 'c' { assert(left_keys()[12] == lc); }
        if c == 'C' { assert(left_keys()[12] == lc); }
        if c == 'v' { assert(left_keys()[13] == lc); }
        if c == 'V' { assert(left_keys()[13] == lc); }
        if c == 'b' { assert(left_keys()[14] == lc); }
        if c == 'B' { assert(left_keys()[14] == lc); }
        if c == '`' { assert(left_keys()[15] == lc); }
        if c == '1' { assert(left_keys()[16] == lc); }
        if c == '2' { assert(left_keys()[17] == lc); }
        if c == '3' { assert(left_keys()[18] == lc); }
        if c == '4' { assert(left_keys()[19] == lc); }
        if c == '5' { assert(left_keys()[20] == lc); }
    }
    assert(home_keys().contains(lc) <==> (c == 'a' || c == 'A' || c == 's' || c == 'S' || c == 'd' || c == 'D' || c == 'f' || c == 'F' || c == 'g' || c == 'G' || c == 'h' || c == 'H' || c == 'j' || c == 'J' || c == 'k' || c == 'K' || c == 'l' || c == 'L' || c == ';' || c == '\'')) by {
        if home_keys().contains(lc) {
            let i = choose|i: int| 0 <= i < home_keys().len() && home_keys()[i] == lc;
            if i == 0 {
                assert(home_keys()[0] == 'a');
            } else if i == 1 {
                assert(home_keys()[1] == 's');
            } else if i == 2 {
                assert(home_keys()[2] == 'd');
            } else if i == 3 {
                assert(home_keys()[3] == 'f');
            } else if i == 4 {
                assert(home_keys()[4] == 'g');
            } else if i == 5 {
                assert(home_keys()[5] == 'h');
            } else if i == 6 {
                assert(home_keys()[6] == 'j');
            } else if i == 7 {
                assert(home_keys()[7] == 'k');
            } else if i == 8 {
                assert(home_keys()[8] == 'l');
            } else if i == 9 {
                assert(home_keys()[9] == ';');
            } else if i == 10 {
                assert(home_keys()[10] == '\'');
            }
        }
        if c == 'a' { assert(home_keys()[0] == lc); }
        if c == 'A' { assert(home_keys()[0] == lc); }
        if c == 's' { assert(home_keys()[1] == lc); }
        if c == 'S' { assert(home_keys()[1] == lc); }
        if c == 'd' { assert(home_keys()[2] == lc); }
        if c == 'D' { assert(home_keys()[2] == lc); }
        if c == 'f' { assert(home_keys()[3] == lc); }
        if c == 'F' { assert(home_keys()[3] == lc); }
        if c == 'g' { assert(home_keys()[4] == lc); }
        if c == 'G' { assert(home_keys()[4] == lc); }
        if c == 'h' { assert(home_keys()[5] == lc); }
        if c == 'H' { assert(home_keys()[5] == lc); }
        if c == 'j' { assert(home_keys()[6] == lc); }
        if c == 'J' { assert(home_keys()[6] == lc); }
        if c == 'k' { assert(home_keys()[7] == lc); }
        if c == 'K' { assert(home_keys()[7] == lc); }
        if c == 'l' { assert(home_keys()[8] == lc); }
        if c == 'L' { assert(home_keys()[8] == lc); }
        if c == ';' { assert(home_keys()[9] == lc); }
        if c == '\'' { assert(home_keys()[10] == lc); }
    }
}

/// Whether every counter a key press may increase is below its maximum.
pub fn stats_have_room(s: &DailyStats) -> (r: bool)
    ensures
        r == has_room(s),
{
    if s.total == u64::MAX || s.categories.letter == u64::MAX || s.categories.number == u64::MAX
        || s.categories.symbol == u64::MAX || s.categories.modifier == u64::MAX || s.backspace_count
        == u64::MAX || s.shift_count == u64::MAX || s.capslock_count == u64::MAX
        || s.regions.left_hand == u64::MAX || s.regions.right_hand == u64::MAX || s.regions.home_row
        == u64::MAX {
        return false;
    }
    let mut i: usize = 0;
    while i < s.chars.len()
        invariant
            i <= s.chars.len(),
            forall|k: int| 0 <= k < i ==> #[trigger] s.chars@[k].1 < u64::MAX,
        decreases s.chars.len() - i,
    {
        if s.chars[i].1 == u64::MAX {
            return false;
        }
        i = i + 1;
    }
    let mut j: usize = 0;
    while j < s.hourly_volume.len()
        invariant
            j <= s.hourly_volume.len(),
            forall|k: int| 0 <= k < j ==> #[trigger] s.hourly_volume@[k] < u64::MAX,
        decreases s.hourly_volume.len() - j,
    {
        if s.hourly_volume[j] == u64::MAX {
            return false;
        }
        j = j + 1;
    }
    true
}

/// The count recorded for key `k`: that of its first entry, 0 without one.
pub open spec fn key_count(s: Seq<(Seq<char>, int)>, k: Seq<char>) -> int
    decreases s.len(),
{
    if s.len() == 0 {
        0
    } else if s[0].0 == k {
        s[0].1
    } else {
        key_count(s.drop_first(), k)
    }
}

proof fn lemma_key_count_bump(s: Seq<(Seq<char>, int)>, a: Seq<char>, k: Seq<char>)
    ensures
        key_count(bump(s, a), k) == key_count(s, k) + if a == k { 1int } else { 0int },
    decreases s.len(),
{
    if s.len() == 0 {
        assert(bump(s, a).drop_first() =~= Seq::<(Seq<char>, int)>::empty());
        assert(key_count(bump(s, a).drop_first(), k) == 0);
        assert(bump(s, a)[0] == (a, 1int));
    } else if s[0].0 == a {
        assert(bump(s, a).drop_first() =~= s.drop_first());
        assert(bump(s, a)[0] == (a, s[0].1 + 1));
    } else {
        lemma_key_count_bump(s.drop_first(), a, k);
        assert(bump(s, a)[0] == s[0]);
        assert(bump(s, a).drop_first() =~= bump(s.drop_first(), a));
    }
}

/// Two statistics hold the same aggregate counts: the same date, total,
/// per-key counts, category, region and hourly counts (the per-key entries
/// may be listed in another order).
pub open spec fn same_counts(x: StatsView, y: StatsView) -> bool {
    &&& x.date == y.date
    &&& x.total == y.total
    &&& forall|k: Seq<char>| key_count(x.chars, k) == key_count(y.chars, k)
    &&& x.letter == y.letter && x.number == y.number && x.symbol == y.symbol && x.modifier == y.modifier
    &&& x.backspace == y.backspace && x.shift == y.shift && x.capslock == y.capslock
    &&& x.hourly == y.hourly
    &&& x.left_hand == y.left_hand && x.right_hand == y.right_hand && x.home_row == y.home_row
}

/// Only aggregates are kept, not the order of key presses: two presses
/// counted in either order give the same counts.
pub proof fn lemma_presses_commute(v: StatsView, a: Seq<char>, ha: int, b: Seq<char>, hb: int, n: KeyNaming)
    ensures
        same_counts(
            after_key(after_key(v, a, ha, n), b, hb, n),
            after_key(after_key(v, b, hb, n), a, ha, n),
        ),
{
    let x = after_key(after_key(v, a, ha, n), b, hb, n);
    let y = after_key(after_key(v, b, hb, n), a, ha, n);
    assert forall|k: Seq<char>| key_count(x.chars, k) == key_count(y.chars, k) by {
        lemma_key_count_bump(v.chars, a, k);
        lemma_key_count_bump(bump(v.chars, a), b, k);
        lemma_key_count_bump(v.chars, b, k);
        lemma_key_count_bump(bump(v.chars, b), a, k);
    }
    let h1 = after_key(v, a, ha, n).hourly;
    let h2 = after_key(v, b, hb, n).hourly;
    if 0 <= ha < v.hourly.len() && 0 <= hb < v.hourly.len() {
        if ha == hb {
            assert(x.hourly =~= y.hourly);
        } else {
            assert(x.hourly =~= y.hourly);
        }
    } else {
        assert(x.hourly =~= y.hourly);
    }
}

/// The statistics after `record_key` of `key` on the day `today` in hour
/// `hour`: a press counted on these statistics, or on a fresh day when they
/// belong to another day.
pub open spec fn recorded(v: StatsView, today: Seq<char>, key: Seq<char>, hour: int, n: KeyNaming) -> StatsView {
    after_key(if v.date == today { v } else { fresh_view(today) }, key, hour, n)
}

/// Recording two keys on one day gives the same counts in either order,
/// also when the first of them starts the day.
pub proof fn lemma_recording_order_free(v: StatsView, today: Seq<char>, a: Seq<char>, ha: int, b: Seq<char>, hb: int, n: KeyNaming)
    ensures
        same_counts(
            recorded(recorded(v, today, a, ha, n), today, b, hb, n),
            recorded(recorded(v, today, b, hb, n), today, a, ha, n),
        ),
{
    let start = if v.date == today { v } else { fresh_view(today) };
    assert(recorded(v, today, a, ha, n).date == today);
    assert(recorded(v, today, b, hb, n).date == today);
    lemma_presses_commute(start, a, ha, b, hb, n);
}

} // verus!
