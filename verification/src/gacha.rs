use vstd::prelude::*;

use crate::stats::{counters, sum_ints};

verus! {

/// The five rarity tiers of a pull, from the most common to the rarest.
#[derive(Debug, Clone, Copy, PartialEq, Eq, Structural)]
pub enum Rarity {
    Common,
    Uncommon,
    Rare,
    Epic,
    Legendary,
}

/// Position of a tier on the rarity ladder: 0 for Common up to 4 for Legendary.
pub open spec fn tier_level(r: Rarity) -> int {
    match r {
        Rarity::Common => 0,
        Rarity::Uncommon => 1,
        Rarity::Rare => 2,
        Rarity::Epic => 3,
        Rarity::Legendary => 4,
    }
}

/// The lowercase name of each tier.
pub open spec fn label_of(r: Rarity) -> Seq<char> {
    match r {
        Rarity::Common => "common"@,
        Rarity::Uncommon => "uncommon"@,
        Rarity::Rare => "rare"@,
        Rarity::Epic => "epic"@,
        Rarity::Legendary => "legendary"@,
    }
}

impl Rarity {
    /// The tier's lowercase name, as stored in pull metadata.
    pub fn label(&self) -> (r: &'static str)
        ensures
            r@ == label_of(*self),
    {
        match self {
            Rarity::Common => "common",
            Rarity::Uncommon => "uncommon",
            Rarity::Rare => "rare",
            Rarity::Epic => "epic",
            Rarity::Legendary => "legendary",
        }
    }
}

/// Number of hours with at least one keystroke.
pub open spec fn active_hours(s: Seq<int>) -> int
    decreases s.len(),
{
    if s.len() == 0 {
        0
    } else {
        active_hours(s.drop_last()) + if s.last() > 0 { 1int } else { 0int }
    }
}

/// The largest hourly volume, 0 for no hours.
pub open spec fn peak_hour(s: Seq<int>) -> int
    decreases s.len(),
{
    if s.len() == 0 {
        0
    } else if s.last() > peak_hour(s.drop_last()) {
        s.last()
    } else {
        peak_hour(s.drop_last())
    }
}

proof fn lemma_sum_ints_snoc(s: Seq<int>)
    requires
        s.len() > 0,
    ensures
        sum_ints(s) == sum_ints(s.drop_last()) + s.last(),
    decreases s.len(),
{
    if s.len() > 1 {
        lemma_sum_ints_snoc(s.drop_first());
        assert(s.drop_first().drop_last() =~= s.drop_last().drop_first());
    } else {
        assert(s.drop_first() =~= Seq::<int>::empty());
        assert(s.drop_last() =~= Seq::<int>::empty());
    }
}

proof fn lemma_sum_nonneg(s: Seq<int>)
    requires
        forall|k: int| 0 <= k < s.len() ==> s[k] >= 0,
    ensures
        sum_ints(s) >= 0,
    decreases s.len(),
{
    if s.len() > 0 {
        lemma_sum_nonneg(s.drop_first());
    }
}

proof fn lemma_sum_split(s: Seq<int>, i: int)
    requires
        0 <= i <= s.len(),
    ensures
        sum_ints(s) == sum_ints(s.take(i)) + sum_ints(s.skip(i)),
    decreases i,
{
    if i == 0 {
        assert(s.take(0) =~= Seq::<int>::empty());
        assert(s.skip(0) =~= s);
    } else {
        let d = s.drop_first();
        lemma_sum_split(d, i - 1);
        assert(s.take(i).drop_first() =~= d.take(i - 1));
        assert(s.skip(i) =~= d.skip(i - 1));
    }
}

proof fn lemma_sum_prefix_bound(s: Seq<int>, i: int)
    requires
        0 <= i <= s.len(),
        forall|k: int| 0 <= k < s.len() ==> s[k] >= 0,
    ensures
        sum_ints(s.take(i)) <= sum_ints(s),
        sum_ints(s.take(i)) >= 0,
{
    lemma_sum_split(s, i);
    lemma_sum_nonneg(s.skip(i));
    lemma_sum_nonneg(s.take(i));
}

/// The hours of typing behind the colour roll: how many hours saw typing,
/// the keystrokes in them, and the busiest hour's count.
pub fn hourly_activity(hourly: &Vec<u64>) -> (r: (usize, u64, u64))
    requires
        sum_ints(counters(hourly@)) <= u64::MAX,
    ensures
        r.0 as int == active_hours(counters(hourly@)),
        r.1 as int == sum_ints(counters(hourly@)),
        r.2 as int == peak_hour(counters(hourly@)),
{
    let ghost c = counters(hourly@);
    let mut active: usize = 0;
    let mut sum: u64 = 0;
    let mut peak: u64 = 0;
    let mut i: usize = 0;
    while i < hourly.len()
        invariant
            i <= hourly.len(),
            c == counters(hourly@),
            sum_ints(c) <= u64::MAX,
            active as int == active_hours(c.take(i as int)),
            active <= i,
            sum as int == sum_ints(c.take(i as int)),
            peak as int == peak_hour(c.take(i as int)),
        decreases hourly.len() - i,
    {
        assert(c.take(i + 1).drop_last() =~= c.take(i as int));
        proof {
            lemma_sum_ints_snoc(c.take(i + 1));
            lemma_sum_prefix_bound(c, i + 1);
        }
        let v = hourly[i];
        if v > 0 {
            active = active + 1;
        }
        sum = sum + v;
        if v > peak {
            peak = v;
        }
        i = i + 1;
    }
    assert(c.take(hourly.len() as int) =~= c);
    (active, sum, peak)
}

} // verus!
