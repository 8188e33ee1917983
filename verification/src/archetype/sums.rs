//! Summing up the hackstead advancements a steader has unlocked.

use vstd::prelude::*;
use super::{Advancement, AdvancementSet, HacksteadAdvancement, HacksteadAdvancementKind,
    HacksteadAdvancementSum};

verus! {

/// The values behind a sequence of references.
pub open spec fn deref_seq<T>(s: Seq<&T>) -> Seq<T> {
    s.map_values(|x: &T| *x)
}

/// The xp of all these advancements together.
pub open spec fn xp_total(s: Seq<HacksteadAdvancement>) -> int
    decreases s.len(),
{
    if s.len() == 0 {
        0
    } else {
        xp_total(s.drop_last()) + s.last().xp
    }
}

/// The pieces of land that all these advancements grant together.
pub open spec fn land_total(s: Seq<HacksteadAdvancement>) -> int
    decreases s.len(),
{
    if s.len() == 0 {
        0
    } else {
        land_total(s.drop_last()) + match s.last().kind {
            HacksteadAdvancementKind::Land { pieces } => pieces as int,
        }
    }
}

/// The sum of these advancements, when it fits.
pub open spec fn sum_spec(s: Seq<HacksteadAdvancement>) -> HacksteadAdvancementSum {
    HacksteadAdvancementSum { land: land_total(s) as u32, xp: xp_total(s) as u64 }
}

/// The sum of these advancements fits in the sum's fields.
pub open spec fn sum_fits(s: Seq<HacksteadAdvancement>) -> bool {
    xp_total(s) <= u64::MAX && land_total(s) <= u32::MAX
}

/// Totals of a prefix never exceed the totals of the whole.
pub proof fn lemma_totals_prefix(s: Seq<HacksteadAdvancement>, i: int)
    requires
        0 <= i <= s.len(),
    ensures
        0 <= xp_total(s.take(i)) <= xp_total(s),
        0 <= land_total(s.take(i)) <= land_total(s),
    decreases s.len(),
{
    if i == s.len() {
        assert(s.take(i) =~= s);
        lemma_totals_nonnegative(s);
    } else {
        lemma_totals_prefix(s.drop_last(), i);
        assert(s.drop_last().take(i) =~= s.take(i));
    }
}

/// Totals are never negative.
pub proof fn lemma_totals_nonnegative(s: Seq<HacksteadAdvancement>)
    ensures
        xp_total(s) >= 0,
        land_total(s) >= 0,
    decreases s.len(),
{
    if s.len() > 0 {
        lemma_totals_nonnegative(s.drop_last());
    }
}

impl HacksteadAdvancementSum {
    /// Adds up the xp and the land of the unlocked advancements.
    pub fn new(unlocked: &[&HacksteadAdvancement]) -> (r: Self)
        requires
            sum_fits(deref_seq(unlocked@)),
        ensures
            r == sum_spec(deref_seq(unlocked@)),
    {
        let ghost s = deref_seq(unlocked@);
        let mut xp: u64 = 0;
        let mut land: u32 = 0;
        let mut i: usize = 0;
        while i < unlocked.len()
            invariant
                s == deref_seq(unlocked@),
                sum_fits(s),
                i <= unlocked@.len(),
                xp == xp_total(s.take(i as int)),
                land == land_total(s.take(i as int)),
            decreases unlocked@.len() - i,
        {
            let a: &HacksteadAdvancement = unlocked[i];
            proof {
                assert(s.take(i + 1).drop_last() =~= s.take(i as int));
                assert(s.take(i + 1).last() == *a);
                lemma_totals_prefix(s, i + 1);
            }
            xp = xp + a.xp;
            let pieces = match a.kind {
                HacksteadAdvancementKind::Land { pieces } => pieces,
            };
            land = land + pieces;
            i = i + 1;
        }
        assert(s.take(i as int) =~= s);
        HacksteadAdvancementSum { land, xp }
    }

    /// Every hackstead advancement counts towards its own sum.
    pub fn filter_base(_a: &HacksteadAdvancement) -> (r: bool)
        ensures
            r,
    {
        true
    }
}

/// Appends the references of `extra` to `v`.
fn push_all<'a>(v: &mut Vec<&'a HacksteadAdvancement>, extra: &[&'a HacksteadAdvancement])
    ensures
        deref_seq(final(v)@) == deref_seq(old(v)@) + deref_seq(extra@),
{
    let ghost start = deref_seq(v@);
    let mut i: usize = 0;
    while i < extra.len()
        invariant
            i <= extra@.len(),
            deref_seq(v@) == start + deref_seq(extra@).take(i as int),
        decreases extra@.len() - i,
    {
        let ghost before = v@;
        v.push(extra[i]);
        assert(v@ == before.push(extra@[i as int]));
        assert(deref_seq(v@) =~= deref_seq(before).push(*extra@[i as int]));
        assert(deref_seq(extra@).take(i + 1) =~= deref_seq(extra@).take(i as int).push(
            *extra@[i as int],
        ));
        i = i + 1;
        assert(deref_seq(v@) =~= start + deref_seq(extra@).take(i as int));
    }
    assert(deref_seq(extra@).take(i as int) =~= deref_seq(extra@));
}

impl AdvancementSet<HacksteadAdvancementKind> {
    /// The unlocked advancements, as values.
    pub open spec fn unlocked_spec(&self, xp: u64) -> Seq<HacksteadAdvancement> {
        self.all_spec().take(self.position_spec(xp) + 1)
    }

    /// The sum of the advancements `xp` has unlocked, plus the extra ones.
    pub fn sum(&self, xp: u64, extra_advancements: &[&HacksteadAdvancement]) -> (r:
        HacksteadAdvancementSum)
        requires
            sum_fits(self.unlocked_spec(xp) + deref_seq(extra_advancements@)),
        ensures
            r == sum_spec(self.unlocked_spec(xp) + deref_seq(extra_advancements@)),
    {
        let unlocked = self.unlocked(xp);
        let mut v: Vec<&HacksteadAdvancement> = Vec::new();
        let mut i: usize = 0;
        while i < unlocked.len()
            invariant
                i <= unlocked@.len(),
                unlocked@.len() == self.position_spec(xp) + 1,
                self.position_spec(xp) <= self.rest@.len(),
                forall|j: int| 0 <= j < unlocked@.len() ==> *unlocked@[j] == self.all_spec()[j],
                deref_seq(v@) == self.unlocked_spec(xp).take(i as int),
            decreases unlocked@.len() - i,
        {
            let a = unlocked[i];
            let ghost before = v@;
            if HacksteadAdvancementSum::filter_base(a) {
                v.push(a);
            }
            assert(deref_seq(v@) =~= deref_seq(before).push(*a));
            assert(self.unlocked_spec(xp).take(i + 1) =~= self.unlocked_spec(xp).take(i as int).push(
                *a,
            ));
            i = i + 1;
            assert(deref_seq(v@) =~= self.unlocked_spec(xp).take(i as int));
        }
        assert(self.unlocked_spec(xp).take(i as int) =~= self.unlocked_spec(xp));
        push_all(&mut v, extra_advancements);
        HacksteadAdvancementSum::new(v.as_slice())
    }

    /// The sum of the advancements `xp` has unlocked.
    pub fn raw_sum(&self, xp: u64) -> (r: HacksteadAdvancementSum)
        requires
            sum_fits(self.unlocked_spec(xp)),
        ensures
            r == sum_spec(self.unlocked_spec(xp)),
    {
        let unlocked = self.unlocked(xp);
        assert(deref_seq(unlocked@) =~= self.unlocked_spec(xp));
        HacksteadAdvancementSum::new(unlocked.as_slice())
    }

    /// The sum of every advancement of the set, plus the extra ones.
    pub fn max(&self, extra_advancements: &[&HacksteadAdvancement]) -> (r: HacksteadAdvancementSum)
        requires
            sum_fits(self.all_spec() + deref_seq(extra_advancements@)),
        ensures
            r == sum_spec(self.all_spec() + deref_seq(extra_advancements@)),
    {
        let mut v = self.all();
        assert(deref_seq(v@) =~= self.all_spec());
        push_all(&mut v, extra_advancements);
        HacksteadAdvancementSum::new(v.as_slice())
    }
}

/// The sum of the advancements that some xp has unlocked never exceeds the sum
/// of all the advancements: `raw_sum` is bounded by `max` with no extras.
pub proof fn law_raw_sum_within_max(set: AdvancementSet<HacksteadAdvancementKind>, xp: u64)
    ensures
        xp_total(set.unlocked_spec(xp)) <= xp_total(set.all_spec()),
        land_total(set.unlocked_spec(xp)) <= land_total(set.all_spec()),
{
    let n = set.position_spec(xp) + 1;
    super::advancement::lemma_first_exceeding_bounds(set.all_spec(), xp as int, 0);
    assert(set.all_spec().len() == set.rest@.len() + 1);
    lemma_totals_prefix(set.all_spec(), n);
}

/// More xp never unlocks a smaller sum.
pub proof fn law_raw_sum_monotone(set: AdvancementSet<HacksteadAdvancementKind>, xp1: u64, xp2: u64)
    requires
        xp1 <= xp2,
    ensures
        xp_total(set.unlocked_spec(xp1)) <= xp_total(set.unlocked_spec(xp2)),
        land_total(set.unlocked_spec(xp1)) <= land_total(set.unlocked_spec(xp2)),
{
    let s = set.all_spec();
    super::advancement::law_position_monotone(set, xp1, xp2);
    super::advancement::lemma_first_exceeding_bounds(s, xp2 as int, 0);
    super::advancement::lemma_first_exceeding_bounds(s, xp1 as int, 0);
    assert(s.len() == set.rest@.len() + 1);
    let n1 = set.position_spec(xp1) + 1;
    let n2 = set.position_spec(xp2) + 1;
    assert(n1 <= n2 <= s.len());
    lemma_totals_prefix(s.take(n2), n1);
    assert(s.take(n2).take(n1) =~= s.take(n1));
}

/// Extra advancements given to `sum` add to what `raw_sum` gives.
pub proof fn law_sum_adds_extras(
    set: AdvancementSet<HacksteadAdvancementKind>,
    xp: u64,
    extra: Seq<HacksteadAdvancement>,
)
    ensures
        xp_total(set.unlocked_spec(xp) + extra) == xp_total(set.unlocked_spec(xp)) + xp_total(extra),
        land_total(set.unlocked_spec(xp) + extra) == land_total(set.unlocked_spec(xp)) + land_total(
            extra,
        ),
{
    lemma_totals_concat(set.unlocked_spec(xp), extra);
}

/// Totals of two sequences one after the other add up.
pub proof fn lemma_totals_concat(a: Seq<HacksteadAdvancement>, b: Seq<HacksteadAdvancement>)
    ensures
        xp_total(a + b) == xp_total(a) + xp_total(b),
        land_total(a + b) == land_total(a) + land_total(b),
    decreases b.len(),
{
    if b.len() == 0 {
        assert(a + b =~= a);
    } else {
        lemma_totals_concat(a, b.drop_last());
        assert((a + b).drop_last() =~= a + b.drop_last());
        assert((a + b).last() == b.last());
    }
}

} // verus!
