//! Advancements: the levels a plant or a hackstead climbs as it earns xp.
//!
//! An `AdvancementSet` is a base advancement followed by the rest, in order.
//! Each advancement costs the xp it names on top of those before it, so the
//! advancement that is "current" for some amount of xp is the last one whose
//! running xp total does not exceed that amount.

use vstd::prelude::*;
use vstd::std_specs::cmp::{PartialEqSpec, PartialEqSpecImpl};

verus! {

/// One level of an advancement set.
#[derive(Clone, Debug)]
pub struct Advancement<K> {
    pub kind: K,
    pub xp: u64,
    pub art: String,
    pub title: String,
    pub description: String,
    pub achiever_title: String,
}

impl<K: PartialEq> PartialEq for Advancement<K> {
    fn eq(&self, other: &Self) -> (r: bool) {
        self.kind == other.kind && self.xp == other.xp && self.art == other.art && self.title
            == other.title && self.description == other.description && self.achiever_title
            == other.achiever_title
    }
}

impl<K: PartialEq> PartialEqSpecImpl for Advancement<K> {
    open spec fn obeys_eq_spec() -> bool {
        <K as PartialEqSpec>::obeys_eq_spec()
    }

    open spec fn eq_spec(&self, other: &Self) -> bool {
        same_advancement(*self, *other)
    }
}

/// Two advancements agree in every field.
pub open spec fn same_advancement<K: PartialEq>(a: Advancement<K>, b: Advancement<K>) -> bool {
    &&& <K as PartialEqSpec>::eq_spec(&a.kind, &b.kind)
    &&& a.xp == b.xp
    &&& a.art@ == b.art@
    &&& a.title@ == b.title@
    &&& a.description@ == b.description@
    &&& a.achiever_title@ == b.achiever_title@
}

/// The xp that the first `n` advancements of `s` cost together.
pub open spec fn cumulative_xp<K>(s: Seq<Advancement<K>>, n: int) -> int
    decreases n,
{
    if n <= 0 || n > s.len() {
        0
    } else {
        cumulative_xp(s, n - 1) + s[n - 1].xp
    }
}

/// The first index at or after `from` whose running total, itself included,
/// exceeds `xp`; `s.len()` when there is none.
pub open spec fn first_exceeding<K>(s: Seq<Advancement<K>>, xp: int, from: int) -> int
    decreases s.len() - from,
{
    if from < 0 || from >= s.len() {
        s.len() as int
    } else if cumulative_xp(s, from + 1) > xp {
        from
    } else {
        first_exceeding(s, xp, from + 1)
    }
}

/// `*r` as an option of values.
pub open spec fn deref_option<T>(r: Option<&T>) -> Option<T> {
    match r {
        Some(x) => Some(*x),
        None => None,
    }
}

/// The advancements of a set, as a list of levels.
#[derive(Clone, Debug)]
pub struct AdvancementSet<K> {
    pub base: Advancement<K>,
    pub rest: Vec<Advancement<K>>,
}

impl<K> AdvancementSet<K> {
    /// Every advancement, the base first.
    pub open spec fn all_spec(&self) -> Seq<Advancement<K>> {
        seq![self.base].add(self.rest@)
    }

    /// The index of the current advancement for `xp`.
    pub open spec fn position_spec(&self, xp: u64) -> int {
        let p = first_exceeding(self.all_spec(), xp as int, 0);
        if p == 0 {
            0
        } else {
            p - 1
        }
    }

    /// The advancement at `index`, the base being at index 0.
    pub open spec fn get_spec(&self, index: int) -> Option<Advancement<K>> {
        if 0 <= index < self.all_spec().len() {
            Some(self.all_spec()[index])
        } else {
            None
        }
    }

    /// The advancement that follows the current one, if any.
    pub open spec fn next_spec(&self, xp: u64) -> Option<Advancement<K>> {
        self.get_spec(self.position_spec(xp) + 1)
    }

    /// Every advancement, the base first.
    pub fn all(&self) -> (r: Vec<&Advancement<K>>)
        ensures
            r@.len() == self.all_spec().len(),
            forall|i: int| 0 <= i < r@.len() ==> *r@[i] == self.all_spec()[i],
    {
        let mut r: Vec<&Advancement<K>> = Vec::new();
        r.push(&self.base);
        let mut i: usize = 0;
        while i < self.rest.len()
            invariant
                i <= self.rest.len(),
                r@.len() == i + 1,
                *r@[0] == self.base,
                forall|j: int| 1 <= j <= i ==> *r@[j] == self.rest@[j - 1],
            decreases self.rest.len() - i,
        {
            r.push(&self.rest[i]);
            i = i + 1;
        }
        r
    }

    /// The base advancement and those of the rest that `xp` has unlocked.
    pub fn unlocked(&self, xp: u64) -> (r: Vec<&Advancement<K>>)
        ensures
            r@.len() == self.position_spec(xp) + 1,
            self.position_spec(xp) <= self.rest@.len(),
            forall|i: int| 0 <= i < r@.len() ==> *r@[i] == self.all_spec()[i],
    {
        let n = self.current_position(xp);
        let mut r: Vec<&Advancement<K>> = Vec::new();
        r.push(&self.base);
        let mut i: usize = 0;
        while i < n
            invariant
                n <= self.rest.len(),
                n == self.position_spec(xp),
                i <= n,
                r@.len() == i + 1,
                *r@[0] == self.base,
                forall|j: int| 1 <= j <= i ==> *r@[j] == self.rest@[j - 1],
            decreases n - i,
        {
            r.push(&self.rest[i]);
            i = i + 1;
        }
        r
    }

    /// The advancement at `index`, the base being at index 0.
    pub fn get(&self, index: usize) -> (r: Option<&Advancement<K>>)
        ensures
            deref_option(r) == self.get_spec(index as int),
    {
        if index == 0 {
            Some(&self.base)
        } else if index - 1 < self.rest.len() {
            Some(&self.rest[index - 1])
        } else {
            None
        }
    }

    /// The advancement that `xp` has most recently unlocked.
    pub fn current(&self, xp: u64) -> (r: &Advancement<K>)
        ensures
            Some(*r) == self.get_spec(self.position_spec(xp)),
    {
        let p = self.current_position(xp);
        match self.get(p) {
            Some(a) => a,
            None => &self.base,
        }
    }

    /// The advancement that will be unlocked next, if there is one.
    pub fn next(&self, xp: u64) -> (r: Option<&Advancement<K>>)
        ensures
            deref_option(r) == self.next_spec(xp),
    {
        let p = self.current_position(xp);
        if p < self.rest.len() {
            self.get(p + 1)
        } else {
            None
        }
    }

    /// The index of the current advancement for `xp` (the base being at index 0).
    pub fn current_position(&self, xp: u64) -> (r: usize)
        ensures
            r == self.position_spec(xp),
            r <= self.rest@.len(),
    {
        let ghost s = self.all_spec();
        proof {
            lemma_first_exceeding_bounds(s, xp as int, 0);
        }
        assert(s[0] == self.base);
        assert(cumulative_xp(s, 0) == 0);
        assert(cumulative_xp(s, 1) == self.base.xp);
        // The base comes first.
        if self.base.xp > xp {
            assert(first_exceeding(s, xp as int, 0) == 0);
            return 0;
        }
        let mut state: u64 = self.base.xp;
        let mut j: usize = 0;
        while j < self.rest.len()
            invariant
                s == self.all_spec(),
                s.len() == self.rest@.len() + 1,
                j <= self.rest.len(),
                state == cumulative_xp(s, j + 1),
                state <= xp,
                first_exceeding(s, xp as int, 0) == first_exceeding(s, xp as int, j + 1),
            decreases self.rest.len() - j,
        {
            let x = self.rest[j].xp;
            assert(x == s[j + 1].xp);
            match state.checked_add(x) {
                Some(next) if next <= xp => {
                    state = next;
                    j = j + 1;
                },
                _ => {
                    assert(first_exceeding(s, xp as int, j + 1) == j + 1);
                    return j;
                },
            }
        }
        assert(first_exceeding(s, xp as int, j + 1) == s.len());
        j
    }

    /// Raises `*xp` by `amt`, returning the advancement that the raise unlocked,
    /// if it unlocked one that has a successor.
    pub fn increase_xp(&self, xp: &mut u64, amt: u64) -> (r: Option<&Advancement<K>>) where
        K: PartialEq,
        requires
            *old(xp) + amt <= u64::MAX,
        ensures
            *final(xp) == *old(xp) + amt,
            r is Some ==> deref_option(r) == self.next_spec(
                if *final(xp) == 0 {
                    0
                } else {
                    (*final(xp) - 1) as u64
                },
            ) && self.next_spec(*final(xp)) is Some,
            <K as PartialEqSpec>::obeys_eq_spec() ==> ({
                let before = self.next_spec(
                    if *final(xp) == 0 {
                        0
                    } else {
                        (*final(xp) - 1) as u64
                    },
                );
                let after = self.next_spec(*final(xp));
                (r is Some <==> (before is Some && after is Some && !same_advancement(
                    before.unwrap(),
                    after.unwrap(),
                )))
            }),
    {
        *xp = *xp + amt;
        let prev = match xp.checked_sub(1) {
            Some(p) => p,
            None => 0,
        };
        match self.next(prev) {
            Some(x) => match self.next(*xp) {
                Some(n) => if *x != *n {
                    Some(x)
                } else {
                    None
                },
                None => None,
            },
            None => None,
        }
    }
}

/// `first_exceeding` lands between `from` and the length, and every index it
/// passes over keeps the running total within `xp`.
pub proof fn lemma_first_exceeding_bounds<K>(s: Seq<Advancement<K>>, xp: int, from: int)
    requires
        0 <= from <= s.len(),
    ensures
        from <= first_exceeding(s, xp, from) <= s.len(),
        forall|j: int|
            from <= j < first_exceeding(s, xp, from) ==> #[trigger] cumulative_xp(s, j + 1) <= xp,
        first_exceeding(s, xp, from) < s.len() ==> cumulative_xp(
            s,
            first_exceeding(s, xp, from) + 1,
        ) > xp,
    decreases s.len() - from,
{
    if from < s.len() && cumulative_xp(s, from + 1) <= xp {
        lemma_first_exceeding_bounds(s, xp, from + 1);
    }
}

/// Running totals never decrease as more advancements are counted.
pub proof fn lemma_cumulative_monotone<K>(s: Seq<Advancement<K>>, m: int, n: int)
    requires
        0 <= m <= n <= s.len(),
    ensures
        cumulative_xp(s, m) <= cumulative_xp(s, n),
    decreases n - m,
{
    if m < n {
        lemma_cumulative_monotone(s, m, n - 1);
    }
}

} // verus!

verus! {

/// Once the base advancement is affordable, the advancement that is current
/// for some amount of xp never costs more than that amount.
pub proof fn law_current_within_xp<K>(set: AdvancementSet<K>, xp: u64)
    requires
        set.base.xp <= xp,
    ensures
        set.get_spec(set.position_spec(xp)) matches Some(a) && a.xp <= xp,
{
    let s = set.all_spec();
    assert(s[0] == set.base);
    assert(cumulative_xp(s, 1) == cumulative_xp(s, 0) + s[0].xp);
    lemma_first_exceeding_bounds(s, xp as int, 0);
    let p = first_exceeding(s, xp as int, 0);
    assert(p != 0);
    assert(cumulative_xp(s, (p - 1) + 1) <= xp);
    assert(cumulative_xp(s, p) == cumulative_xp(s, p - 1) + s[p - 1].xp);
    lemma_cumulative_nonnegative(s, p - 1);
}

/// More xp never moves the current advancement backwards.
pub proof fn law_position_monotone<K>(set: AdvancementSet<K>, xp1: u64, xp2: u64)
    requires
        xp1 <= xp2,
    ensures
        set.position_spec(xp1) <= set.position_spec(xp2),
{
    let s = set.all_spec();
    lemma_first_exceeding_bounds(s, xp1 as int, 0);
    lemma_first_exceeding_bounds(s, xp2 as int, 0);
    let p1 = first_exceeding(s, xp1 as int, 0);
    let p2 = first_exceeding(s, xp2 as int, 0);
    if p2 < p1 {
        assert(cumulative_xp(s, p2 + 1) <= xp1);
    }
}

/// The current advancement is always one of the set's advancements.
pub proof fn law_current_exists<K>(set: AdvancementSet<K>, xp: u64)
    ensures
        0 <= set.position_spec(xp) <= set.rest@.len(),
        set.get_spec(set.position_spec(xp)) is Some,
{
    lemma_first_exceeding_bounds(set.all_spec(), xp as int, 0);
}

/// Running totals are never negative.
pub proof fn lemma_cumulative_nonnegative<K>(s: Seq<Advancement<K>>, n: int)
    ensures
        cumulative_xp(s, n) >= 0,
    decreases n,
{
    if n > 0 && n <= s.len() {
        lemma_cumulative_nonnegative(s, n - 1);
    }
}

} // verus!
