//! Game configuration helpers: levels earned from xp, and the pieces used to
//! load and verify the configuration.

use vstd::prelude::*;

pub mod evalput;
pub mod verify;
pub mod complex;
pub mod game;
pub mod checking;
pub mod report;

pub use evalput::{Evalput, RawEvalput};
pub use verify::{FromFile, RawConfig, VerifError, VerifNote, VerifResult};

verus! {

/// The xp that the first `n` levels of `levels` cost together.
pub open spec fn level_prefix(levels: Seq<usize>, n: int) -> int
    decreases n,
{
    if n <= 0 || n > levels.len() {
        0
    } else {
        level_prefix(levels, n - 1) + levels[n - 1]
    }
}

/// The first level at or after `from` that `xp` cannot complete (that is, whose
/// running total exceeds `xp`), or `levels.len()` when `xp` completes them all.
pub open spec fn first_level_beyond(levels: Seq<usize>, xp: int, from: int) -> int
    decreases levels.len() - from,
{
    if from < 0 || from >= levels.len() {
        levels.len() as int
    } else if level_prefix(levels, from + 1) > xp {
        from
    } else {
        first_level_beyond(levels, xp, from + 1)
    }
}

/// Where some amount of xp stands among a list of levels.
pub struct LevelInfo {
    pub xp_so_far: usize,
    pub xp_to_go: usize,
    pub total_level_xp: usize,
    pub last_unlocked_index: usize,
}

/// The level info the xp `your_xp` earns among `level_xps`.
pub open spec fn level_info_spec(your_xp: usize, level_xps: Seq<usize>) -> (usize, usize, usize, usize) {
    let p = first_level_beyond(level_xps, your_xp as int, 0);
    if p < level_xps.len() {
        let into = your_xp - level_prefix(level_xps, p);
        ((level_xps[p] - into) as usize, into as usize, level_xps[p], p as usize)
    } else {
        (0, 0, 0, level_xps.len() as usize)
    }
}

/// `first_level_beyond` lands between `from` and the length; every level it passes
/// over is completed, and the one it stops at is not.
pub proof fn lemma_first_level_beyond(levels: Seq<usize>, xp: int, from: int)
    requires
        0 <= from <= levels.len(),
    ensures
        from <= first_level_beyond(levels, xp, from) <= levels.len(),
        forall|j: int|
            from <= j < first_level_beyond(levels, xp, from) ==> #[trigger] level_prefix(levels, j + 1)
                <= xp,
        first_level_beyond(levels, xp, from) < levels.len() ==> level_prefix(
            levels,
            first_level_beyond(levels, xp, from) + 1,
        ) > xp,
    decreases levels.len() - from,
{
    if from < levels.len() && level_prefix(levels, from + 1) <= xp {
        lemma_first_level_beyond(levels, xp, from + 1);
    }
}

/// Walks the levels, spending `your_xp` on each in turn, and stops at the first
/// level it cannot pay for in full.
pub fn max_level_info(your_xp: usize, level_xps: &[usize]) -> (r: LevelInfo)
    ensures
        (r.xp_so_far, r.xp_to_go, r.total_level_xp, r.last_unlocked_index) == level_info_spec(
            your_xp,
            level_xps@,
        ),
{
    let ghost s = level_xps@;
    proof {
        lemma_first_level_beyond(s, your_xp as int, 0);
    }
    let mut remaining: usize = your_xp;
    let mut i: usize = 0;
    while i < level_xps.len()
        invariant
            s == level_xps@,
            i <= s.len(),
            remaining == your_xp - level_prefix(s, i as int),
            first_level_beyond(s, your_xp as int, 0) == first_level_beyond(s, your_xp as int, i as int),
        decreases s.len() - i,
    {
        let xp = level_xps[i];
        assert(level_prefix(s, i + 1) == level_prefix(s, i as int) + s[i as int]);
        match remaining.checked_sub(xp) {
            None => {
                assert(first_level_beyond(s, your_xp as int, i as int) == i);
                return LevelInfo {
                    xp_to_go: remaining,
                    xp_so_far: xp - remaining,
                    total_level_xp: xp,
                    last_unlocked_index: i,
                };
            },
            Some(subbed_xp) => {
                remaining = subbed_xp;
            },
        }
        i = i + 1;
    }
    LevelInfo { xp_so_far: 0, xp_to_go: 0, total_level_xp: 0, last_unlocked_index: level_xps.len() }
}

/// The index of the first level that `your_xp` cannot complete.
pub fn max_level_index(your_xp: usize, level_xps: &[usize]) -> (r: usize)
    ensures
        r == first_level_beyond(level_xps@, your_xp as int, 0),
        r <= level_xps@.len(),
{
    proof {
        lemma_first_level_beyond(level_xps@, your_xp as int, 0);
    }
    let info = max_level_info(your_xp, level_xps);
    assert(info.last_unlocked_index == level_info_spec(your_xp, level_xps@).3);
    let n = level_xps.len();
    assert(n == level_xps@.len());
    info.last_unlocked_index
}

/// The xp already spent in a level and the xp still to spend on it add up to
/// what the level costs.
pub proof fn law_level_xp_adds_up(your_xp: usize, level_xps: Seq<usize>)
    ensures
        ({
            let (so_far, to_go, total, _) = level_info_spec(your_xp, level_xps);
            so_far + to_go == total
        }),
{
    lemma_first_level_beyond(level_xps, your_xp as int, 0);
    let p = first_level_beyond(level_xps, your_xp as int, 0);
    if p < level_xps.len() {
        assert(level_prefix(level_xps, p + 1) == level_prefix(level_xps, p) + level_xps[p]);
        if p > 0 {
            assert(level_prefix(level_xps, (p - 1) + 1) <= your_xp);
        }
    }
}

/// Every level before the last unlocked index is paid for, and more xp never
/// unlocks fewer levels.
pub proof fn law_level_index_monotone(xp1: usize, xp2: usize, level_xps: Seq<usize>)
    requires
        xp1 <= xp2,
    ensures
        first_level_beyond(level_xps, xp1 as int, 0) <= first_level_beyond(level_xps, xp2 as int, 0),
        level_prefix(level_xps, first_level_beyond(level_xps, xp1 as int, 0)) <= xp1,
{
    lemma_first_level_beyond(level_xps, xp1 as int, 0);
    lemma_first_level_beyond(level_xps, xp2 as int, 0);
    let p1 = first_level_beyond(level_xps, xp1 as int, 0);
    let p2 = first_level_beyond(level_xps, xp2 as int, 0);
    if p2 < p1 {
        assert(level_prefix(level_xps, p2 + 1) <= xp1);
    }
    if p1 > 0 {
        assert(level_prefix(level_xps, (p1 - 1) + 1) <= xp1);
    }
}

} // verus!
