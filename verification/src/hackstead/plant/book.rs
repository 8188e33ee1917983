//! The buff book: each plant's buffs, with the buffs that plants lend their
//! neighbors spread to the other plants of the hackstead.

use vstd::prelude::*;
use crate::id::TileId;
use super::buff::{Buff, Source};

verus! {

/// One plant's page of the book: the tile it grows on and its buffs, each with
/// where it comes from.
pub struct PlantPage<'a> {
    pub tile: TileId,
    pub buffs: Vec<(&'a Buff, Source)>,
}

/// A buff and its source, as values.
pub open spec fn entry_view(e: (&Buff, Source)) -> (Buff, Source) {
    (*e.0, e.1)
}

/// A page's buffs, as values.
pub open spec fn page_entries(p: PlantPage) -> Seq<(Buff, Source)> {
    p.buffs@.map_values(|e: (&Buff, Source)| entry_view(e))
}

/// The buffs of each page, page by page.
pub open spec fn book_view(pages: Seq<PlantPage>) -> Seq<Seq<(Buff, Source)>> {
    pages.map_values(|p: PlantPage| page_entries(p))
}

/// The buffs a page keeps for itself: all but those it lends its neighbors, in order.
pub open spec fn kept(s: Seq<(Buff, Source)>) -> Seq<(Buff, Source)>
    decreases s.len(),
{
    if s.len() == 0 {
        Seq::empty()
    } else {
        kept(s.drop_last()) + (if s.last().0 is Neighbor {
            Seq::empty()
        } else {
            seq![s.last()]
        })
    }
}

/// What a lent buff becomes on a neighbor: the buff inside, coming from the
/// neighbor's source.
pub open spec fn lent(e: (Buff, Source)) -> (Buff, Source) {
    match e.0 {
        Buff::Neighbor(b) => (*b, Source::Neighbor(Box::new(e.1))),
        _ => e,
    }
}

/// The buffs a page lends its neighbors, as they arrive there, in order.
pub open spec fn outgoing(s: Seq<(Buff, Source)>) -> Seq<(Buff, Source)>
    decreases s.len(),
{
    if s.len() == 0 {
        Seq::empty()
    } else {
        outgoing(s.drop_last()) + (if s.last().0 is Neighbor {
            seq![lent(s.last())]
        } else {
            Seq::empty()
        })
    }
}

/// What page `k` receives from the other pages, page by page in order.
pub open spec fn incoming(pages: Seq<Seq<(Buff, Source)>>, k: int) -> Seq<(Buff, Source)>
    decreases pages.len(),
{
    if pages.len() == 0 {
        Seq::empty()
    } else {
        incoming(pages.drop_last(), k) + (if pages.len() - 1 == k {
            Seq::empty()
        } else {
            outgoing(pages.last())
        })
    }
}

/// One round of spreading: each page keeps its own buffs but those it lends, and
/// receives what every other page lends.
pub open spec fn spread_round_spec(pages: Seq<Seq<(Buff, Source)>>) -> Seq<Seq<(Buff, Source)>> {
    Seq::new(pages.len(), |k: int| kept(pages[k]) + incoming(pages, k))
}

/// Whether some page still holds a buff to lend.
pub open spec fn has_neighbor_buffs(pages: Seq<Seq<(Buff, Source)>>) -> bool {
    exists|k: int, i: int| 0 <= k < pages.len() && 0 <= i < pages[k].len() && (#[trigger] pages[k][i]).0 is Neighbor
}

/// `n` rounds of spreading.
pub open spec fn spread_rounds(pages: Seq<Seq<(Buff, Source)>>, n: nat) -> Seq<Seq<(Buff, Source)>>
    decreases n,
{
    if n == 0 {
        pages
    } else {
        spread_round_spec(spread_rounds(pages, (n - 1) as nat))
    }
}

/// How deeply a buff nests lent buffs.
pub open spec fn depth(b: Buff) -> nat
    decreases b,
{
    match b {
        Buff::Neighbor(inner) => 1 + depth(*inner),
        _ => 0,
    }
}

/// Every buff on every page nests at most `d` deep.
pub open spec fn bounded(pages: Seq<Seq<(Buff, Source)>>, d: nat) -> bool {
    forall|k: int, i: int| 0 <= k < pages.len() && 0 <= i < pages[k].len() ==> depth(#[trigger] pages[k][i].0) <= d
}

proof fn lemma_seq_bound(s: Seq<(Buff, Source)>) -> (d: nat)
    ensures
        forall|i: int| 0 <= i < s.len() ==> depth(#[trigger] s[i].0) <= d,
    decreases s.len(),
{
    if s.len() == 0 {
        0
    } else {
        let d0 = lemma_seq_bound(s.drop_last());
        let d1 = depth(s.last().0);
        let d = if d0 > d1 { d0 } else { d1 };
        assert forall|i: int| 0 <= i < s.len() implies depth(#[trigger] s[i].0) <= d by {
            if i < s.len() - 1 {
                assert(s.drop_last()[i] == s[i]);
            }
        }
        d
    }
}

proof fn lemma_bound_exists(pages: Seq<Seq<(Buff, Source)>>) -> (d: nat)
    ensures
        bounded(pages, d),
    decreases pages.len(),
{
    if pages.len() == 0 {
        0
    } else {
        let d0 = lemma_bound_exists(pages.drop_last());
        let d1 = lemma_seq_bound(pages.last());
        let d = if d0 > d1 { d0 } else { d1 };
        assert forall|k: int, i: int| 0 <= k < pages.len() && 0 <= i < pages[k].len() implies depth(
            #[trigger] pages[k][i].0,
        ) <= d by {
            if k < pages.len() - 1 {
                assert(pages.drop_last()[k] == pages[k]);
            }
        }
        d
    }
}

proof fn lemma_kept_shallow(s: Seq<(Buff, Source)>)
    ensures
        forall|i: int| 0 <= i < kept(s).len() ==> depth(#[trigger] kept(s)[i].0) == 0,
    decreases s.len(),
{
    if s.len() > 0 {
        lemma_kept_shallow(s.drop_last());
        let a = kept(s.drop_last());
        assert forall|i: int| 0 <= i < kept(s).len() implies depth(#[trigger] kept(s)[i].0) == 0 by {
            if i < a.len() {
                assert(kept(s)[i] == a[i]);
            }
        }
    }
}

proof fn lemma_outgoing_bounded(s: Seq<(Buff, Source)>, d: nat)
    requires
        forall|i: int| 0 <= i < s.len() ==> depth(#[trigger] s[i].0) <= d + 1,
    ensures
        forall|i: int| 0 <= i < outgoing(s).len() ==> depth(#[trigger] outgoing(s)[i].0) <= d,
    decreases s.len(),
{
    if s.len() > 0 {
        let front = s.drop_last();
        assert forall|i: int| 0 <= i < front.len() implies depth(#[trigger] front[i].0) <= d + 1 by {
            assert(front[i] == s[i]);
        }
        lemma_outgoing_bounded(front, d);
        let a = outgoing(front);
        assert(depth(s[s.len() - 1].0) <= d + 1);
        assert forall|i: int| 0 <= i < outgoing(s).len() implies depth(#[trigger] outgoing(s)[i].0) <= d by {
            if i < a.len() {
                assert(outgoing(s)[i] == a[i]);
            }
        }
    }
}

proof fn lemma_incoming_bounded(pages: Seq<Seq<(Buff, Source)>>, k: int, d: nat)
    requires
        bounded(pages, d + 1),
    ensures
        forall|i: int| 0 <= i < incoming(pages, k).len() ==> depth(#[trigger] incoming(pages, k)[i].0) <= d,
    decreases pages.len(),
{
    if pages.len() > 0 {
        let front = pages.drop_last();
        assert forall|j: int, i: int| 0 <= j < front.len() && 0 <= i < front[j].len() implies depth(
            #[trigger] front[j][i].0,
        ) <= d + 1 by {
            assert(front[j] == pages[j]);
        }
        lemma_incoming_bounded(front, k, d);
        let last = pages[pages.len() - 1];
        assert forall|i: int| 0 <= i < last.len() implies depth(#[trigger] last[i].0) <= d + 1 by {}
        lemma_outgoing_bounded(last, d);
        let a = incoming(front, k);
        assert forall|i: int| 0 <= i < incoming(pages, k).len() implies depth(
            #[trigger] incoming(pages, k)[i].0,
        ) <= d by {
            if i < a.len() {
                assert(incoming(pages, k)[i] == a[i]);
            }
        }
    }
}

/// A round of spreading brings every buff one level less deep, as long as some
/// page had a buff to lend.
proof fn lemma_round_shallower(pages: Seq<Seq<(Buff, Source)>>, d: nat)
    requires
        bounded(pages, d),
        has_neighbor_buffs(pages),
    ensures
        d >= 1,
        bounded(spread_round_spec(pages), (d - 1) as nat),
{
    let (k0, i0) = choose|k: int, i: int|
        0 <= k < pages.len() && 0 <= i < pages[k].len() && (#[trigger] pages[k][i]).0 is Neighbor;
    assert(depth(pages[k0][i0].0) >= 1);
    let e = (d - 1) as nat;
    let r = spread_round_spec(pages);
    assert forall|k: int, i: int| 0 <= k < r.len() && 0 <= i < r[k].len() implies depth(#[trigger] r[k][i].0) <= e by {
        lemma_kept_shallow(pages[k]);
        lemma_incoming_bounded(pages, k, e);
        let a = kept(pages[k]);
        if i < a.len() {
            assert(r[k][i] == a[i]);
        } else {
            assert(r[k][i] == incoming(pages, k)[i - a.len()]);
        }
    }
}

/// A copy of a source.
pub fn copy_source(s: &Source) -> (r: Source)
    ensures
        r == *s,
    decreases s,
{
    match s {
        Source::Neighbor(inner) => Source::Neighbor(Box::new(copy_source(inner))),
        Source::PassiveItemEffect(c) => Source::PassiveItemEffect(*c),
        Source::RubbedItemEffect(c) => Source::RubbedItemEffect(*c),
        Source::SkillUnlock(c) => Source::SkillUnlock(*c),
    }
}

/// The buffs a page keeps and those it lends, as they arrive at a neighbor.
fn split_page<'a>(buffs: &Vec<(&'a Buff, Source)>) -> (r: (Vec<(&'a Buff, Source)>, Vec<(&'a Buff, Source)>))
    ensures
        r.0@.map_values(|e: (&Buff, Source)| entry_view(e)) == kept(
            buffs@.map_values(|e: (&Buff, Source)| entry_view(e)),
        ),
        r.1@.map_values(|e: (&Buff, Source)| entry_view(e)) == outgoing(
            buffs@.map_values(|e: (&Buff, Source)| entry_view(e)),
        ),
{
    let ghost s = buffs@.map_values(|e: (&Buff, Source)| entry_view(e));
    let mut own: Vec<(&'a Buff, Source)> = Vec::new();
    let mut out: Vec<(&'a Buff, Source)> = Vec::new();
    let mut i: usize = 0;
    while i < buffs.len()
        invariant
            i <= buffs@.len(),
            s == buffs@.map_values(|e: (&Buff, Source)| entry_view(e)),
            own@.map_values(|e: (&Buff, Source)| entry_view(e)) == kept(s.take(i as int)),
            out@.map_values(|e: (&Buff, Source)| entry_view(e)) == outgoing(s.take(i as int)),
        decreases buffs@.len() - i,
    {
        assert(s.take(i + 1).drop_last() =~= s.take(i as int));
        let (b, src) = &buffs[i];
        let ghost before_own = own@;
        let ghost before_out = out@;
        match b {
            Buff::Neighbor(inner) => {
                let inner_ref: &'a Buff = &**inner;
                out.push((inner_ref, Source::Neighbor(Box::new(copy_source(src)))));
                assert(out@.map_values(|e: (&Buff, Source)| entry_view(e)) =~= before_out.map_values(
                    |e: (&Buff, Source)| entry_view(e),
                ).push(lent(s[i as int])));
            },
            _ => {
                own.push((*b, copy_source(src)));
                assert(own@.map_values(|e: (&Buff, Source)| entry_view(e)) =~= before_own.map_values(
                    |e: (&Buff, Source)| entry_view(e),
                ).push(s[i as int]));
            },
        }
        i = i + 1;
    }
    assert(s.take(i as int) =~= s);
    (own, out)
}


/// Appends copies of `src`'s entries to `dst`.
fn append_copies<'a>(dst: &mut Vec<(&'a Buff, Source)>, src: &Vec<(&'a Buff, Source)>)
    ensures
        final(dst)@.map_values(|e: (&Buff, Source)| entry_view(e)) == old(dst)@.map_values(
            |e: (&Buff, Source)| entry_view(e),
        ) + src@.map_values(|e: (&Buff, Source)| entry_view(e)),
{
    let ghost start = dst@.map_values(|e: (&Buff, Source)| entry_view(e));
    let ghost t = src@.map_values(|e: (&Buff, Source)| entry_view(e));
    let mut i: usize = 0;
    while i < src.len()
        invariant
            i <= src@.len(),
            t == src@.map_values(|e: (&Buff, Source)| entry_view(e)),
            dst@.map_values(|e: (&Buff, Source)| entry_view(e)) == start + t.take(i as int),
        decreases src@.len() - i,
    {
        let ghost before = dst@;
        let (b, s) = &src[i];
        dst.push((*b, copy_source(s)));
        assert(dst@.map_values(|e: (&Buff, Source)| entry_view(e)) =~= before.map_values(
            |e: (&Buff, Source)| entry_view(e),
        ).push(t[i as int]));
        assert(t.take(i + 1) =~= t.take(i as int).push(t[i as int]));
        i = i + 1;
    }
    assert(t.take(i as int) =~= t);
}

/// Whether some page still holds a buff to lend.
pub fn any_neighbor_buffs(pages: &Vec<PlantPage>) -> (r: bool)
    ensures
        r == has_neighbor_buffs(book_view(pages@)),
{
    let ghost v = book_view(pages@);
    let mut k: usize = 0;
    while k < pages.len()
        invariant
            k <= pages@.len(),
            v == book_view(pages@),
            forall|j: int, i: int| 0 <= j < k && 0 <= i < v[j].len() ==> !((#[trigger] v[j][i]).0 is Neighbor),
        decreases pages@.len() - k,
    {
        let buffs = &pages[k].buffs;
        let mut i: usize = 0;
        while i < buffs.len()
            invariant
                k < pages@.len(),
                i <= buffs@.len(),
                buffs == pages@[k as int].buffs,
                v == book_view(pages@),
                forall|j: int, x: int| 0 <= j < k && 0 <= x < v[j].len() ==> !((#[trigger] v[j][x]).0 is Neighbor),
                forall|x: int| 0 <= x < i ==> !((#[trigger] v[k as int][x]).0 is Neighbor),
            decreases buffs@.len() - i,
        {
            assert(v[k as int][i as int] == entry_view(buffs@[i as int]));
            match buffs[i].0 {
                Buff::Neighbor(_) => {
                    return true;
                },
                _ => {},
            }
            i = i + 1;
        }
        k = k + 1;
    }
    false
}

/// One round of spreading: every page keeps its buffs but those it lends its
/// neighbors, and receives, page by page in order, what each other page lends,
/// each as the buff inside coming from the lender's source.
pub fn spread_round<'a>(pages: &Vec<PlantPage<'a>>) -> (r: Vec<PlantPage<'a>>)
    ensures
        r@.len() == pages@.len(),
        forall|k: int| 0 <= k < r@.len() ==> (#[trigger] r@[k]).tile == pages@[k].tile,
        book_view(r@) == spread_round_spec(book_view(pages@)),
{
    let ghost v = book_view(pages@);
    let n = pages.len();
    let mut owns: Vec<Vec<(&'a Buff, Source)>> = Vec::new();
    let mut outs: Vec<Vec<(&'a Buff, Source)>> = Vec::new();
    let mut j: usize = 0;
    while j < n
        invariant
            n == pages@.len(),
            j <= n,
            v == book_view(pages@),
            owns@.len() == j,
            outs@.len() == j,
            forall|x: int| 0 <= x < j ==> (#[trigger] owns@[x])@.map_values(|e: (&Buff, Source)| entry_view(e)) == kept(v[x]),
            forall|x: int| 0 <= x < j ==> (#[trigger] outs@[x])@.map_values(|e: (&Buff, Source)| entry_view(e)) == outgoing(v[x]),
        decreases n - j,
    {
        let (own, out) = split_page(&pages[j].buffs);
        assert(v[j as int] == page_entries(pages@[j as int]));
        owns.push(own);
        outs.push(out);
        j = j + 1;
    }
    let mut r: Vec<PlantPage<'a>> = Vec::new();
    let mut k: usize = 0;
    while k < n
        invariant
            n == pages@.len(),
            k <= n,
            v == book_view(pages@),
            owns@.len() == n,
            outs@.len() == n,
            forall|x: int| 0 <= x < n ==> (#[trigger] owns@[x])@.map_values(|e: (&Buff, Source)| entry_view(e)) == kept(v[x]),
            forall|x: int| 0 <= x < n ==> (#[trigger] outs@[x])@.map_values(|e: (&Buff, Source)| entry_view(e)) == outgoing(v[x]),
            r@.len() == k,
            forall|x: int| 0 <= x < k ==> (#[trigger] r@[x]).tile == pages@[x].tile,
            forall|x: int| 0 <= x < k ==> page_entries(#[trigger] r@[x]) == kept(v[x]) + incoming(v, x),
        decreases n - k,
    {
        let mut buffs: Vec<(&'a Buff, Source)> = Vec::new();
        append_copies(&mut buffs, &owns[k]);
        assert(buffs@.map_values(|e: (&Buff, Source)| entry_view(e)) =~= kept(v[k as int]) + incoming(v.take(0), k as int));
        let mut j: usize = 0;
        while j < n
            invariant
                n == pages@.len(),
                j <= n,
                k < n,
                v == book_view(pages@),
                v.len() == n,
                outs@.len() == n,
                forall|x: int| 0 <= x < n ==> (#[trigger] outs@[x])@.map_values(|e: (&Buff, Source)| entry_view(e)) == outgoing(v[x]),
                buffs@.map_values(|e: (&Buff, Source)| entry_view(e)) == kept(v[k as int]) + incoming(v.take(j as int), k as int),
            decreases n - j,
        {
            assert(v.take(j + 1).drop_last() =~= v.take(j as int));
            if j != k {
                append_copies(&mut buffs, &outs[j]);
            }
            assert(buffs@.map_values(|e: (&Buff, Source)| entry_view(e)) =~= kept(v[k as int]) + incoming(v.take(j + 1), k as int));
            j = j + 1;
        }
        assert(v.take(n as int) =~= v);
        r.push(PlantPage { tile: pages[k].tile, buffs });
        k = k + 1;
    }
    assert(book_view(r@) =~= spread_round_spec(v));
    r
}

/// Spreads lent buffs until none is left to lend: round after round, each page
/// gives the buffs it lends its neighbors to every other page (a buff lent twice
/// over travels on in the next round), as `spread_round` says.
pub fn spread_neighbors<'a>(pages: Vec<PlantPage<'a>>) -> (r: Vec<PlantPage<'a>>)
    ensures
        r@.len() == pages@.len(),
        forall|k: int| 0 <= k < r@.len() ==> (#[trigger] r@[k]).tile == pages@[k].tile,
        exists|n: nat| {
            &&& book_view(r@) == spread_rounds(book_view(pages@), n)
            &&& forall|m: nat| m < n ==> has_neighbor_buffs(#[trigger] spread_rounds(book_view(pages@), m))
        },
        !has_neighbor_buffs(book_view(r@)),
{
    let ghost orig = book_view(pages@);
    let ghost mut rounds: nat = 0;
    let ghost mut d: nat = lemma_bound_exists(orig);
    let mut cur = pages;
    let mut more = any_neighbor_buffs(&cur);
    while more
        invariant
            cur@.len() == pages@.len(),
            forall|k: int| 0 <= k < cur@.len() ==> (#[trigger] cur@[k]).tile == pages@[k].tile,
            orig == book_view(pages@),
            book_view(cur@) == spread_rounds(orig, rounds),
            more == has_neighbor_buffs(book_view(cur@)),
            bounded(book_view(cur@), d),
            forall|m: nat| m < rounds ==> has_neighbor_buffs(#[trigger] spread_rounds(orig, m)),
        decreases d,
    {
        proof {
            lemma_round_shallower(book_view(cur@), d);
        }
        let next = spread_round(&cur);
        proof {
            assert forall|m: nat| m < rounds + 1 implies has_neighbor_buffs(#[trigger] spread_rounds(orig, m)) by {
                if m == rounds {
                } else {
                }
            }
            rounds = rounds + 1;
            d = (d - 1) as nat;
        }
        cur = next;
        more = any_neighbor_buffs(&cur);
    }
    cur
}

} // verus!
