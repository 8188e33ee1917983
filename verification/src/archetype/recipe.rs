//! Recipes: what a plant needs to craft something, and what it makes.
//!
//! Chances and durations are held as the IEEE-754 bit patterns of the `f32`
//! values they stand for; nothing here reads them, they are carried through.

use vstd::prelude::*;
use vstd::pervasive::cloned;
use super::{is_first_named, Archetype, ArchetypeHandle, Config, ConfigError};
use crate::config::verify::{all_known, first_missing, is_first_missing, lemma_first_missing_concat,
    lemma_first_missing_unique};
use crate::possess::Possession;

verus! {

/// A leading chance, then a min and max count, for rows of loot tables.
/// The three numbers are `f32` bit patterns.
#[derive(Clone, Copy, Debug, PartialEq, Eq)]
pub struct SpawnRate(pub u32, pub (u32, u32));

/// What a recipe makes.
#[derive(Clone, Debug, PartialEq)]
pub enum RecipeMakes<Handle> {
    /// This many of one thing.
    Just(usize, Handle),
    /// One of these, each with the chance (an `f32` bit pattern) before it.
    OneOf(Vec<(u32, Handle)>),
    /// All of these, each as many times as the count before it.
    AllOf(Vec<(usize, Handle)>),
}

/// Each handle of `rows`, as many times in a row as the count beside it.
pub open spec fn repeat_all<Handle>(rows: Seq<(usize, Handle)>) -> Seq<Handle>
    decreases rows.len(),
{
    if rows.len() == 0 {
        Seq::empty()
    } else {
        repeat_all(rows.drop_last()) + Seq::new(rows.last().0 as nat, |k: int| rows.last().1)
    }
}

/// Appends `count` copies of `h` to `out`.
fn push_copies<Handle: Clone>(out: &mut Vec<Handle>, h: &Handle, count: usize)
    ensures
        final(out)@.len() == old(out)@.len() + count,
        forall|k: int| 0 <= k < old(out)@.len() ==> final(out)@[k] == old(out)@[k],
        forall|k: int| old(out)@.len() <= k < final(out)@.len() ==> cloned(*h, #[trigger] final(out)@[k]),
{
    let ghost start = out@;
    let mut j: usize = 0;
    while j < count
        invariant
            j <= count,
            out@.len() == start.len() + j,
            forall|k: int| 0 <= k < start.len() ==> out@[k] == start[k],
            forall|k: int| start.len() <= k < out@.len() ==> cloned(*h, #[trigger] out@[k]),
        decreases count - j,
    {
        out.push(h.clone());
        j = j + 1;
    }
}

/// Each handle of `rows`, cloned as many times in a row as the count beside it.
pub fn repeated<Handle: Clone>(rows: &[(usize, Handle)]) -> (r: Vec<Handle>)
    ensures
        r@.len() == repeat_all(rows@).len(),
        forall|k: int| 0 <= k < r@.len() ==> cloned(repeat_all(rows@)[k], #[trigger] r@[k]),
{
    let mut out: Vec<Handle> = Vec::new();
    let mut i: usize = 0;
    while i < rows.len()
        invariant
            i <= rows@.len(),
            out@.len() == repeat_all(rows@.subrange(0, i as int)).len(),
            forall|k: int|
                0 <= k < out@.len() ==> cloned(repeat_all(rows@.subrange(0, i as int))[k], #[trigger] out@[k]),
        decreases rows@.len() - i,
    {
        let ghost before = out@;
        let ghost prefix = rows@.subrange(0, i as int);
        let ghost next = rows@.subrange(0, i + 1);
        assert(next.drop_last() =~= prefix);
        push_copies(&mut out, &rows[i].1, rows[i].0);
        assert forall|k: int| 0 <= k < out@.len() implies cloned(repeat_all(next)[k], #[trigger] out@[k]) by {
            if k < before.len() {
                assert(out@[k] == before[k]);
            } else {
                assert(repeat_all(next)[k] == rows@[i as int].1);
            }
        }
        i = i + 1;
    }
    assert(rows@.subrange(0, rows@.len() as int) =~= rows@);
    out
}

/// The leading chances of the rows that spawned something, in order: each row
/// is its count and its leading chance.
pub open spec fn qualified_rates(rows: Seq<(usize, u32)>) -> Seq<u32>
    decreases rows.len(),
{
    if rows.len() == 0 {
        Seq::empty()
    } else {
        qualified_rates(rows.drop_last()) + (if rows.last().0 == 0 {
            Seq::empty()
        } else {
            seq![rows.last().1]
        })
    }
}

/// The leading spawn rates of the rows of a loot table that a draw qualified
/// for, given how many of each row were drawn: the leading chance of each row
/// whose count is not zero, in the table's order.
pub fn leading_rates<Handle>(table: &[(SpawnRate, Handle)], counts: &[usize]) -> (r: Vec<u32>)
    requires
        counts@.len() == table@.len(),
    ensures
        r@ == qualified_rates(Seq::new(table@.len(), |i: int| (counts@[i], table@[i].0.0))),
{
    let ghost rows = Seq::new(table@.len(), |i: int| (counts@[i], table@[i].0.0));
    let mut out: Vec<u32> = Vec::new();
    let mut i: usize = 0;
    while i < table.len()
        invariant
            i <= table@.len(),
            counts@.len() == table@.len(),
            rows == Seq::new(table@.len(), |i: int| (counts@[i], table@[i].0.0)),
            out@ == qualified_rates(rows.take(i as int)),
        decreases table@.len() - i,
    {
        assert(rows.take(i + 1).drop_last() =~= rows.take(i as int));
        assert(rows.take(i + 1).last() == (counts@[i as int], table@[i as int].0.0));
        if counts[i] != 0 {
            out.push(table[i].0.0);
        }
        assert(out@ =~= qualified_rates(rows.take(i + 1)));
        i = i + 1;
    }
    assert(rows.take(i as int) =~= rows);
    out
}

/// What a loot table spawned, given how many of each row were drawn:
/// each row's handle, cloned as many times as its count.
pub fn spawned<Handle: Clone>(table: &[(SpawnRate, Handle)], counts: &[usize]) -> (r: Vec<Handle>)
    requires
        counts@.len() == table@.len(),
    ensures
        r@.len() == repeat_all(Seq::new(table@.len(), |i: int| (counts@[i], table@[i].1))).len(),
        forall|k: int|
            0 <= k < r@.len() ==> cloned(
                repeat_all(Seq::new(table@.len(), |i: int| (counts@[i], table@[i].1)))[k],
                #[trigger] r@[k],
            ),
{
    let ghost rows = Seq::new(table@.len(), |i: int| (counts@[i], table@[i].1));
    let mut out: Vec<Handle> = Vec::new();
    let mut i: usize = 0;
    while i < table.len()
        invariant
            i <= table@.len(),
            counts@.len() == table@.len(),
            rows == Seq::new(table@.len(), |i: int| (counts@[i], table@[i].1)),
            out@.len() == repeat_all(rows.subrange(0, i as int)).len(),
            forall|k: int|
                0 <= k < out@.len() ==> cloned(repeat_all(rows.subrange(0, i as int))[k], #[trigger] out@[k]),
        decreases table@.len() - i,
    {
        let ghost before = out@;
        let ghost next = rows.subrange(0, i + 1);
        assert(next.drop_last() =~= rows.subrange(0, i as int));
        push_copies(&mut out, &table[i].1, counts[i]);
        assert forall|k: int| 0 <= k < out@.len() implies cloned(repeat_all(next)[k], #[trigger] out@[k]) by {
            if k < before.len() {
                assert(out@[k] == before[k]);
            } else {
                assert(repeat_all(next)[k] == table@[i as int].1);
            }
        }
        i = i + 1;
    }
    assert(rows.subrange(0, table@.len() as int) =~= rows);
    out
}

impl<Handle> RecipeMakes<Handle> {
    /// Everything that could possibly come from this recipe, each with a count.
    pub open spec fn all_spec(&self) -> Seq<(Handle, usize)> {
        match self {
            RecipeMakes::Just(_, h) => seq![(*h, 1usize)],
            RecipeMakes::OneOf(these) => these@.map_values(|p: (u32, Handle)| (p.1, 1usize)),
            RecipeMakes::AllOf(these) => these@.map_values(|p: (usize, Handle)| (p.1, p.0)),
        }
    }

    /// The handles this recipe names, in order.
    pub open spec fn handles_spec(&self) -> Seq<Handle> {
        self.all_spec().map_values(|p: (Handle, usize)| p.0)
    }

    /// A list of everything that could possibly come from this recipe.
    pub fn all(&self) -> (r: Vec<(Handle, usize)>) where Handle: Clone
        ensures
            r@.len() == self.all_spec().len(),
            forall|i: int|
                0 <= i < r@.len() ==> r@[i].1 == self.all_spec()[i].1 && cloned(
                    self.all_spec()[i].0,
                    r@[i].0,
                ),
    {
        let mut r: Vec<(Handle, usize)> = Vec::new();
        match self {
            RecipeMakes::Just(_, h) => {
                r.push((h.clone(), 1));
            },
            RecipeMakes::OneOf(these) => {
                let mut i: usize = 0;
                while i < these.len()
                    invariant
                        i <= these@.len(),
                        r@.len() == i,
                        self.all_spec() == these@.map_values(|p: (u32, Handle)| (p.1, 1usize)),
                        forall|j: int|
                            0 <= j < i ==> r@[j].1 == self.all_spec()[j].1 && cloned(
                                self.all_spec()[j].0,
                                r@[j].0,
                            ),
                    decreases these@.len() - i,
                {
                    r.push((these[i].1.clone(), 1));
                    i = i + 1;
                }
            },
            RecipeMakes::AllOf(these) => {
                let mut i: usize = 0;
                while i < these.len()
                    invariant
                        i <= these@.len(),
                        r@.len() == i,
                        self.all_spec() == these@.map_values(|p: (usize, Handle)| (p.1, p.0)),
                        forall|j: int|
                            0 <= j < i ==> r@[j].1 == self.all_spec()[j].1 && cloned(
                                self.all_spec()[j].0,
                                r@[j].0,
                            ),
                    decreases these@.len() - i,
                {
                    r.push((these[i].1.clone(), these[i].0));
                    i = i + 1;
                }
            },
        }
        r
    }
}

/// `x` is `m` with each name replaced by the handle of the first possession
/// archetype of that name.
pub open spec fn makes_resolved_as(c: Config, m: RecipeMakes<String>, x: RecipeMakes<usize>) -> bool {
    match (m, x) {
        (RecipeMakes::Just(n, s), RecipeMakes::Just(n2, h)) => n == n2 && is_first_named(
            c.possession_names(),
            s@,
            h as int,
        ),
        (RecipeMakes::OneOf(v), RecipeMakes::OneOf(w)) => {
            &&& v@.len() == w@.len()
            &&& forall|j: int|
                0 <= j < v@.len() ==> (#[trigger] w@[j]).0 == v@[j].0 && is_first_named(
                    c.possession_names(),
                    v@[j].1@,
                    w@[j].1 as int,
                )
        },
        (RecipeMakes::AllOf(v), RecipeMakes::AllOf(w)) => {
            &&& v@.len() == w@.len()
            &&& forall|j: int|
                0 <= j < v@.len() ==> (#[trigger] w@[j]).0 == v@[j].0 && is_first_named(
                    c.possession_names(),
                    v@[j].1@,
                    w@[j].1 as int,
                )
        },
        _ => false,
    }
}

impl RecipeMakes<String> {
    /// The names this recipe makes, in order.
    pub open spec fn names(&self) -> Seq<Seq<char>> {
        self.all_spec().map_values(|p: (String, usize)| p.0@)
    }

    /// Every name this recipe makes resolves to a possession archetype.
    pub open spec fn names_resolve(&self, config: Config) -> bool {
        forall|i: int|
            0 <= i < self.all_spec().len() ==> config.has_possession(#[trigger] self.all_spec()[i].0@)
    }

    /// Looks up the archetype handle of every name this recipe makes.
    pub fn find_handles(self, config: &Config) -> (r: Result<RecipeMakes<usize>, ConfigError>)
        ensures
            r is Ok <==> self.names_resolve(*config),
            r matches Ok(m) ==> m.all_spec().len() == self.all_spec().len() && (forall|i: int|
                #![trigger m.all_spec()[i]]
                0 <= i < m.all_spec().len() ==> m.all_spec()[i].1 == self.all_spec()[i].1
                    && is_first_named(
                    config.possession_names(),
                    self.all_spec()[i].0@,
                    m.all_spec()[i].0 as int,
                )) && (self is Just <==> m is Just) && (self is OneOf <==> m is OneOf),
            r matches Err(ConfigError::UnknownArchetypeName(n)) ==> !config.has_possession(n@)
                && exists|i: int|
                0 <= i < self.all_spec().len() && #[trigger] self.all_spec()[i].0@ == n@,
            r is Ok <==> all_known(self.names(), config.possession_names()),
            r matches Ok(m) ==> makes_resolved_as(*config, self, m),
            r matches Err(ConfigError::UnknownArchetypeName(n)) ==> n@ == self.names()[first_missing(
                self.names(),
                config.possession_names(),
            )],
    {
        self.resolve(config)
    }

    /// Looks up the archetype handle of every name this recipe makes.
    pub fn resolve(&self, config: &Config) -> (r: Result<RecipeMakes<usize>, ConfigError>)
        ensures
            r is Ok <==> self.names_resolve(*config),
            r matches Ok(m) ==> m.all_spec().len() == self.all_spec().len() && (forall|i: int|
                #![trigger m.all_spec()[i]]
                0 <= i < m.all_spec().len() ==> m.all_spec()[i].1 == self.all_spec()[i].1
                    && is_first_named(
                    config.possession_names(),
                    self.all_spec()[i].0@,
                    m.all_spec()[i].0 as int,
                )) && (self is Just <==> m is Just) && (self is OneOf <==> m is OneOf),
            r matches Err(ConfigError::UnknownArchetypeName(n)) ==> !config.has_possession(n@)
                && exists|i: int|
                0 <= i < self.all_spec().len() && #[trigger] self.all_spec()[i].0@ == n@,
            r is Ok <==> all_known(self.names(), config.possession_names()),
            r matches Ok(m) ==> makes_resolved_as(*config, *self, m),
            r matches Err(ConfigError::UnknownArchetypeName(n)) ==> n@ == self.names()[first_missing(
                self.names(),
                config.possession_names(),
            )],
    {
        let ghost spec_all = self.all_spec();
        match self {
            RecipeMakes::Just(n, name) => {
                match config.find_possession_handle(name.as_str()) {
                    Ok(h) => {
                        assert(config.possession_names()[h as int] == name@);
                        let m = RecipeMakes::Just(*n, h);
                        assert(m.all_spec()[0] == (h, 1usize));
                        Ok(m)
                    },
                    Err(e) => {
                        assert(spec_all[0].0@ == name@);
                        proof {
                            assert(self.names()[0] == name@);
                            assert(is_first_missing(self.names(), config.possession_names(), 0));
                            lemma_first_missing_unique(self.names(), config.possession_names(), 0);
                        }
                        Err(e)
                    },
                }
            },
            RecipeMakes::OneOf(these) => {
                let mut out: Vec<(u32, usize)> = Vec::new();
                let mut i: usize = 0;
                while i < these.len()
                    invariant
                        i <= these@.len(),
                        out@.len() == i,
                        spec_all == self.all_spec(),
                        spec_all == these@.map_values(|p: (u32, String)| (p.1, 1usize)),
                        forall|j: int|
                            #![trigger out@[j]]
                            0 <= j < i ==> out@[j].0 == these@[j].0 && is_first_named(
                                config.possession_names(),
                                these@[j].1@,
                                out@[j].1 as int,
                            ),
                        forall|j: int| 0 <= j < i ==> config.has_possession(#[trigger] spec_all[j].0@),
                    decreases these@.len() - i,
                {
                    match config.find_possession_handle(these[i].1.as_str()) {
                        Ok(h) => {
                            assert(config.possession_names()[h as int] == these@[i as int].1@);
                            assert(spec_all[i as int].0 == these@[i as int].1);
                            out.push((these[i].0, h));
                        },
                        Err(e) => {
                            assert(spec_all[i as int].0 == these@[i as int].1);
                            proof {
                                assert(self.names()[i as int] == these@[i as int].1@);
                                assert forall|j: int| 0 <= j < i implies config.possession_names().contains(
                                    #[trigger] self.names()[j],
                                ) by {
                                    assert(config.has_possession(spec_all[j].0@));
                                }
                                assert(is_first_missing(self.names(), config.possession_names(), i as int));
                                lemma_first_missing_unique(self.names(), config.possession_names(), i as int);
                            }
                            return Err(e);
                        },
                    }
                    i = i + 1;
                }
                let m = RecipeMakes::OneOf(out);
                assert(forall|j: int|
                    0 <= j < m.all_spec().len() ==> #[trigger] m.all_spec()[j] == (out@[j].1, 1usize));
                Ok(m)
            },
            RecipeMakes::AllOf(these) => {
                let mut out: Vec<(usize, usize)> = Vec::new();
                let mut i: usize = 0;
                while i < these.len()
                    invariant
                        i <= these@.len(),
                        out@.len() == i,
                        spec_all == self.all_spec(),
                        spec_all == these@.map_values(|p: (usize, String)| (p.1, p.0)),
                        forall|j: int|
                            #![trigger out@[j]]
                            0 <= j < i ==> out@[j].0 == these@[j].0 && is_first_named(
                                config.possession_names(),
                                these@[j].1@,
                                out@[j].1 as int,
                            ),
                        forall|j: int| 0 <= j < i ==> config.has_possession(#[trigger] spec_all[j].0@),
                    decreases these@.len() - i,
                {
                    match config.find_possession_handle(these[i].1.as_str()) {
                        Ok(h) => {
                            assert(config.possession_names()[h as int] == these@[i as int].1@);
                            assert(spec_all[i as int].0 == these@[i as int].1);
                            out.push((these[i].0, h));
                        },
                        Err(e) => {
                            assert(spec_all[i as int].0 == these@[i as int].1);
                            proof {
                                assert(self.names()[i as int] == these@[i as int].1@);
                                assert forall|j: int| 0 <= j < i implies config.possession_names().contains(
                                    #[trigger] self.names()[j],
                                ) by {
                                    assert(config.has_possession(spec_all[j].0@));
                                }
                                assert(is_first_missing(self.names(), config.possession_names(), i as int));
                                lemma_first_missing_unique(self.names(), config.possession_names(), i as int);
                            }
                            return Err(e);
                        },
                    }
                    i = i + 1;
                }
                let m = RecipeMakes::AllOf(out);
                assert(forall|j: int|
                    0 <= j < m.all_spec().len() ==> #[trigger] m.all_spec()[j] == (out@[j].1, out@[j].0));
                Ok(m)
            },
        }
    }
}

/// Recipe is generic over the way archetypes are referred to, to make it easy to use
/// names in the configs and archetype handles at runtime.
#[derive(Clone, Debug, PartialEq)]
pub struct Recipe<Handle> {
    pub needs: Vec<(usize, Handle)>,
    pub makes: RecipeMakes<Handle>,
    pub destroys_plant: bool,
    /// An `f32` bit pattern.
    pub time: u32,
}

/// How many possessions of `inv` are of archetype `ah`.
pub open spec fn count_of_handle(inv: Seq<Possession>, ah: ArchetypeHandle) -> nat
    decreases inv.len(),
{
    if inv.len() == 0 {
        0
    } else {
        count_of_handle(inv.drop_last(), ah) + if inv.last().archetype_handle == ah {
            1nat
        } else {
            0nat
        }
    }
}

/// Handles found for the names a recipe makes look up again: each points into
/// the possession archetypes, at one named as the name it was found for, with
/// the same count.
pub proof fn law_found_handles_look_up_to_their_names(c: Config, m: RecipeMakes<String>, h: RecipeMakes<usize>)
    requires
        makes_resolved_as(c, m, h),
    ensures
        handles_in_range(c, h.handles_spec()),
        h.all_spec().len() == m.all_spec().len(),
        forall|i: int|
            0 <= i < h.all_spec().len() ==> c.possession_archetypes@[(#[trigger] h.all_spec()[i]).0 as int].name@
                == m.all_spec()[i].0@ && h.all_spec()[i].1 == m.all_spec()[i].1,
{
    assert forall|i: int| 0 <= i < h.all_spec().len() implies c.possession_archetypes@[(#[trigger] h.all_spec()[
        i
    ]).0 as int].name@ == m.all_spec()[i].0@ && h.all_spec()[i].1 == m.all_spec()[i].1 by {
        match (m, h) {
            (RecipeMakes::OneOf(v), RecipeMakes::OneOf(w)) => {
                assert(is_first_named(c.possession_names(), v@[i].1@, w@[i].1 as int));
            },
            (RecipeMakes::AllOf(v), RecipeMakes::AllOf(w)) => {
                assert(is_first_named(c.possession_names(), v@[i].1@, w@[i].1 as int));
            },
            _ => {},
        }
    }
    assert forall|i: int| 0 <= i < h.handles_spec().len() implies #[trigger] h.handles_spec()[i]
        < c.possession_archetypes@.len() by {
        match (m, h) {
            (RecipeMakes::OneOf(v), RecipeMakes::OneOf(w)) => {
                assert(is_first_named(c.possession_names(), v@[i].1@, w@[i].1 as int));
            },
            (RecipeMakes::AllOf(v), RecipeMakes::AllOf(w)) => {
                assert(is_first_named(c.possession_names(), v@[i].1@, w@[i].1 as int));
            },
            _ => {},
        }
    }
}

/// The archetype handles a list of needs names, in order.
pub open spec fn needed_handles(needs: Seq<(usize, ArchetypeHandle)>) -> Seq<ArchetypeHandle> {
    needs.map_values(|p: (usize, ArchetypeHandle)| p.1)
}

/// Every handle of `hs` points into the possession archetypes.
pub open spec fn handles_in_range(config: Config, hs: Seq<ArchetypeHandle>) -> bool {
    forall|i: int| 0 <= i < hs.len() ==> #[trigger] hs[i] < config.possession_archetypes@.len()
}

/// `m` is `x` with its variant, its `Just` count, its `OneOf` chances and its
/// `AllOf` counts kept, and each handle replaced by the archetype it points to.
pub open spec fn makes_looked_up<'a>(c: Config, x: RecipeMakes<ArchetypeHandle>, m: RecipeMakes<&'a Archetype>) -> bool {
    match (x, m) {
        (RecipeMakes::Just(n, h), RecipeMakes::Just(n2, a)) => n == n2 && h < c.possession_archetypes@.len()
            && *a == c.possession_archetypes@[h as int],
        (RecipeMakes::OneOf(v), RecipeMakes::OneOf(w)) => {
            &&& v@.len() == w@.len()
            &&& forall|j: int|
                0 <= j < v@.len() ==> (#[trigger] w@[j]).0 == v@[j].0 && v@[j].1
                    < c.possession_archetypes@.len() && *w@[j].1 == c.possession_archetypes@[v@[j].1 as int]
        },
        (RecipeMakes::AllOf(v), RecipeMakes::AllOf(w)) => {
            &&& v@.len() == w@.len()
            &&& forall|j: int|
                0 <= j < v@.len() ==> (#[trigger] w@[j]).0 == v@[j].0 && v@[j].1
                    < c.possession_archetypes@.len() && *w@[j].1 == c.possession_archetypes@[v@[j].1 as int]
        },
        _ => false,
    }
}

impl RecipeMakes<ArchetypeHandle> {
    /// Resolves every handle this recipe makes into its archetype; `None` if
    /// any handle points past the configured archetypes.
    pub fn lookup_handles<'a>(self, config: &'a Config) -> (r: Option<RecipeMakes<&'a Archetype>>)
        ensures
            r is Some <==> handles_in_range(*config, self.handles_spec()),
            r matches Some(m) ==> m.all_spec().len() == self.all_spec().len() && (forall|i: int|
                #![trigger m.all_spec()[i]]
                0 <= i < m.all_spec().len() ==> m.all_spec()[i].1 == self.all_spec()[i].1
                    && *m.all_spec()[i].0 == config.possession_archetypes@[self.all_spec()[i].0 as int]),
            r matches Some(m) ==> makes_looked_up(*config, self, m),
    {
        let ghost spec_all = self.all_spec();
        match &self {
            RecipeMakes::Just(n, ah) => {
                assert(self.handles_spec() =~= seq![*ah]);
                if *ah < config.possession_archetypes.len() {
                    let m = RecipeMakes::Just(*n, &config.possession_archetypes[*ah]);
                    assert(m.all_spec()[0] == (&config.possession_archetypes@[*ah as int], 1usize));
                    assert(handles_in_range(*config, self.handles_spec()));
                    Some(m)
                } else {
                    assert(self.handles_spec()[0] == *ah);
                    None
                }
            },
            RecipeMakes::OneOf(these) => {
                let mut out: Vec<(u32, &'a Archetype)> = Vec::new();
                let mut i: usize = 0;
                while i < these.len()
                    invariant
                        i <= these@.len(),
                        out@.len() == i,
                        spec_all == self.all_spec(),
                        spec_all == these@.map_values(|p: (u32, usize)| (p.1, 1usize)),
                        forall|j: int|
                            #![trigger out@[j]]
                            0 <= j < i ==> out@[j].0 == these@[j].0 && these@[j].1
                                < config.possession_archetypes@.len() && *out@[j].1
                                == config.possession_archetypes@[these@[j].1 as int],
                        forall|j: int|
                            0 <= j < i ==> (#[trigger] these@[j]).1 < config.possession_archetypes@.len(),
                    decreases these@.len() - i,
                {
                    if these[i].1 < config.possession_archetypes.len() {
                        out.push((these[i].0, &config.possession_archetypes[these[i].1]));
                    } else {
                        assert(self.handles_spec()[i as int] == these@[i as int].1);
                        return None;
                    }
                    i = i + 1;
                }
                let m = RecipeMakes::OneOf(out);
                assert(forall|j: int|
                    0 <= j < m.all_spec().len() ==> #[trigger] m.all_spec()[j] == (out@[j].1, 1usize));
                assert(forall|j: int|
                    0 <= j < self.handles_spec().len() ==> #[trigger] self.handles_spec()[j] == these@[j].1);
                assert forall|j: int| 0 <= j < self.handles_spec().len() implies #[trigger] self.handles_spec()[j]
                    < config.possession_archetypes@.len() by {
                    assert(self.handles_spec()[j] == these@[j].1);
                }
                Some(m)
            },
            RecipeMakes::AllOf(these) => {
                let mut out: Vec<(usize, &'a Archetype)> = Vec::new();
                let mut i: usize = 0;
                while i < these.len()
                    invariant
                        i <= these@.len(),
                        out@.len() == i,
                        spec_all == self.all_spec(),
                        spec_all == these@.map_values(|p: (usize, usize)| (p.1, p.0)),
                        forall|j: int|
                            #![trigger out@[j]]
                            0 <= j < i ==> out@[j].0 == these@[j].0 && these@[j].1
                                < config.possession_archetypes@.len() && *out@[j].1
                                == config.possession_archetypes@[these@[j].1 as int],
                        forall|j: int|
                            0 <= j < i ==> (#[trigger] these@[j]).1 < config.possession_archetypes@.len(),
                    decreases these@.len() - i,
                {
                    if these[i].1 < config.possession_archetypes.len() {
                        out.push((these[i].0, &config.possession_archetypes[these[i].1]));
                    } else {
                        assert(self.handles_spec()[i as int] == these@[i as int].1);
                        return None;
                    }
                    i = i + 1;
                }
                let m = RecipeMakes::AllOf(out);
                assert(forall|j: int|
                    0 <= j < m.all_spec().len() ==> #[trigger] m.all_spec()[j] == (out@[j].1, out@[j].0));
                assert(forall|j: int|
                    0 <= j < self.handles_spec().len() ==> #[trigger] self.handles_spec()[j] == these@[j].1);
                assert forall|j: int| 0 <= j < self.handles_spec().len() implies #[trigger] self.handles_spec()[j]
                    < config.possession_archetypes@.len() by {
                    assert(self.handles_spec()[j] == these@[j].1);
                }
                Some(m)
            },
        }
    }
}

/// Possessions appended to an inventory only add to each archetype's count.
pub proof fn lemma_count_of_handle_append(inv: Seq<Possession>, extra: Seq<Possession>, ah: ArchetypeHandle)
    ensures
        count_of_handle(inv + extra, ah) == count_of_handle(inv, ah) + count_of_handle(extra, ah),
    decreases extra.len(),
{
    if extra.len() == 0 {
        assert(inv + extra =~= inv);
    } else {
        assert((inv + extra).drop_last() =~= inv + extra.drop_last());
        lemma_count_of_handle_append(inv, extra.drop_last(), ah);
    }
}

/// A recipe that an inventory satisfies is satisfied by any inventory that
/// holds at least as many possessions of every archetype.
pub proof fn law_more_possessions_still_satisfy(r: Recipe<ArchetypeHandle>, inv: Seq<Possession>, inv2: Seq<Possession>)
    requires
        forall|ah: ArchetypeHandle| count_of_handle(inv, ah) <= #[trigger] count_of_handle(inv2, ah),
        r.satisfied_by(inv),
    ensures
        r.satisfied_by(inv2),
{
    assert forall|i: int| 0 <= i < r.needs@.len() implies #[trigger] r.needs@[i].0 <= count_of_handle(
        inv2,
        r.needs@[i].1,
    ) by {
        assert(r.needs@[i].0 <= count_of_handle(inv, r.needs@[i].1));
    }
}

/// Taking the possession at `k` out of an inventory takes one from its
/// archetype's count.
proof fn lemma_count_of_handle_remove(inv: Seq<Possession>, k: int, ah: ArchetypeHandle)
    requires
        0 <= k < inv.len(),
    ensures
        count_of_handle(inv, ah) == count_of_handle(inv.remove(k), ah) + if inv[k].archetype_handle == ah {
            1nat
        } else {
            0nat
        },
{
    let a = inv.take(k);
    let b = inv.skip(k + 1);
    assert(inv =~= a + seq![inv[k]] + b);
    assert(inv.remove(k) =~= a + b);
    lemma_count_of_handle_append(a + seq![inv[k]], b, ah);
    lemma_count_of_handle_append(a, seq![inv[k]], ah);
    lemma_count_of_handle_append(a, b, ah);
    assert(seq![inv[k]].drop_last() =~= Seq::<Possession>::empty());
    assert(count_of_handle(seq![inv[k]], ah) == count_of_handle(Seq::<Possession>::empty(), ah) + if inv[k].archetype_handle
        == ah {
        1nat
    } else {
        0nat
    });
}

/// An inventory whose possessions are among those of another holds at most as
/// many possessions of each archetype.
proof fn lemma_sub_multiset_counts(inv: Seq<Possession>, inv2: Seq<Possession>, ah: ArchetypeHandle)
    requires
        inv.to_multiset().subset_of(inv2.to_multiset()),
    ensures
        count_of_handle(inv, ah) <= count_of_handle(inv2, ah),
    decreases inv.len(),
{
    broadcast use vstd::seq_lib::group_to_multiset_ensures;

    if inv.len() > 0 {
        let x = inv.last();
        let rest = inv.drop_last();
        assert(inv =~= rest.push(x));
        assert(inv.to_multiset() =~= rest.to_multiset().insert(x));
        assert(inv.to_multiset().count(x) > 0);
        assert(inv2.to_multiset().count(x) > 0);
        assert(inv2.contains(x));
        let k = choose|k: int| 0 <= k < inv2.len() && inv2[k] == x;
        let rest2 = inv2.remove(k);
        assert(rest2.to_multiset() =~= inv2.to_multiset().remove(x));
        assert forall|v: Possession| rest.to_multiset().count(v) <= rest2.to_multiset().count(v) by {
            assert(inv.to_multiset().count(v) <= inv2.to_multiset().count(v));
        }
        lemma_sub_multiset_counts(rest, rest2, ah);
        lemma_count_of_handle_remove(inv2, k, ah);
    }
}

/// A recipe that an inventory satisfies is satisfied by any inventory that
/// holds all of its possessions (and maybe more).
pub proof fn law_more_of_an_inventory_still_satisfies(
    r: Recipe<ArchetypeHandle>,
    inv: Seq<Possession>,
    inv2: Seq<Possession>,
)
    requires
        inv.to_multiset().subset_of(inv2.to_multiset()),
        r.satisfied_by(inv),
    ensures
        r.satisfied_by(inv2),
{
    assert forall|ah: ArchetypeHandle| count_of_handle(inv, ah) <= #[trigger] count_of_handle(inv2, ah) by {
        lemma_sub_multiset_counts(inv, inv2, ah);
    }
    law_more_possessions_still_satisfy(r, inv, inv2);
}

/// Whether a possession is of the archetype `ah`.
pub open spec fn of_archetype(ah: ArchetypeHandle) -> spec_fn(Possession) -> bool {
    |p: Possession| p.archetype_handle == ah
}

/// Counting an archetype's possessions is keeping those of that archetype.
proof fn lemma_count_is_filter_len(inv: Seq<Possession>, ah: ArchetypeHandle)
    ensures
        count_of_handle(inv, ah) == inv.filter(of_archetype(ah)).len(),
    decreases inv.len(),
{
    reveal(Seq::filter);
    if inv.len() > 0 {
        lemma_count_is_filter_len(inv.drop_last(), ah);
    }
}

/// An inventory satisfies a recipe exactly when, for every need `(count, ah)`
/// of the recipe, at least `count` of the inventory's possessions are of the
/// archetype `ah`: every need must be met, not just some.
pub proof fn law_satisfied_when_every_need_is_met(r: Recipe<ArchetypeHandle>, inv: Seq<Possession>)
    ensures
        r.satisfied_by(inv) <==> forall|i: int|
            #![trigger r.needs@[i]]
            0 <= i < r.needs@.len() ==> r.needs@[i].0 <= inv.filter(of_archetype(r.needs@[i].1)).len(),
        forall|i: int|
            0 <= i < r.needs@.len() && inv.filter(of_archetype(r.needs@[i].1)).len() < (#[trigger] r.needs@[i]).0
                ==> !r.satisfied_by(inv),
{
    assert forall|i: int| 0 <= i < r.needs@.len() implies count_of_handle(inv, (#[trigger] r.needs@[i]).1)
        == inv.filter(of_archetype(r.needs@[i].1)).len() by {
        lemma_count_is_filter_len(inv, r.needs@[i].1);
    }
}

/// Gaining possessions never makes a satisfied recipe unsatisfied.
pub proof fn law_gaining_possessions_keeps_satisfaction(
    r: Recipe<ArchetypeHandle>,
    inv: Seq<Possession>,
    extra: Seq<Possession>,
)
    requires
        r.satisfied_by(inv),
    ensures
        r.satisfied_by(inv + extra),
{
    assert forall|ah: ArchetypeHandle| count_of_handle(inv, ah) <= #[trigger] count_of_handle(inv + extra, ah) by {
        lemma_count_of_handle_append(inv, extra, ah);
    }
    law_more_possessions_still_satisfy(r, inv, inv + extra);
}

impl Recipe<ArchetypeHandle> {
    /// The inventory holds at least as many possessions of each needed archetype
    /// as the recipe needs.
    pub open spec fn satisfied_by(&self, inv: Seq<Possession>) -> bool {
        forall|i: int|
            0 <= i < self.needs@.len() ==> #[trigger] self.needs@[i].0 <= count_of_handle(
                inv,
                self.needs@[i].1,
            )
    }

    /// Whether the inventory holds everything this recipe needs.
    pub fn satisfies(&self, inv: &[Possession]) -> (r: bool)
        ensures
            r == self.satisfied_by(inv@),
            r <==> forall|i: int|
                #![trigger self.needs@[i]]
                0 <= i < self.needs@.len() ==> self.needs@[i].0 <= inv@.filter(of_archetype(self.needs@[i].1)).len(),
    {
        proof {
            law_satisfied_when_every_need_is_met(*self, inv@);
        }
        let mut i: usize = 0;
        while i < self.needs.len()
            invariant
                i <= self.needs@.len(),
                forall|j: int|
                    0 <= j < i ==> #[trigger] self.needs@[j].0 <= count_of_handle(inv@, self.needs@[j].1),
            decreases self.needs@.len() - i,
        {
            let (count, ah) = self.needs[i];
            let has = count_handle(inv, ah);
            if !(count <= has) {
                proof {
                    lemma_count_is_filter_len(inv@, ah);
                    assert(self.needs@[i as int] == (count, ah));
                }
                return false;
            }
            i = i + 1;
        }
        true
    }

    /// Resolves every handle of this recipe into its archetype; `None` if any
    /// handle points past the configured archetypes.
    pub fn lookup_handles<'a>(self, config: &'a Config) -> (r: Option<Recipe<&'a Archetype>>)
        ensures
            r is Some <==> handles_in_range(*config, self.makes.handles_spec()) && handles_in_range(
                *config,
                needed_handles(self.needs@),
            ),
            r matches Some(q) ==> q.time == self.time && q.destroys_plant == self.destroys_plant
                && q.needs@.len() == self.needs@.len() && (forall|i: int|
                #![trigger q.needs@[i]]
                0 <= i < q.needs@.len() ==> q.needs@[i].0 == self.needs@[i].0 && *q.needs@[i].1
                    == config.possession_archetypes@[self.needs@[i].1 as int]),
            r matches Some(q) ==> makes_looked_up(*config, self.makes, q.makes),
    {
        let ghost makes_hs = self.makes.handles_spec();
        let ghost hs = needed_handles(self.needs@);
        let Recipe { needs, makes, destroys_plant, time } = self;
        assert(makes.handles_spec() == makes_hs);
        assert(hs == needed_handles(needs@));
        let makes = match makes.lookup_handles(config) {
            Some(m) => m,
            None => {
                return None;
            },
        };
        let mut out: Vec<(usize, &'a Archetype)> = Vec::new();
        let mut i: usize = 0;
        while i < needs.len()
            invariant
                i <= needs@.len(),
                out@.len() == i,
                hs == needed_handles(needs@),
                hs == needed_handles(self.needs@),
                forall|j: int|
                    #![trigger out@[j]]
                    0 <= j < i ==> out@[j].0 == needs@[j].0 && needs@[j].1
                        < config.possession_archetypes@.len() && *out@[j].1
                        == config.possession_archetypes@[needs@[j].1 as int],
                forall|j: int|
                    0 <= j < i ==> (#[trigger] needs@[j]).1 < config.possession_archetypes@.len(),
            decreases needs@.len() - i,
        {
            if needs[i].1 < config.possession_archetypes.len() {
                out.push((needs[i].0, &config.possession_archetypes[needs[i].1]));
            } else {
                assert(hs[i as int] == needs@[i as int].1);
                assert(!handles_in_range(*config, hs));
                return None;
            }
            i = i + 1;
        }
        assert(forall|j: int| 0 <= j < hs.len() ==> #[trigger] hs[j] == needs@[j].1);
        assert forall|j: int| 0 <= j < hs.len() implies #[trigger] hs[j]
            < config.possession_archetypes@.len() by {
            assert(hs[j] == needs@[j].1);
        }
        Some(Recipe { needs: out, makes, destroys_plant, time })
    }
}

/// How many possessions of `inv` are of archetype `ah`.
fn count_handle(inv: &[Possession], ah: ArchetypeHandle) -> (r: usize)
    ensures
        r == count_of_handle(inv@, ah),
{
    let mut n: usize = 0;
    let mut i: usize = 0;
    while i < inv.len()
        invariant
            i <= inv@.len(),
            n == count_of_handle(inv@.take(i as int), ah),
            n <= i,
        decreases inv@.len() - i,
    {
        assert(inv@.take(i + 1).drop_last() =~= inv@.take(i as int));
        if inv[i].archetype_handle == ah {
            n = n + 1;
        }
        i = i + 1;
    }
    assert(inv@.take(i as int) =~= inv@);
    n
}

/// `x` is `r` with each name replaced by the handle of the first possession
/// archetype of that name.
pub open spec fn recipe_resolved_as(c: Config, r: Recipe<String>, x: Recipe<usize>) -> bool {
    &&& makes_resolved_as(c, r.makes, x.makes)
    &&& x.needs@.len() == r.needs@.len()
    &&& forall|j: int|
        0 <= j < r.needs@.len() ==> (#[trigger] x.needs@[j]).0 == r.needs@[j].0 && is_first_named(
            c.possession_names(),
            r.needs@[j].1@,
            x.needs@[j].1 as int,
        )
    &&& x.destroys_plant == r.destroys_plant
    &&& x.time == r.time
}

/// The names of counted names, in order.
pub open spec fn need_names(needs: Seq<(usize, String)>) -> Seq<Seq<char>> {
    needs.map_values(|p: (usize, String)| p.1@)
}

impl Recipe<String> {
    /// The names this recipe uses: what it makes, then what it needs.
    pub open spec fn names(&self) -> Seq<Seq<char>> {
        self.makes.names() + need_names(self.needs@)
    }

    /// Looks up the archetype handle of every name the recipe uses: first what
    /// it makes, then what it needs; the first unknown name is an error.
    pub fn find_handles(&self, config: &Config) -> (r: Result<Recipe<usize>, ConfigError>)
        ensures
            r is Ok <==> all_known(self.names(), config.possession_names()),
            r matches Ok(x) ==> recipe_resolved_as(*config, *self, x),
            r matches Err(ConfigError::UnknownArchetypeName(n)) ==> n@ == self.names()[first_missing(
                self.names(),
                config.possession_names(),
            )],
    {
        let ghost known = config.possession_names();
        proof {
            lemma_first_missing_concat(self.makes.names(), need_names(self.needs@), known);
        }
        let makes = match self.makes.resolve(config) {
            Ok(m) => m,
            Err(e) => return Err(e),
        };
        let ghost ns = need_names(self.needs@);
        let mut needs: Vec<(usize, usize)> = Vec::new();
        let mut i: usize = 0;
        while i < self.needs.len()
            invariant
                ns == need_names(self.needs@),
                known == config.possession_names(),
                all_known(self.makes.names(), known),
                i <= self.needs@.len(),
                needs@.len() == i,
                forall|j: int| 0 <= j < i ==> known.contains(#[trigger] ns[j]),
                forall|j: int|
                    0 <= j < i ==> (#[trigger] needs@[j]).0 == self.needs@[j].0 && is_first_named(
                        known,
                        self.needs@[j].1@,
                        needs@[j].1 as int,
                    ),
            decreases self.needs@.len() - i,
        {
            match config.find_possession_handle(self.needs[i].1.as_str()) {
                Ok(h) => {
                    proof {
                        assert(known[h as int] == ns[i as int]);
                    }
                    needs.push((self.needs[i].0, h));
                },
                Err(e) => {
                    proof {
                        assert(is_first_missing(ns, known, i as int));
                        lemma_first_missing_unique(ns, known, i as int);
                        lemma_first_missing_concat(self.makes.names(), ns, known);
                    }
                    return Err(e);
                },
            }
            i = i + 1;
        }
        proof {
            lemma_first_missing_concat(self.makes.names(), ns, known);
        }
        Ok(Recipe { makes, needs, destroys_plant: self.destroys_plant, time: self.time })
    }
}

} // verus!
