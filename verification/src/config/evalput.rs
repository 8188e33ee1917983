//! Evalputs: configurable recipes for output (xp and items), with chances and
//! repetitions. `f64` chances and counts are held as IEEE-754 bit patterns;
//! evaluating an evalput reads them and happens outside this crate's verified part.

use vstd::prelude::*;
use crate::config::verify::{concat, first_failing, is_first_failing, lemma_first_failing_unique, push_str,
    with_note, Problem, RawConfig, VerifError, VerifResult};
use crate::hackstead::item;

verus! {

/// What evaluating an evalput produced.
#[derive(Clone, Debug)]
pub struct Output<I> {
    pub xp: usize,
    pub items: Vec<I>,
}

impl<I> Output<I> {
    /// An output with no xp and no items.
    pub fn new() -> (r: Self)
        ensures
            r.xp == 0,
            r.items@.len() == 0,
    {
        Self { xp: 0, items: Vec::new() }
    }
}

/// One row of a `OneOf`: its chance, and what it yields.
#[derive(Debug)]
pub struct OneOfRow<I>(pub OneOfChance, pub Evalput<I>);

#[derive(Debug)]
pub enum Evalput<I> {
    All(Vec<Evalput<I>>),
    OneOf(Vec<OneOfRow<I>>),
    Amount(Repeats, Box<Evalput<I>>),
    /// The chance is an `f64` bit pattern.
    Chance(u64, Box<Evalput<I>>),
    Xp(Repeats),
    Item(I),
    Nothing,
}

/// An evalput as written in a configuration file, naming items by name.
pub type RawEvalput = Evalput<String>;

/// How many times something repeats.
#[derive(Clone, Copy, Debug, PartialEq, Eq, Structural)]
pub enum Repeats {
    Exactly(u64),
    /// An `f64` bit pattern.
    Just(u64),
    /// Two `f64` bit patterns.
    Between(u64, u64),
}

/// The chance of a `OneOf` row: a number, or whatever chance is left.
#[derive(Clone, Copy, Debug, PartialEq, Eq, Structural)]
pub enum OneOfChance {
    Rest,
    /// An `f64` bit pattern.
    Chance(u64),
}

impl OneOfChance {
    /// The chance, if this row names one.
    pub fn chance(self) -> (r: Option<u64>)
        ensures
            self matches OneOfChance::Chance(f) ==> r == Some(f),
            self is Rest ==> r is None,
    {
        match self {
            OneOfChance::Chance(f) => Some(f),
            OneOfChance::Rest => None,
        }
    }

    /// Whether this row takes whatever chance is left.
    pub fn is_rest(&self) -> (r: bool)
        ensures
            r == self is Rest,
    {
        match self {
            OneOfChance::Rest => true,
            _ => false,
        }
    }
}

/// `b` is `a` with each item `x` replaced by a value `f` may make of `x`.
pub open spec fn mapped<I, T, F: Fn(I) -> T>(a: Evalput<I>, b: Evalput<T>, f: F) -> bool
    decreases a,
{
    match (a, b) {
        (Evalput::All(xs), Evalput::All(ys)) => {
            &&& xs@.len() == ys@.len()
            &&& forall|i: int| 0 <= i < xs@.len() ==> mapped(#[trigger] xs@[i], ys@[i], f)
        },
        (Evalput::OneOf(xs), Evalput::OneOf(ys)) => {
            &&& xs@.len() == ys@.len()
            &&& forall|i: int|
                0 <= i < xs@.len() ==> (#[trigger] xs@[i]).0 == ys@[i].0 && mapped(xs@[i].1, ys@[i].1, f)
        },
        (Evalput::Amount(r1, b1), Evalput::Amount(r2, b2)) => r1 == r2 && mapped(*b1, *b2, f),
        (Evalput::Chance(c1, b1), Evalput::Chance(c2, b2)) => c1 == c2 && mapped(*b1, *b2, f),
        (Evalput::Xp(r1), Evalput::Xp(r2)) => r1 == r2,
        (Evalput::Item(x), Evalput::Item(y)) => call_ensures(f, (x,), y),
        (Evalput::Nothing, Evalput::Nothing) => true,
        _ => false,
    }
}

impl<I> Evalput<I> {
    /// This evalput, with each item replaced by what `map` makes of it.
    pub fn map_item<T, F: Fn(I) -> T>(self, map: &F) -> (r: Evalput<T>)
        requires
            forall|x: I| call_requires(*map, (x,)),
        ensures
            mapped(self, r, *map),
        decreases self,
    {
        match self {
            Evalput::All(these) => {
                let ghost orig = these@;
                let mut rest = these;
                let mut out: Vec<Evalput<T>> = Vec::new();
                while rest.len() > 0
                    invariant
                        forall|x: I| call_requires(*map, (x,)),
                        self == Evalput::All(self->All_0),
                        orig == self->All_0@,
                        out@.len() <= orig.len(),
                        rest@ == orig.subrange(out@.len() as int, orig.len() as int),
                        forall|j: int| 0 <= j < out@.len() ==> mapped(#[trigger] orig[j], out@[j], *map),
                    decreases rest@.len(),
                {
                    let k = out.len();
                    let x = rest.remove(0);
                    assert(x == orig[k as int]);
                    assert(decreases_to!(self => self->All_0));
                    assert(decreases_to!(self->All_0 => self->All_0@));
                    assert(decreases_to!(self->All_0@ => orig[k as int]));
                    out.push(x.map_item(map));
                }
                Evalput::All(out)
            },
            Evalput::OneOf(rows) => {
                let ghost orig = rows@;
                let mut rest = rows;
                let mut out: Vec<OneOfRow<T>> = Vec::new();
                while rest.len() > 0
                    invariant
                        forall|x: I| call_requires(*map, (x,)),
                        self == Evalput::OneOf(self->OneOf_0),
                        orig == self->OneOf_0@,
                        out@.len() <= orig.len(),
                        rest@ == orig.subrange(out@.len() as int, orig.len() as int),
                        forall|j: int|
                            0 <= j < out@.len() ==> (#[trigger] orig[j]).0 == out@[j].0 && mapped(
                                orig[j].1,
                                out@[j].1,
                                *map,
                            ),
                    decreases rest@.len(),
                {
                    let k = out.len();
                    let OneOfRow(c, x) = rest.remove(0);
                    assert(x == orig[k as int].1);
                    assert(decreases_to!(self => self->OneOf_0));
                    assert(decreases_to!(self->OneOf_0 => self->OneOf_0@));
                    assert(decreases_to!(self->OneOf_0@ => orig[k as int]));
                    assert(decreases_to!(orig[k as int] => orig[k as int].1));
                    out.push(OneOfRow(c, x.map_item(map)));
                }
                Evalput::OneOf(out)
            },
            Evalput::Amount(r, body) => Evalput::Amount(r, Box::new((*body).map_item(map))),
            Evalput::Chance(c, body) => Evalput::Chance(c, Box::new((*body).map_item(map))),
            Evalput::Xp(r) => Evalput::Xp(r),
            Evalput::Item(x) => Evalput::Item(map(x)),
            Evalput::Nothing => Evalput::Nothing,
        }
    }
}

/// `x` is one of the items of `a`.
pub open spec fn contains_item<I>(a: Evalput<I>, x: I) -> bool
    decreases a,
{
    match a {
        Evalput::All(xs) => exists|i: int| 0 <= i < xs@.len() && contains_item(#[trigger] xs@[i], x),
        Evalput::OneOf(xs) => exists|i: int|
            0 <= i < xs@.len() && contains_item((#[trigger] xs@[i]).1, x),
        Evalput::Amount(_, b) => contains_item(*b, x),
        Evalput::Chance(_, b) => contains_item(*b, x),
        Evalput::Item(y) => y == x,
        _ => false,
    }
}

/// `b` is `a` with each item `x` replaced by a `y` for which `f` may give `Ok(y)`.
pub open spec fn ok_mapped<I, T, E, F: Fn(I) -> Result<T, E>>(a: Evalput<I>, b: Evalput<T>, f: F) -> bool
    decreases a,
{
    match (a, b) {
        (Evalput::All(xs), Evalput::All(ys)) => {
            &&& xs@.len() == ys@.len()
            &&& forall|i: int| 0 <= i < xs@.len() ==> ok_mapped(#[trigger] xs@[i], ys@[i], f)
        },
        (Evalput::OneOf(xs), Evalput::OneOf(ys)) => {
            &&& xs@.len() == ys@.len()
            &&& forall|i: int|
                0 <= i < xs@.len() ==> (#[trigger] xs@[i]).0 == ys@[i].0 && ok_mapped(xs@[i].1, ys@[i].1, f)
        },
        (Evalput::Amount(r1, b1), Evalput::Amount(r2, b2)) => r1 == r2 && ok_mapped(*b1, *b2, f),
        (Evalput::Chance(c1, b1), Evalput::Chance(c2, b2)) => c1 == c2 && ok_mapped(*b1, *b2, f),
        (Evalput::Xp(r1), Evalput::Xp(r2)) => r1 == r2,
        (Evalput::Item(x), Evalput::Item(y)) => call_ensures(f, (x,), Ok(y)),
        (Evalput::Nothing, Evalput::Nothing) => true,
        _ => false,
    }
}

/// Some evalput is what `f` may map `a` to.
pub open spec fn can_map<I, T, E, F: Fn(I) -> Result<T, E>>(a: Evalput<I>, f: F) -> bool {
    exists|b: Evalput<T>| ok_mapped(a, b, f)
}

/// `e` is the error of the first item of `a`, in depth-first order, for which
/// `f` gave an error: `f` gave it for that item, and `f` could map every item
/// before it.
pub open spec fn fails_first<I, T, E, F: Fn(I) -> Result<T, E>>(a: Evalput<I>, f: F, e: E) -> bool
    decreases a,
{
    match a {
        Evalput::All(xs) => exists|i: int|
            0 <= i < xs@.len() && (forall|j: int|
                0 <= j < i ==> can_map(#[trigger] xs@[j], f)) && fails_first(
                #[trigger] xs@[i],
                f,
                e,
            ),
        Evalput::OneOf(xs) => exists|i: int|
            0 <= i < xs@.len() && (forall|j: int|
                0 <= j < i ==> can_map((#[trigger] xs@[j]).1, f)) && fails_first(
                (#[trigger] xs@[i]).1,
                f,
                e,
            ),
        Evalput::Amount(_, b) => fails_first(*b, f, e),
        Evalput::Chance(_, b) => fails_first(*b, f, e),
        Evalput::Item(x) => call_ensures(f, (x,), Err(e)),
        _ => false,
    }
}

/// `f` never gives an error.
pub open spec fn never_fails<I, T, E, F: Fn(I) -> Result<T, E>>(f: F) -> bool {
    forall|x: I, y: Result<T, E>| call_ensures(f, (x,), y) ==> y is Ok
}

impl<I> Evalput<I> {
    /// This evalput with each item replaced by what `ok_or` makes of it; the
    /// first item (in order) for which `ok_or` fails makes the whole fail.
    pub fn ok_or_item<T, E, F: Fn(I) -> Result<T, E>>(self, ok_or: &F) -> (r: Result<Evalput<T>, E>)
        requires
            forall|x: I| call_requires(*ok_or, (x,)),
        ensures
            r matches Ok(b) ==> ok_mapped(self, b, *ok_or),
            r matches Err(e) ==> exists|x: I| contains_item(self, x) && call_ensures(*ok_or, (x,), Err(e)),
            r matches Err(e) ==> fails_first(self, *ok_or, e),
            never_fails(*ok_or) ==> r is Ok,
        decreases self,
    {
        match self {
            Evalput::All(these) => {
                let ghost orig = these@;
                let mut rest = these;
                let mut out: Vec<Evalput<T>> = Vec::new();
                while rest.len() > 0
                    invariant
                        forall|x: I| call_requires(*ok_or, (x,)),
                        self == Evalput::All(self->All_0),
                        orig == self->All_0@,
                        out@.len() <= orig.len(),
                        rest@ == orig.subrange(out@.len() as int, orig.len() as int),
                        forall|j: int| 0 <= j < out@.len() ==> ok_mapped(#[trigger] orig[j], out@[j], *ok_or),
                    decreases rest@.len(),
                {
                    let k = out.len();
                    let x = rest.remove(0);
                    assert(x == orig[k as int]);
                    assert(decreases_to!(self => self->All_0));
                    assert(decreases_to!(self->All_0 => self->All_0@));
                    assert(decreases_to!(self->All_0@ => orig[k as int]));
                    match x.ok_or_item(ok_or) {
                        Ok(y) => out.push(y),
                        Err(e) => {
                            proof {
                                let z = choose|z: I| contains_item(orig[k as int], z) && call_ensures(*ok_or, (z,), Err(e));
                                assert(contains_item(self, z));
                                assert forall|j: int| 0 <= j < k implies can_map(#[trigger] orig[j], *ok_or) by {
                                    assert(ok_mapped(orig[j], out@[j], *ok_or));
                                }
                                assert(fails_first(orig[k as int], *ok_or, e));
                                assert(fails_first(self, *ok_or, e));
                            }
                            return Err(e);
                        },
                    }
                }
                Ok(Evalput::All(out))
            },
            Evalput::OneOf(rows) => {
                let ghost orig = rows@;
                let mut rest = rows;
                let mut out: Vec<OneOfRow<T>> = Vec::new();
                while rest.len() > 0
                    invariant
                        forall|x: I| call_requires(*ok_or, (x,)),
                        self == Evalput::OneOf(self->OneOf_0),
                        orig == self->OneOf_0@,
                        out@.len() <= orig.len(),
                        rest@ == orig.subrange(out@.len() as int, orig.len() as int),
                        forall|j: int|
                            0 <= j < out@.len() ==> (#[trigger] orig[j]).0 == out@[j].0 && ok_mapped(
                                orig[j].1,
                                out@[j].1,
                                *ok_or,
                            ),
                    decreases rest@.len(),
                {
                    let k = out.len();
                    let OneOfRow(c, x) = rest.remove(0);
                    assert(x == orig[k as int].1);
                    assert(decreases_to!(self => self->OneOf_0));
                    assert(decreases_to!(self->OneOf_0 => self->OneOf_0@));
                    assert(decreases_to!(self->OneOf_0@ => orig[k as int]));
                    assert(decreases_to!(orig[k as int] => orig[k as int].1));
                    match x.ok_or_item(ok_or) {
                        Ok(y) => out.push(OneOfRow(c, y)),
                        Err(e) => {
                            proof {
                                let z = choose|z: I| contains_item(orig[k as int].1, z) && call_ensures(*ok_or, (z,), Err(e));
                                assert(contains_item(self, z));
                                assert forall|j: int| 0 <= j < k implies can_map((#[trigger] orig[j]).1, *ok_or) by {
                                    assert(ok_mapped(orig[j].1, out@[j].1, *ok_or));
                                }
                                assert(fails_first(orig[k as int].1, *ok_or, e));
                            }
                            return Err(e);
                        },
                    }
                }
                Ok(Evalput::OneOf(out))
            },
            Evalput::Amount(r, body) => match (*body).ok_or_item(ok_or) {
                Ok(b) => Ok(Evalput::Amount(r, Box::new(b))),
                Err(e) => {
                    proof {
                        let z = choose|z: I| contains_item(*body, z) && call_ensures(*ok_or, (z,), Err(e));
                        assert(contains_item(self, z));
                    }
                    Err(e)
                },
            },
            Evalput::Chance(c, body) => match (*body).ok_or_item(ok_or) {
                Ok(b) => Ok(Evalput::Chance(c, Box::new(b))),
                Err(e) => {
                    proof {
                        let z = choose|z: I| contains_item(*body, z) && call_ensures(*ok_or, (z,), Err(e));
                        assert(contains_item(self, z));
                    }
                    Err(e)
                },
            },
            Evalput::Xp(r) => Ok(Evalput::Xp(r)),
            Evalput::Item(x) => {
                let ghost x0 = x;
                match ok_or(x) {
                    Ok(y) => Ok(Evalput::Item(y)),
                    Err(e) => {
                        assert(contains_item(self, x0));
                        Err(e)
                    },
                }
            },
            Evalput::Nothing => Ok(Evalput::Nothing),
        }
    }
}

/// The word naming the kind of an evalput node.
pub open spec fn node_word<I>(e: Evalput<I>) -> Seq<char> {
    match e {
        Evalput::All(_) => "All"@,
        Evalput::OneOf(_) => "OneOf"@,
        Evalput::Amount(_, _) => "Amount"@,
        Evalput::Chance(_, _) => "Chance"@,
        Evalput::Xp(_) => "Xp"@,
        Evalput::Item(_) => "Item"@,
        Evalput::Nothing => "Nothing"@,
    }
}

/// The note an error found in an evalput node gains.
pub open spec fn node_note<I>(e: Evalput<I>) -> Seq<char> {
    "in an evalput's "@ + node_word(e) + " node"@
}

/// The note an error found in this evalput node gains.
pub fn node_context<I>(e: &Evalput<I>) -> (r: String)
    ensures
        r@ == node_note(*e),
{
    let word = match e {
        Evalput::All(_) => "All",
        Evalput::OneOf(_) => "OneOf",
        Evalput::Amount(_, _) => "Amount",
        Evalput::Chance(_, _) => "Chance",
        Evalput::Xp(_) => "Xp",
        Evalput::Item(_) => "Item",
        Evalput::Nothing => "Nothing",
    };
    let mut s = concat("in an evalput's ", word);
    push_str(&mut s, " node");
    s
}

/// `check` passes every node of `e`, no `OneOf` of `e` has only one option,
/// and `out` is `e` with each item name replaced by the conf of the first item
/// of that name in `raw`.
pub open spec fn checked_as<F: Fn(&RawEvalput) -> VerifResult<()>>(
    e: RawEvalput,
    raw: RawConfig,
    check: F,
    out: Evalput<item::Conf>,
) -> bool
    decreases e,
{
    &&& passes(check, e)
    &&& match (e, out) {
        (Evalput::All(xs), Evalput::All(ys)) => {
            &&& xs@.len() == ys@.len()
            &&& forall|i: int| 0 <= i < xs@.len() ==> checked_as(#[trigger] xs@[i], raw, check, ys@[i])
        },
        (Evalput::OneOf(xs), Evalput::OneOf(ys)) => {
            &&& xs@.len() != 1
            &&& xs@.len() == ys@.len()
            &&& forall|i: int|
                0 <= i < xs@.len() ==> (#[trigger] xs@[i]).0 == ys@[i].0 && checked_as(
                    xs@[i].1,
                    raw,
                    check,
                    ys@[i].1,
                )
        },
        (Evalput::Amount(r1, b1), Evalput::Amount(r2, b2)) => r1 == r2 && checked_as(*b1, raw, check, *b2),
        (Evalput::Chance(c1, b1), Evalput::Chance(c2, b2)) => c1 == c2 && checked_as(*b1, raw, check, *b2),
        (Evalput::Xp(r1), Evalput::Xp(r2)) => r1 == r2,
        (Evalput::Item(n), Evalput::Item(c)) => raw.has_item(n@) && c == raw.item_conf_spec(n@),
        (Evalput::Nothing, Evalput::Nothing) => true,
        _ => false,
    }
}

/// Every item of `e` names a configured item, and no `OneOf` of `e` has only one option.
pub open spec fn sound_evalput(e: RawEvalput, raw: RawConfig) -> bool
    decreases e,
{
    match e {
        Evalput::All(xs) => forall|i: int| 0 <= i < xs@.len() ==> sound_evalput(#[trigger] xs@[i], raw),
        Evalput::OneOf(xs) => xs@.len() != 1 && forall|i: int|
            0 <= i < xs@.len() ==> sound_evalput((#[trigger] xs@[i]).1, raw),
        Evalput::Amount(_, b) => sound_evalput(*b, raw),
        Evalput::Chance(_, b) => sound_evalput(*b, raw),
        Evalput::Item(n) => raw.has_item(n@),
        _ => true,
    }
}

/// `check` may pass the node `e`.
pub open spec fn passes<F: Fn(&RawEvalput) -> VerifResult<()>>(check: F, e: RawEvalput) -> bool {
    exists|r: VerifResult<()>| call_ensures(check, (&e,), r) && r is Ok
}

/// Every result `check` can give on `e` is Ok.
pub open spec fn always_passes<F: Fn(&RawEvalput) -> VerifResult<()>>(check: F, e: RawEvalput) -> bool {
    forall|y: VerifResult<()>| call_ensures(check, (&e,), y) ==> y is Ok
}

/// `check` passes `e` and every node below it, whatever it may give.
pub open spec fn passes_within<F: Fn(&RawEvalput) -> VerifResult<()>>(check: F, e: RawEvalput) -> bool
    decreases e,
{
    &&& always_passes(check, e)
    &&& match e {
        Evalput::All(xs) => forall|i: int| 0 <= i < xs@.len() ==> passes_within(check, #[trigger] xs@[i]),
        Evalput::OneOf(xs) => forall|i: int|
            0 <= i < xs@.len() ==> passes_within(check, (#[trigger] xs@[i]).1),
        Evalput::Amount(_, b) => passes_within(check, *b),
        Evalput::Chance(_, b) => passes_within(check, *b),
        _ => true,
    }
}

/// `e` checks out against `raw` with `check`, to some evalput.
pub open spec fn checks_out<F: Fn(&RawEvalput) -> VerifResult<()>>(e: RawEvalput, raw: RawConfig, check: F) -> bool {
    exists|out: Evalput<item::Conf>| checked_as(e, raw, check, out)
}

/// `err` is an error that checking `e` can end in: the first step of the walk
/// that fails, in order (the caller's check on a node, a `OneOf` with one
/// option, a child, an unknown item name), with the note of each node from it
/// outwards.
pub open spec fn fails_with<F: Fn(&RawEvalput) -> VerifResult<()>>(
    e: RawEvalput,
    raw: RawConfig,
    check: F,
    err: (Problem, Seq<Seq<char>>),
) -> bool
    decreases e,
{
    &&& err.1.len() > 0
    &&& err.1.last() == node_note(e)
    &&& {
        ||| exists|x: VerifError|
            #[trigger] call_ensures(check, (&e,), Err::<(), VerifError>(x)) && x@ == (err.0, err.1.drop_last())
        ||| passes(check, e) && match e {
            Evalput::All(xs) => exists|i: int|
                #![trigger xs@[i]]
                0 <= i < xs@.len() && (forall|j: int| 0 <= j < i ==> checks_out(#[trigger] xs@[j], raw, check))
                    && fails_with(xs@[i], raw, check, (err.0, err.1.drop_last())),
            Evalput::OneOf(rows) => if rows@.len() == 1 {
                (err.0, err.1.drop_last()) == (Problem::Custom(
                    "There is no point in having a OneOf with only one option."@,
                ), Seq::<Seq<char>>::empty())
            } else {
                exists|i: int|
                    #![trigger rows@[i]]
                    0 <= i < rows@.len() && (forall|j: int|
                        0 <= j < i ==> checks_out((#[trigger] rows@[j]).1, raw, check)) && fails_with(
                        rows@[i].1,
                        raw,
                        check,
                        (err.0, err.1.drop_last()),
                    )
            },
            Evalput::Amount(_, b) => fails_with(*b, raw, check, (err.0, err.1.drop_last())),
            Evalput::Chance(_, b) => fails_with(*b, raw, check, (err.0, err.1.drop_last())),
            Evalput::Item(n) => !raw.has_item(n@) && (err.0, err.1.drop_last()) == (
                Problem::UnknownItem(n@),
                Seq::<Seq<char>>::empty(),
            ),
            _ => false,
        }
    }
}

/// An evalput that checks out uses only configured items and has no `OneOf`
/// with a single option.
pub proof fn lemma_checked_sound<F: Fn(&RawEvalput) -> VerifResult<()>>(
    e: RawEvalput,
    raw: RawConfig,
    check: F,
    out: Evalput<item::Conf>,
)
    requires
        checked_as(e, raw, check, out),
    ensures
        sound_evalput(e, raw),
    decreases e,
{
    match (e, out) {
        (Evalput::All(xs), Evalput::All(ys)) => {
            assert forall|i: int| 0 <= i < xs@.len() implies sound_evalput(#[trigger] xs@[i], raw) by {
                assert(decreases_to!(e => xs));
                assert(decreases_to!(xs => xs@));
                assert(decreases_to!(xs@ => xs@[i]));
                lemma_checked_sound(xs@[i], raw, check, ys@[i]);
            }
        },
        (Evalput::OneOf(xs), Evalput::OneOf(ys)) => {
            assert forall|i: int| 0 <= i < xs@.len() implies sound_evalput((#[trigger] xs@[i]).1, raw) by {
                assert(decreases_to!(e => xs));
                assert(decreases_to!(xs => xs@));
                assert(decreases_to!(xs@ => xs@[i]));
                assert(decreases_to!(xs@[i] => xs@[i].1));
                lemma_checked_sound(xs@[i].1, raw, check, ys@[i].1);
            }
        },
        (Evalput::Amount(_, b1), Evalput::Amount(_, b2)) => {
            lemma_checked_sound(*b1, raw, check, *b2);
        },
        (Evalput::Chance(_, b1), Evalput::Chance(_, b2)) => {
            lemma_checked_sound(*b1, raw, check, *b2);
        },
        _ => {},
    }
}

/// Soundness of evalputs in `raw`, as a predicate.
pub open spec fn sound_in(raw: RawConfig) -> spec_fn(RawEvalput) -> bool {
    |x: RawEvalput| sound_evalput(x, raw)
}

/// Soundness of the evalputs of `OneOf` rows in `raw`, as a predicate.
pub open spec fn row_sound_in(raw: RawConfig) -> spec_fn(OneOfRow<String>) -> bool {
    |x: OneOfRow<String>| sound_evalput(x.1, raw)
}

/// The error that checking an unsound evalput finds when the caller's check
/// passes every node in it: the first node, in order, that is a `OneOf` with a single
/// option or names an unknown item, with the note of each node from it
/// outwards.
pub open spec fn evalput_error(e: RawEvalput, raw: RawConfig) -> (Problem, Seq<Seq<char>>)
    decreases e,
{
    let inner = match e {
        Evalput::All(xs) => {
            let i = first_failing(xs@, sound_in(raw));
            if 0 <= i < xs@.len() {
                evalput_error(xs@[i], raw)
            } else {
                (Problem::Custom(Seq::empty()), Seq::empty())
            }
        },
        Evalput::OneOf(rows) => if rows@.len() == 1 {
            (Problem::Custom("There is no point in having a OneOf with only one option."@), Seq::empty())
        } else {
            let i = first_failing(rows@, row_sound_in(raw));
            if 0 <= i < rows@.len() {
                evalput_error(rows@[i].1, raw)
            } else {
                (Problem::Custom(Seq::empty()), Seq::empty())
            }
        },
        Evalput::Amount(_, b) => evalput_error(*b, raw),
        Evalput::Chance(_, b) => evalput_error(*b, raw),
        Evalput::Item(n) => (Problem::UnknownItem(n@), Seq::empty()),
        _ => (Problem::Custom(Seq::empty()), Seq::empty()),
    };
    with_note(inner, node_note(e))
}

/// Checks an evalput of a configuration against `raw`, node by node from the
/// top: first `check` on the node, then that a `OneOf` has more than one
/// option, then the node's children in order, and an item's name; an error
/// found in a node gains that node's note.
pub fn verify_with<F: Fn(&RawEvalput) -> VerifResult<()>>(e: &RawEvalput, raw: &RawConfig, check: &F) -> (r: VerifResult<Evalput<item::Conf>>)
    requires
        forall|x: &RawEvalput| call_requires(*check, (x,)),
    ensures
        r matches Ok(out) ==> checked_as(*e, *raw, *check, out),
        passes_within(*check, *e) && sound_evalput(*e, *raw) ==> r is Ok,
        passes_within(*check, *e) && !sound_evalput(*e, *raw) ==> (r matches Err(err) && err@
            == evalput_error(*e, *raw)),
        r matches Err(err) ==> fails_with(*e, *raw, *check, err@),
        r matches Err(err) ==> err@.1.len() > 0 && err@.1.last() == node_note(*e),
    decreases e,
{
    let context = node_context(e);
    let res = check(e);
    assert(call_ensures(*check, (e,), res));
    match res {
        Err(err) => {
            assert(!passes_within(*check, *e));
            assert(err@.1.push(context@).drop_last() =~= err@.1);
            return Err(err.noted(context));
        },
        Ok(()) => {
            assert(passes(*check, *e));
        },
    }
    match e {
        Evalput::All(these) => {
            let mut out: Vec<Evalput<item::Conf>> = Vec::new();
            let mut i: usize = 0;
            while i < these.len()
                invariant
                    forall|x: &RawEvalput| call_requires(*check, (x,)),
                    passes(*check, *e),
                    context@ == node_note(*e),
                    *e == Evalput::All(e->All_0),
                    *these == e->All_0,
                    i <= these@.len(),
                    out@.len() == i,
                    forall|j: int| 0 <= j < i ==> checked_as(#[trigger] these@[j], *raw, *check, out@[j]),
                    forall|j: int| 0 <= j < i ==> sound_evalput(#[trigger] these@[j], *raw),
                decreases these@.len() - i,
            {
                assert(decreases_to!(*e => e->All_0));
                assert(decreases_to!(e->All_0 => e->All_0@));
                assert(decreases_to!(e->All_0@ => these@[i as int]));
                match verify_with(&these[i], raw, check) {
                    Ok(v) => {
                        proof {
                            lemma_checked_sound(these@[i as int], *raw, *check, v);
                        }
                        out.push(v);
                    },
                    Err(err) => {
                        proof {
                            assert(err@.1.push(context@).drop_last() =~= err@.1);
                            assert forall|j: int| 0 <= j < i implies checks_out(#[trigger] these@[j], *raw, *check) by {
                                assert(checked_as(these@[j], *raw, *check, out@[j]));
                            }
                            assert(fails_with(these@[i as int], *raw, *check, err@));
                            if passes_within(*check, *e) {
                                assert(passes_within(*check, these@[i as int]));
                            }
                            if passes_within(*check, *e) && sound_evalput(*e, *raw) {
                                assert(sound_evalput(these@[i as int], *raw));
                            }
                            if passes_within(*check, *e) {
                                assert(!sound_evalput(these@[i as int], *raw));
                                assert(is_first_failing(these@, sound_in(*raw), i as int));
                                lemma_first_failing_unique(these@, sound_in(*raw), i as int);
                            }
                        }
                        return Err(err.noted(context));
                    },
                }
                i = i + 1;
            }
            Ok(Evalput::All(out))
        },
        Evalput::OneOf(rows) => {
            if rows.len() == 1 {
                let single = VerifError::custom("There is no point in having a OneOf with only one option.");
                assert(single@.1.push(context@).drop_last() =~= single@.1);
                return Err(single.noted(context));
            }
            let mut out: Vec<OneOfRow<item::Conf>> = Vec::new();
            let mut i: usize = 0;
            while i < rows.len()
                invariant
                    forall|x: &RawEvalput| call_requires(*check, (x,)),
                    passes(*check, *e),
                    context@ == node_note(*e),
                    *e == Evalput::OneOf(e->OneOf_0),
                    *rows == e->OneOf_0,
                    rows@.len() != 1,
                    i <= rows@.len(),
                    out@.len() == i,
                    forall|j: int|
                        0 <= j < i ==> (#[trigger] rows@[j]).0 == out@[j].0 && checked_as(
                            rows@[j].1,
                            *raw,
                            *check,
                            out@[j].1,
                        ),
                    forall|j: int| 0 <= j < i ==> sound_evalput((#[trigger] rows@[j]).1, *raw),
                decreases rows@.len() - i,
            {
                assert(decreases_to!(*e => e->OneOf_0));
                assert(decreases_to!(e->OneOf_0 => e->OneOf_0@));
                assert(decreases_to!(e->OneOf_0@ => rows@[i as int]));
                assert(decreases_to!(rows@[i as int] => rows@[i as int].1));
                match verify_with(&rows[i].1, raw, check) {
                    Ok(v) => {
                        proof {
                            lemma_checked_sound(rows@[i as int].1, *raw, *check, v);
                        }
                        out.push(OneOfRow(rows[i].0, v));
                    },
                    Err(err) => {
                        proof {
                            assert(err@.1.push(context@).drop_last() =~= err@.1);
                            assert forall|j: int| 0 <= j < i implies checks_out((#[trigger] rows@[j]).1, *raw, *check) by {
                                assert(checked_as(rows@[j].1, *raw, *check, out@[j].1));
                            }
                            assert(fails_with(rows@[i as int].1, *raw, *check, err@));
                            if passes_within(*check, *e) {
                                assert(passes_within(*check, rows@[i as int].1));
                            }
                            if passes_within(*check, *e) && sound_evalput(*e, *raw) {
                                assert(sound_evalput(rows@[i as int].1, *raw));
                            }
                            if passes_within(*check, *e) {
                                assert(!sound_evalput(rows@[i as int].1, *raw));
                                assert(is_first_failing(rows@, row_sound_in(*raw), i as int));
                                lemma_first_failing_unique(rows@, row_sound_in(*raw), i as int);
                            }
                        }
                        return Err(err.noted(context));
                    },
                }
                i = i + 1;
            }
            Ok(Evalput::OneOf(out))
        },
        Evalput::Amount(m, body) => match verify_with(&**body, raw, check) {
            Ok(v) => Ok(Evalput::Amount(*m, Box::new(v))),
            Err(err) => {
                assert(err@.1.push(context@).drop_last() =~= err@.1);
                Err(err.noted(context))
            },
        },
        Evalput::Chance(c, body) => match verify_with(&**body, raw, check) {
            Ok(v) => Ok(Evalput::Chance(*c, Box::new(v))),
            Err(err) => {
                assert(err@.1.push(context@).drop_last() =~= err@.1);
                Err(err.noted(context))
            },
        },
        Evalput::Xp(x) => Ok(Evalput::Xp(*x)),
        Evalput::Item(name) => match raw.item_conf(name.as_str()) {
            Ok(c) => Ok(Evalput::Item(c)),
            Err(err) => {
                assert(err@.1.push(context@).drop_last() =~= err@.1);
                Err(err.noted(context))
            },
        },
        Evalput::Nothing => Ok(Evalput::Nothing),
    }
}

} // verus!
