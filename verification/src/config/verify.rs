//! Checking a configuration as read from its files: every name it uses must
//! name something it defines. An error carries what went wrong and the trail
//! of places it was found in, innermost first.

use vstd::prelude::*;
use crate::archetype::is_first_named;
use crate::hackstead::{self, item, plant};
use crate::hackstead::plant::skill::RawSkill;
use vstd::string::StringExecFns;

verus! {

/// Appends `t` to `s`.
pub(crate) fn push_str(s: &mut String, t: &str)
    ensures
        final(s)@ == old(s)@ + t@,
{
    s.append(t)
}

/// `prefix` followed by `t`, as a new `String`.
pub(crate) fn concat(prefix: &str, t: &str) -> (r: String)
    ensures
        r@ == prefix@ + t@,
{
    let mut s = prefix.to_owned();
    push_str(&mut s, t);
    s
}

/// The first position of `name` in `names`, when it occurs.
pub open spec fn first_index(names: Seq<Seq<char>>, name: Seq<char>) -> int {
    choose|i: int| is_first_named(names, name, i)
}

/// A name occurs first in at most one position.
pub proof fn lemma_first_named_unique(names: Seq<Seq<char>>, name: Seq<char>, i: int)
    requires
        is_first_named(names, name, i),
    ensures
        first_index(names, name) == i,
{
    let k = first_index(names, name);
    assert(is_first_named(names, name, k));
    if k < i {
        assert(names[k] != name);
    } else if i < k {
        assert(names[i] != name);
    }
}

/// What went wrong, with its texts as sequences of characters.
pub enum Problem {
    UnknownItem(Seq<char>),
    UnknownPlant(Seq<char>),
    UnknownPlantSkill(plant::Conf, Seq<char>),
    Custom(Seq<char>),
}

/// What went wrong while checking a configuration. Close matches for an
/// unknown name are looked up by whoever shows the error.
#[derive(Clone, Debug)]
pub enum VerifErrorKind {
    UnknownItem(String),
    UnknownPlant(String),
    UnknownPlantSkill(plant::Conf, String),
    Custom(String),
}

impl View for VerifErrorKind {
    type V = Problem;

    open spec fn view(&self) -> Problem {
        match self {
            VerifErrorKind::UnknownItem(s) => Problem::UnknownItem(s@),
            VerifErrorKind::UnknownPlant(s) => Problem::UnknownPlant(s@),
            VerifErrorKind::UnknownPlantSkill(c, s) => Problem::UnknownPlantSkill(*c, s@),
            VerifErrorKind::Custom(s) => Problem::Custom(s@),
        }
    }
}

/// An error found while checking a configuration: what went wrong, and where,
/// as notes from the innermost place outwards.
#[derive(Clone, Debug)]
pub struct VerifError {
    pub kind: VerifErrorKind,
    pub source: Vec<String>,
}

/// Strings, each as a sequence of characters.
pub open spec fn texts(s: Seq<String>) -> Seq<Seq<char>> {
    s.map_values(|t: String| t@)
}

impl View for VerifError {
    type V = (Problem, Seq<Seq<char>>);

    open spec fn view(&self) -> (Problem, Seq<Seq<char>>) {
        (self.kind@, texts(self.source@))
    }
}

impl VerifError {
    /// An error of this kind, found nowhere in particular yet.
    pub fn new(kind: VerifErrorKind) -> (r: Self)
        ensures
            r.kind == kind,
            r.source@.len() == 0,
            r@ == (kind@, Seq::<Seq<char>>::empty()),
    {
        let r = VerifError { kind, source: Vec::new() };
        assert(texts(r.source@) =~= Seq::<Seq<char>>::empty());
        r
    }

    /// An error that says `s`.
    pub fn custom(s: &str) -> (r: Self)
        ensures
            r@ == (Problem::Custom(s@), Seq::<Seq<char>>::empty()),
    {
        VerifError::new(VerifErrorKind::Custom(s.to_owned()))
    }

    /// The same error, found inside the place that `context` describes.
    pub fn noted(self, context: String) -> (r: Self)
        ensures
            r@ == (self@.0, self@.1.push(context@)),
    {
        let mut e = self;
        let ghost before = e.source@;
        e.source.push(context);
        assert(texts(e.source@) =~= texts(before).push(context@));
        e
    }
}

pub type VerifResult<T> = Result<T, VerifError>;

/// Adding a note to the trail of an error.
pub trait VerifNote: Sized {
    fn note(self, context: &str) -> Self;
}

impl<T> VerifNote for Result<T, VerifError> {
    /// A failure gains the note `context`; a success is unchanged.
    fn note(self, context: &str) -> (r: Self)
        ensures
            self is Ok ==> r == self,
            self matches Err(e) ==> r matches Err(f) && f@ == (e@.0, e@.1.push(context@)),
    {
        match self {
            Ok(v) => Ok(v),
            Err(e) => Err(e.noted(context.to_owned())),
        }
    }
}

/// A value read from a file, with the file's name.
#[derive(Clone, Debug)]
pub struct FromFile<V> {
    pub inner: V,
    pub file: String,
}

impl<V> FromFile<V> {
    pub fn new(inner: V, file: String) -> (r: Self)
        ensures
            r.inner == inner,
            r.file == file,
    {
        Self { inner, file }
    }

    /// The value `f` makes of this one, from the same file.
    pub fn map<T, F: FnOnce(V) -> T>(self, f: F) -> (r: FromFile<T>)
        requires
            call_requires(f, (self.inner,)),
        ensures
            call_ensures(f, (self.inner,), r.inner),
            r.file == self.file,
    {
        FromFile { inner: f(self.inner), file: self.file }
    }
}

impl<V> core::ops::Deref for FromFile<V> {
    type Target = V;

    fn deref(&self) -> (r: &V)
        ensures
            *r == self.inner,
    {
        &self.inner
    }
}

/// A configuration as read from its files, before its names are checked.
/// A `plant::Conf` is the position of its plant among `plants`.
#[derive(Debug)]
pub struct RawConfig {
    pub plants: Vec<FromFile<plant::RawConfig>>,
    pub items: Vec<FromFile<item::RawConfig>>,
    pub hackstead: FromFile<hackstead::Config>,
}

impl RawConfig {
    /// The names of the plants, in order.
    pub open spec fn plant_names(&self) -> Seq<Seq<char>> {
        self.plants@.map_values(|p: FromFile<plant::RawConfig>| p.inner.name@)
    }

    /// The names of the items, in order.
    pub open spec fn item_names(&self) -> Seq<Seq<char>> {
        self.items@.map_values(|i: FromFile<item::RawConfig>| i.inner.name@)
    }

    pub open spec fn has_plant(&self, name: Seq<char>) -> bool {
        self.plant_names().contains(name)
    }

    pub open spec fn has_item(&self, name: Seq<char>) -> bool {
        self.item_names().contains(name)
    }

    /// The conf of the first plant with this name.
    pub open spec fn plant_conf_spec(&self, name: Seq<char>) -> plant::Conf {
        plant::Conf(first_index(self.plant_names(), name) as usize)
    }

    /// The conf of the first item with this name.
    pub open spec fn item_conf_spec(&self, name: Seq<char>) -> item::Conf {
        self.items@[first_index(self.item_names(), name)].inner.conf
    }

    /// The titles of the skills of the plant with this conf, in order.
    pub open spec fn skill_titles(&self, plant_conf: plant::Conf) -> Seq<Seq<char>> {
        self.plants@[plant_conf.0 as int].inner.skills.inner@.map_values(|s: RawSkill| s.title@)
    }

    pub open spec fn has_skill(&self, plant_conf: plant::Conf, title: Seq<char>) -> bool {
        self.skill_titles(plant_conf).contains(title)
    }

    /// The conf of the first skill with this title on the plant with this conf.
    pub open spec fn skill_conf_spec(&self, plant_conf: plant::Conf, title: Seq<char>) -> plant::skill::Conf {
        plant::skill::Conf(
            plant_conf,
            self.plants@[plant_conf.0 as int].inner.skills.inner@[first_index(
                self.skill_titles(plant_conf),
                title,
            )].conf,
        )
    }

    /// Whether this conf names one of the plants.
    pub open spec fn valid_plant(&self, plant_conf: plant::Conf) -> bool {
        plant_conf.0 < self.plants@.len()
    }

    /// The conf of the first item with this name.
    pub fn item_conf(&self, item_name: &str) -> (r: VerifResult<item::Conf>)
        ensures
            r is Ok <==> self.has_item(item_name@),
            r matches Ok(c) ==> c == self.item_conf_spec(item_name@),
            r matches Err(e) ==> e@ == (Problem::UnknownItem(item_name@), Seq::<Seq<char>>::empty()),
    {
        let target = item_name.to_owned();
        let mut i: usize = 0;
        while i < self.items.len()
            invariant
                target@ == item_name@,
                i <= self.items@.len(),
                forall|j: int| 0 <= j < i ==> self.item_names()[j] != item_name@,
            decreases self.items@.len() - i,
        {
            if self.items[i].inner.name == target {
                proof {
                    assert(self.item_names()[i as int] == item_name@);
                    lemma_first_named_unique(self.item_names(), item_name@, i as int);
                }
                return Ok(self.items[i].inner.conf);
            }
            i = i + 1;
        }
        assert(!self.has_item(item_name@)) by {
            assert forall|j: int| 0 <= j < self.item_names().len() implies self.item_names()[j]
                != item_name@ by {}
        }
        Err(VerifError::new(VerifErrorKind::UnknownItem(target)))
    }

    /// The conf of the first plant with this name.
    pub fn plant_conf(&self, plant_name: &str) -> (r: VerifResult<plant::Conf>)
        ensures
            r is Ok <==> self.has_plant(plant_name@),
            r matches Ok(c) ==> c == self.plant_conf_spec(plant_name@) && self.valid_plant(c),
            r matches Err(e) ==> e@ == (Problem::UnknownPlant(plant_name@), Seq::<Seq<char>>::empty()),
    {
        let target = plant_name.to_owned();
        let mut i: usize = 0;
        while i < self.plants.len()
            invariant
                target@ == plant_name@,
                i <= self.plants@.len(),
                forall|j: int| 0 <= j < i ==> self.plant_names()[j] != plant_name@,
            decreases self.plants@.len() - i,
        {
            if self.plants[i].inner.name == target {
                proof {
                    assert(self.plant_names()[i as int] == plant_name@);
                    lemma_first_named_unique(self.plant_names(), plant_name@, i as int);
                }
                return Ok(plant::Conf(i));
            }
            i = i + 1;
        }
        assert(!self.has_plant(plant_name@)) by {
            assert forall|j: int| 0 <= j < self.plant_names().len() implies self.plant_names()[j]
                != plant_name@ by {}
        }
        Err(VerifError::new(VerifErrorKind::UnknownPlant(target)))
    }

    /// The plant with this conf.
    pub fn plant(&self, conf: plant::Conf) -> (r: &plant::RawConfig)
        requires
            self.valid_plant(conf),
        ensures
            *r == self.plants@[conf.0 as int].inner,
    {
        &self.plants[conf.0].inner
    }

    /// The conf of the first skill with this title on the plant with this conf.
    pub fn plant_skill_conf(&self, plant_conf: plant::Conf, skill_title: &str) -> (r: VerifResult<
        plant::skill::Conf,
    >)
        requires
            self.valid_plant(plant_conf),
        ensures
            r is Ok <==> self.has_skill(plant_conf, skill_title@),
            r matches Ok(c) ==> c == self.skill_conf_spec(plant_conf, skill_title@),
            r matches Err(e) ==> e@ == (
                Problem::UnknownPlantSkill(plant_conf, skill_title@),
                Seq::<Seq<char>>::empty(),
            ),
    {
        let skills = &self.plant(plant_conf).skills.inner;
        let target = skill_title.to_owned();
        let ghost titles = self.skill_titles(plant_conf);
        let mut i: usize = 0;
        while i < skills.len()
            invariant
                target@ == skill_title@,
                *skills == self.plants@[plant_conf.0 as int].inner.skills.inner,
                titles == self.skill_titles(plant_conf),
                i <= skills@.len(),
                forall|j: int| 0 <= j < i ==> titles[j] != skill_title@,
            decreases skills@.len() - i,
        {
            if skills[i].title == target {
                proof {
                    assert(titles[i as int] == skill_title@);
                    lemma_first_named_unique(titles, skill_title@, i as int);
                }
                return Ok(plant::skill::Conf(plant_conf, skills[i].conf));
            }
            i = i + 1;
        }
        assert(!self.has_skill(plant_conf, skill_title@)) by {
            assert forall|j: int| 0 <= j < titles.len() implies titles[j] != skill_title@ by {}
        }
        Err(VerifError::new(VerifErrorKind::UnknownPlantSkill(plant_conf, target)))
    }
}

/// `i` is the first position in `s` of something that `ok` does not hold of.
pub open spec fn is_first_failing<A>(s: Seq<A>, ok: spec_fn(A) -> bool, i: int) -> bool {
    &&& 0 <= i < s.len()
    &&& !ok(s[i])
    &&& forall|j: int| 0 <= j < i ==> ok(#[trigger] s[j])
}

/// The first position in `s` of something that `ok` does not hold of, when there is one.
pub open spec fn first_failing<A>(s: Seq<A>, ok: spec_fn(A) -> bool) -> int {
    choose|i: int| is_first_failing(s, ok, i)
}

pub proof fn lemma_first_failing_unique<A>(s: Seq<A>, ok: spec_fn(A) -> bool, i: int)
    requires
        is_first_failing(s, ok, i),
    ensures
        first_failing(s, ok) == i,
{
    let k = first_failing(s, ok);
    assert(is_first_failing(s, ok, k));
    if k < i {
        assert(ok(s[k]));
    } else if i < k {
        assert(ok(s[i]));
    }
}

/// When `ok` fails somewhere in `s`, there is a first place where it fails.
pub proof fn lemma_first_failing_exists<A>(s: Seq<A>, ok: spec_fn(A) -> bool)
    requires
        exists|i: int| 0 <= i < s.len() && !ok(#[trigger] s[i]),
    ensures
        is_first_failing(s, ok, first_failing(s, ok)),
    decreases s.len(),
{
    if !ok(s[0]) {
        assert(is_first_failing(s, ok, 0));
    } else {
        let rest = s.drop_first();
        let i = choose|i: int| 0 <= i < s.len() && !ok(#[trigger] s[i]);
        assert(!ok(rest[i - 1]));
        lemma_first_failing_exists(rest, ok);
        let k = first_failing(rest, ok);
        assert(is_first_failing(s, ok, k + 1)) by {
            assert forall|j: int| 0 <= j < k + 1 implies ok(#[trigger] s[j]) by {
                if j > 0 {
                    assert(s[j] == rest[j - 1]);
                }
            }
            assert(s[k + 1] == rest[k]);
        }
        lemma_first_failing_unique(s, ok, k + 1);
    }
}

/// The error `e` with the note `note` added to its trail.
pub open spec fn with_note(e: (Problem, Seq<Seq<char>>), note: Seq<char>) -> (Problem, Seq<Seq<char>>) {
    (e.0, e.1.push(note))
}

/// `i` is the first position in `names` of a name that `known` lacks.
pub open spec fn is_first_missing(names: Seq<Seq<char>>, known: Seq<Seq<char>>, i: int) -> bool {
    &&& 0 <= i < names.len()
    &&& !known.contains(names[i])
    &&& forall|j: int| 0 <= j < i ==> known.contains(names[j])
}

/// The first position in `names` of a name that `known` lacks, when there is one.
pub open spec fn first_missing(names: Seq<Seq<char>>, known: Seq<Seq<char>>) -> int {
    choose|i: int| is_first_missing(names, known, i)
}

/// Every name in `names` is in `known`.
pub open spec fn all_known(names: Seq<Seq<char>>, known: Seq<Seq<char>>) -> bool {
    forall|i: int| 0 <= i < names.len() ==> known.contains(names[i])
}

pub proof fn lemma_first_missing_unique(names: Seq<Seq<char>>, known: Seq<Seq<char>>, i: int)
    requires
        is_first_missing(names, known, i),
    ensures
        first_missing(names, known) == i,
{
    let k = first_missing(names, known);
    assert(is_first_missing(names, known, k));
    if k < i {
        assert(known.contains(names[k]));
    } else if i < k {
        assert(known.contains(names[i]));
    }
}

/// A list with an unknown name has a first unknown name.
pub proof fn lemma_first_missing_exists(names: Seq<Seq<char>>, known: Seq<Seq<char>>)
    requires
        !all_known(names, known),
    ensures
        is_first_missing(names, known, first_missing(names, known)),
    decreases names.len(),
{
    if !known.contains(names[0]) {
        assert(is_first_missing(names, known, 0));
    } else {
        let rest = names.drop_first();
        assert(!all_known(rest, known)) by {
            let j = choose|j: int| 0 <= j < names.len() && !known.contains(names[j]);
            assert(rest[j - 1] == names[j]);
        }
        lemma_first_missing_exists(rest, known);
        let k = first_missing(rest, known);
        assert(is_first_missing(names, known, k + 1)) by {
            assert forall|j: int| 0 <= j < k + 1 implies known.contains(names[j]) by {
                if j > 0 {
                    assert(names[j] == rest[j - 1]);
                }
            }
            assert(names[k + 1] == rest[k]);
        }
    }
    let i = choose|i: int| is_first_missing(names, known, i);
    lemma_first_missing_unique(names, known, i);
}

/// Checking `a` then `b` finds every name known exactly when both parts do;
/// the first unknown name is the first of `a`, or else the first of `b`.
pub proof fn lemma_first_missing_concat(a: Seq<Seq<char>>, b: Seq<Seq<char>>, known: Seq<Seq<char>>)
    ensures
        all_known(a + b, known) <==> all_known(a, known) && all_known(b, known),
        !all_known(a + b, known) ==> (a + b)[first_missing(a + b, known)] == if all_known(a, known) {
            b[first_missing(b, known)]
        } else {
            a[first_missing(a, known)]
        },
{
    let ab = a + b;
    if !all_known(a, known) {
        let j = choose|j: int| 0 <= j < a.len() && !known.contains(a[j]);
        assert(ab[j] == a[j]);
        lemma_first_missing_exists(a, known);
        let k = first_missing(a, known);
        assert(is_first_missing(ab, known, k)) by {
            assert forall|i: int| 0 <= i < k implies known.contains(ab[i]) by {
                assert(ab[i] == a[i]);
            }
            assert(ab[k] == a[k]);
        }
        lemma_first_missing_unique(ab, known, k);
    } else if !all_known(b, known) {
        let j = choose|j: int| 0 <= j < b.len() && !known.contains(b[j]);
        assert(ab[a.len() + j] == b[j]);
        lemma_first_missing_exists(b, known);
        let k = first_missing(b, known);
        assert(is_first_missing(ab, known, a.len() + k)) by {
            assert forall|i: int| 0 <= i < a.len() + k implies known.contains(ab[i]) by {
                if i < a.len() {
                    assert(ab[i] == a[i]);
                } else {
                    assert(ab[i] == b[i - a.len()]);
                }
            }
            assert(ab[a.len() + k] == b[k]);
        }
        lemma_first_missing_unique(ab, known, a.len() + k);
    } else {
        assert forall|i: int| 0 <= i < ab.len() implies known.contains(ab[i]) by {
            if i < a.len() {
                assert(ab[i] == a[i]);
            } else {
                assert(ab[i] == b[i - a.len()]);
            }
        }
    }
}

/// The plant confs of these plant names, in order; the first unknown name is an error.
pub fn plant_confs(raw: &RawConfig, names: &Vec<String>) -> (r: VerifResult<Vec<plant::Conf>>)
    ensures
        r is Ok <==> all_known(texts(names@), raw.plant_names()),
        r matches Ok(cs) ==> cs@.len() == names@.len() && forall|i: int|
            0 <= i < names@.len() ==> cs@[i] == raw.plant_conf_spec(#[trigger] names@[i]@),
        r matches Err(e) ==> e@ == (
            Problem::UnknownPlant(names@[first_missing(texts(names@), raw.plant_names())]@),
            Seq::<Seq<char>>::empty(),
        ),
{
    let ghost ns = texts(names@);
    let mut out: Vec<plant::Conf> = Vec::new();
    let mut i: usize = 0;
    while i < names.len()
        invariant
            ns == texts(names@),
            i <= names@.len(),
            out@.len() == i,
            forall|j: int| 0 <= j < i ==> raw.plant_names().contains(#[trigger] ns[j]),
            forall|j: int| 0 <= j < i ==> out@[j] == raw.plant_conf_spec(#[trigger] names@[j]@),
        decreases names@.len() - i,
    {
        match raw.plant_conf(names[i].as_str()) {
            Ok(c) => {
                out.push(c);
            },
            Err(e) => {
                proof {
                    assert(is_first_missing(ns, raw.plant_names(), i as int));
                    lemma_first_missing_unique(ns, raw.plant_names(), i as int);
                }
                return Err(e);
            },
        }
        i = i + 1;
    }
    Ok(out)
}

/// The item confs of these counted item names, in order; the first unknown name is an error.
pub fn item_confs(raw: &RawConfig, needs: &Vec<(usize, String)>) -> (r: VerifResult<
    Vec<(usize, item::Conf)>,
>)
    ensures
        r is Ok <==> all_known(counted_names(needs@), raw.item_names()),
        r matches Ok(cs) ==> cs@.len() == needs@.len() && forall|i: int|
            0 <= i < needs@.len() ==> #[trigger] cs@[i] == (
                needs@[i].0,
                raw.item_conf_spec(needs@[i].1@),
            ),
        r matches Err(e) ==> e@ == (
            Problem::UnknownItem(
                needs@[first_missing(counted_names(needs@), raw.item_names())].1@,
            ),
            Seq::<Seq<char>>::empty(),
        ),
{
    let ghost ns = counted_names(needs@);
    let mut out: Vec<(usize, item::Conf)> = Vec::new();
    let mut i: usize = 0;
    while i < needs.len()
        invariant
            ns == counted_names(needs@),
            i <= needs@.len(),
            out@.len() == i,
            forall|j: int| 0 <= j < i ==> raw.item_names().contains(#[trigger] ns[j]),
            forall|j: int|
                0 <= j < i ==> #[trigger] out@[j] == (needs@[j].0, raw.item_conf_spec(needs@[j].1@)),
        decreases needs@.len() - i,
    {
        let n = needs[i].0;
        match raw.item_conf(needs[i].1.as_str()) {
            Ok(c) => {
                out.push((n, c));
            },
            Err(e) => {
                proof {
                    assert(is_first_missing(ns, raw.item_names(), i as int));
                    lemma_first_missing_unique(ns, raw.item_names(), i as int);
                }
                return Err(e);
            },
        }
        i = i + 1;
    }
    Ok(out)
}

/// The names of counted names, in order.
pub open spec fn counted_names(s: Seq<(usize, String)>) -> Seq<Seq<char>> {
    s.map_values(|p: (usize, String)| p.1@)
}

/// The skill confs of these skill titles on one plant, in order; the first
/// unknown title is an error.
pub fn skill_confs(raw: &RawConfig, plant_conf: plant::Conf, titles: &Vec<String>) -> (r: VerifResult<
    Vec<plant::skill::Conf>,
>)
    requires
        raw.valid_plant(plant_conf),
    ensures
        r is Ok <==> all_known(texts(titles@), raw.skill_titles(plant_conf)),
        r matches Ok(cs) ==> cs@.len() == titles@.len() && forall|i: int|
            0 <= i < titles@.len() ==> cs@[i] == raw.skill_conf_spec(
                plant_conf,
                #[trigger] titles@[i]@,
            ),
        r matches Err(e) ==> e@ == (
            Problem::UnknownPlantSkill(
                plant_conf,
                titles@[first_missing(texts(titles@), raw.skill_titles(plant_conf))]@,
            ),
            Seq::<Seq<char>>::empty(),
        ),
{
    let ghost ns = texts(titles@);
    let ghost known = raw.skill_titles(plant_conf);
    let mut out: Vec<plant::skill::Conf> = Vec::new();
    let mut i: usize = 0;
    while i < titles.len()
        invariant
            ns == texts(titles@),
            known == raw.skill_titles(plant_conf),
            raw.valid_plant(plant_conf),
            i <= titles@.len(),
            out@.len() == i,
            forall|j: int| 0 <= j < i ==> known.contains(#[trigger] ns[j]),
            forall|j: int|
                0 <= j < i ==> out@[j] == raw.skill_conf_spec(plant_conf, #[trigger] titles@[j]@),
        decreases titles@.len() - i,
    {
        match raw.plant_skill_conf(plant_conf, titles[i].as_str()) {
            Ok(c) => {
                out.push(c);
            },
            Err(e) => {
                proof {
                    assert(is_first_missing(ns, known, i as int));
                    lemma_first_missing_unique(ns, known, i as int);
                }
                return Err(e);
            },
        }
        i = i + 1;
    }
    Ok(out)
}

/// Checking something read from a configuration file against the whole
/// configuration, replacing the names it uses by what they name.
pub trait Verify: Sized {
    type Verified;

    /// Whether this can be checked against `raw` at all.
    spec fn checkable(&self, raw: &RawConfig) -> bool;

    /// Whether every name this uses names something in `raw`.
    spec fn resolves(&self, raw: &RawConfig) -> bool;

    /// Whether `v` is this, with its names replaced by what they name in `raw`.
    spec fn resolved_as(&self, raw: &RawConfig, v: Self::Verified) -> bool;

    /// The error that checking this against `raw` finds, when it finds one.
    spec fn error_spec(&self, raw: &RawConfig) -> (Problem, Seq<Seq<char>>);

    /// The note this adds to the trail of an error found inside it.
    spec fn context_spec(&self) -> Option<Seq<char>>;

    fn verify_raw(self, raw: &RawConfig) -> (r: VerifResult<Self::Verified>)
        requires
            self.checkable(raw),
        ensures
            r is Ok <==> self.resolves(raw),
            r matches Ok(v) ==> self.resolved_as(raw, v),
            r matches Err(e) ==> e@ == self.error_spec(raw),
    ;

    fn context(&self) -> (r: Option<String>)
        ensures
            r is None <==> self.context_spec() is None,
            r matches Some(s) ==> self.context_spec() == Some(s@),
    ;

    /// Checks this against `raw`; an error found inside gains this one's note.
    fn verify(self, raw: &RawConfig) -> (r: VerifResult<Self::Verified>)
        requires
            self.checkable(raw),
        ensures
            r is Ok <==> self.resolves(raw),
            r matches Ok(v) ==> self.resolved_as(raw, v),
            r matches Err(e) ==> e@ == (match self.context_spec() {
                Some(c) => (self.error_spec(raw).0, self.error_spec(raw).1.push(c)),
                None => self.error_spec(raw),
            }),
    {
        let context = self.context();
        match self.verify_raw(raw) {
            Ok(v) => Ok(v),
            Err(e) => match context {
                Some(c) => Err(e.noted(c)),
                None => Err(e),
            },
        }
    }
}

/// The error that checking `x` against `raw` finds, with `x`'s note added.
pub open spec fn noted_error<V: Verify>(x: V, raw: &RawConfig) -> (Problem, Seq<Seq<char>>) {
    let e = x.error_spec(raw);
    match x.context_spec() {
        Some(c) => (e.0, e.1.push(c)),
        None => e,
    }
}

/// `i` is the first position in `s` of something that does not resolve in `raw`.
pub open spec fn is_first_unresolved<V: Verify>(s: Seq<V>, raw: &RawConfig, i: int) -> bool {
    &&& 0 <= i < s.len()
    &&& !s[i].resolves(raw)
    &&& forall|j: int| 0 <= j < i ==> s[j].resolves(raw)
}

pub open spec fn first_unresolved<V: Verify>(s: Seq<V>, raw: &RawConfig) -> int {
    choose|i: int| is_first_unresolved(s, raw, i)
}

pub proof fn lemma_first_unresolved_unique<V: Verify>(s: Seq<V>, raw: &RawConfig, i: int)
    requires
        is_first_unresolved(s, raw, i),
    ensures
        first_unresolved(s, raw) == i,
{
    let k = first_unresolved(s, raw);
    assert(is_first_unresolved(s, raw, k));
    if k < i {
        assert(s[k].resolves(raw));
    } else if i < k {
        assert(s[i].resolves(raw));
    }
}

impl<V: Verify> Verify for Vec<V> {
    type Verified = Vec<V::Verified>;

    open spec fn checkable(&self, raw: &RawConfig) -> bool {
        forall|i: int| 0 <= i < self@.len() ==> #[trigger] self@[i].checkable(raw)
    }

    open spec fn resolves(&self, raw: &RawConfig) -> bool {
        forall|i: int| 0 <= i < self@.len() ==> #[trigger] self@[i].resolves(raw)
    }

    open spec fn resolved_as(&self, raw: &RawConfig, v: Vec<V::Verified>) -> bool {
        &&& v@.len() == self@.len()
        &&& forall|i: int| 0 <= i < self@.len() ==> #[trigger] self@[i].resolved_as(raw, v@[i])
    }

    open spec fn error_spec(&self, raw: &RawConfig) -> (Problem, Seq<Seq<char>>) {
        noted_error(self@[first_unresolved(self@, raw)], raw)
    }

    open spec fn context_spec(&self) -> Option<Seq<char>> {
        None
    }

    /// Checks each element in order; the first error stops the check.
    fn verify_raw(self, raw: &RawConfig) -> (r: VerifResult<Vec<V::Verified>>) {
        let ghost all = self@;
        let mut rest = self;
        let mut out: Vec<V::Verified> = Vec::new();
        while rest.len() > 0
            invariant
                all == self@,
                out@.len() <= all.len(),
                rest@ == all.subrange(out@.len() as int, all.len() as int),
                forall|j: int| 0 <= j < all.len() ==> #[trigger] all[j].checkable(raw),
                forall|j: int| 0 <= j < out@.len() ==> #[trigger] all[j].resolves(raw),
                forall|j: int| 0 <= j < out@.len() ==> #[trigger] all[j].resolved_as(raw, out@[j]),
            decreases rest@.len(),
        {
            let k = out.len();
            let x = rest.remove(0);
            assert(x == all[k as int]);
            match x.verify(raw) {
                Ok(v) => {
                    out.push(v);
                },
                Err(e) => {
                    proof {
                        assert(!all[k as int].resolves(raw));
                        assert(is_first_unresolved(all, raw, k as int));
                        lemma_first_unresolved_unique(all, raw, k as int);
                        assert(e@ == noted_error(all[k as int], raw));
                    }
                    return Err(e);
                },
            }
        }
        assert(out@.len() == all.len());
        Ok(out)
    }

    fn context(&self) -> (r: Option<String>) {
        None
    }
}

impl<V: Verify> Verify for Option<V> {
    type Verified = Option<V::Verified>;

    open spec fn checkable(&self, raw: &RawConfig) -> bool {
        match self {
            Some(x) => x.checkable(raw),
            None => true,
        }
    }

    open spec fn resolves(&self, raw: &RawConfig) -> bool {
        match self {
            Some(x) => x.resolves(raw),
            None => true,
        }
    }

    open spec fn resolved_as(&self, raw: &RawConfig, v: Option<V::Verified>) -> bool {
        match (self, v) {
            (Some(x), Some(y)) => x.resolved_as(raw, y),
            (None, None) => true,
            _ => false,
        }
    }

    open spec fn error_spec(&self, raw: &RawConfig) -> (Problem, Seq<Seq<char>>) {
        match self {
            Some(x) => noted_error(*x, raw),
            None => (Problem::Custom(Seq::empty()), Seq::empty()),
        }
    }

    open spec fn context_spec(&self) -> Option<Seq<char>> {
        None
    }

    fn verify_raw(self, raw: &RawConfig) -> (r: VerifResult<Option<V::Verified>>) {
        match self {
            Some(x) => match x.verify(raw) {
                Ok(v) => Ok(Some(v)),
                Err(e) => Err(e),
            },
            None => Ok(None),
        }
    }

    fn context(&self) -> (r: Option<String>) {
        None
    }
}

impl<V: Verify> Verify for FromFile<V> {
    type Verified = V::Verified;

    open spec fn checkable(&self, raw: &RawConfig) -> bool {
        self.inner.checkable(raw)
    }

    open spec fn resolves(&self, raw: &RawConfig) -> bool {
        self.inner.resolves(raw)
    }

    open spec fn resolved_as(&self, raw: &RawConfig, v: V::Verified) -> bool {
        self.inner.resolved_as(raw, v)
    }

    open spec fn error_spec(&self, raw: &RawConfig) -> (Problem, Seq<Seq<char>>) {
        noted_error(self.inner, raw)
    }

    open spec fn context_spec(&self) -> Option<Seq<char>> {
        Some("from a file "@ + self.file@)
    }

    fn verify_raw(self, raw: &RawConfig) -> (r: VerifResult<V::Verified>) {
        self.inner.verify(raw)
    }

    fn context(&self) -> (r: Option<String>) {
        Some(concat("from a file ", self.file.as_str()))
    }
}

} // verus!
