//! Identifiers for steaders, tiles and items, the `UserId` enum, and the
//! errors returned when a lookup by identifier finds nothing.

use vstd::prelude::*;

verus! {

/// The bits are those of a random (version 4, RFC 4122) UUID: version nibble 4
/// and variant bits `10`.
pub open spec fn is_random_uuid(u: u128) -> bool {
    &&& (u >> 76u128) & 0xfu128 == 4
    &&& (u >> 62u128) & 0x3u128 == 2
}

/// Draws a fresh random identifier.
///
/// Calls `uuid::Uuid::new_v4` and hands back its 128 bits, most significant
/// byte first (`as_u128`). The bits are random, but for those that `new_v4`
/// always sets: the version nibble (4, random) and the variant bits (`10`,
/// RFC 4122).
#[verifier::external_body]
pub(crate) fn fresh_uuid() -> (r: u128)
    ensures
        is_random_uuid(r),
{
    uuid::Uuid::new_v4().as_u128()
}

/// Identifies a tile of land; the 128 bits of a UUID.
#[derive(Clone, Copy, Debug, PartialEq, Eq, Hash, Structural)]
pub struct TileId(pub u128);

/// Identifies a hacksteader; the 128 bits of a UUID.
#[derive(Clone, Copy, Debug, PartialEq, Eq, Hash, Structural)]
pub struct SteaderId(pub u128);

/// Identifies an item; the 128 bits of a UUID.
#[derive(Clone, Copy, Debug, PartialEq, Eq, Hash, Structural)]
pub struct ItemId(pub u128);

/// Identifies a rub effect applied to a plant; the 128 bits of a UUID.
#[derive(Clone, Copy, Debug, PartialEq, Eq, Hash, Structural)]
pub struct RubEffectId(pub u128);

/// A steader has no item with this id.
#[derive(Clone, Copy, Debug, PartialEq, Eq, Structural)]
pub struct NoSuchItem(pub SteaderId, pub ItemId);

/// A steader has no tile with this id.
#[derive(Clone, Copy, Debug, PartialEq, Eq, Structural)]
pub struct NoSuchTile(pub SteaderId, pub TileId);

/// A steader has this tile, but no plant grows on it.
#[derive(Clone, Copy, Debug, PartialEq, Eq, Structural)]
pub struct NoSuchPlantOnTile(pub SteaderId, pub TileId);

/// The plant on this tile carries no rub effect with this id.
#[derive(Clone, Copy, Debug, PartialEq, Eq, Structural)]
pub struct NoSuchRubEffectOnPlant(pub SteaderId, pub TileId, pub RubEffectId);

/// The item exists but holds no gotchi.
#[derive(Clone, Copy, Debug, PartialEq, Eq, Structural)]
pub struct NoSuchGotchiOnItem(pub SteaderId, pub ItemId);

/// Any of the "no such thing" lookup failures.
#[derive(Clone, Copy, Debug, PartialEq, Eq, Structural)]
pub enum NoSuch {
    Plant(NoSuchPlantOnTile),
    Item(NoSuchItem),
    Tile(NoSuchTile),
    Effect(NoSuchRubEffectOnPlant),
    Gotchi(NoSuchGotchiOnItem),
}

pub type NoSuchResult<T> = Result<T, NoSuch>;

/// The lower-case hex digit for a value below sixteen.
pub open spec fn hex_digit(d: int) -> char {
    if d < 10 {
        (48 + d) as char
    } else {
        (87 + d) as char
    }
}

/// The text of the UUID with these 128 bits: its 32 hex digits, most
/// significant first, in groups of 8, 4, 4, 4 and 12 joined by hyphens.
pub open spec fn uuid_chars(bits: u128) -> Seq<char> {
    Seq::new(
        36,
        |i: int|
            if i == 8 || i == 13 || i == 18 || i == 23 {
                '-'
            } else {
                let k = if i < 8 {
                    i
                } else if i < 13 {
                    i - 1
                } else if i < 18 {
                    i - 2
                } else if i < 23 {
                    i - 3
                } else {
                    i - 4
                };
                hex_digit(((bits >> ((124 - 4 * k) as u128)) & 15u128) as int)
            },
    )
}

/// The text of the UUID with these 128 bits, written by `uuid::Uuid`'s
/// `Display`: in the `uuid` crate's source it writes the hyphenated form, in
/// lower-case hex, the most significant byte first (`Uuid::from_u128` takes
/// the bytes most significant first).
#[verifier::external_body]
pub(crate) fn uuid_text(bits: u128) -> (r: String)
    ensures
        r@ == uuid_chars(bits),
{
    uuid::Uuid::from_u128(bits).to_string()
}

impl SteaderId {
    /// The text of this id.
    pub fn text(&self) -> (r: String)
        ensures
            r@ == uuid_chars(self.0),
    {
        uuid_text(self.0)
    }
}

impl TileId {
    /// The text of this id.
    pub fn text(&self) -> (r: String)
        ensures
            r@ == uuid_chars(self.0),
    {
        uuid_text(self.0)
    }
}

impl ItemId {
    /// The text of this id.
    pub fn text(&self) -> (r: String)
        ensures
            r@ == uuid_chars(self.0),
    {
        uuid_text(self.0)
    }
}

impl RubEffectId {
    /// The text of this id.
    pub fn text(&self) -> (r: String)
        ensures
            r@ == uuid_chars(self.0),
    {
        uuid_text(self.0)
    }
}

/// What a failed lookup says.
pub open spec fn no_such_message(e: NoSuch) -> Seq<char> {
    match e {
        NoSuch::Item(NoSuchItem(s, i)) => "steader "@ + uuid_chars(s.0) + " has no such item "@ + uuid_chars(i.0),
        NoSuch::Tile(NoSuchTile(s, t)) => "steader "@ + uuid_chars(s.0) + " has no such tile "@ + uuid_chars(t.0),
        NoSuch::Plant(NoSuchPlantOnTile(s, t)) => "steader "@ + uuid_chars(s.0) + " has tile "@ + uuid_chars(t.0)
            + ", but it's not occupied by a plant."@,
        NoSuch::Effect(NoSuchRubEffectOnPlant(s, t, x)) => "steader "@ + uuid_chars(s.0) + " has a tile "@
            + uuid_chars(t.0) + " with a plant on it, but that plant is missing the effect "@ + uuid_chars(x.0)
            + "."@,
        NoSuch::Gotchi(NoSuchGotchiOnItem(s, i)) => "steader "@ + uuid_chars(s.0) + " has an item "@ + uuid_chars(
            i.0,
        ) + " with no gotchi"@,
    }
}

/// `prefix`, then `a`, then `middle`, then `b`.
fn interleave(prefix: &str, a: &str, middle: &str, b: &str) -> (r: String)
    ensures
        r@ == prefix@ + a@ + middle@ + b@,
{
    let mut s = crate::config::verify::concat(prefix, a);
    crate::config::verify::push_str(&mut s, middle);
    crate::config::verify::push_str(&mut s, b);
    s
}

impl NoSuch {
    /// What this failed lookup says.
    pub fn text(&self) -> (r: String)
        ensures
            r@ == no_such_message(*self),
    {
        match self {
            NoSuch::Item(NoSuchItem(s, i)) => interleave(
                "steader ",
                s.text().as_str(),
                " has no such item ",
                i.text().as_str(),
            ),
            NoSuch::Tile(NoSuchTile(s, t)) => interleave(
                "steader ",
                s.text().as_str(),
                " has no such tile ",
                t.text().as_str(),
            ),
            NoSuch::Plant(NoSuchPlantOnTile(s, t)) => {
                let mut r = interleave("steader ", s.text().as_str(), " has tile ", t.text().as_str());
                crate::config::verify::push_str(&mut r, ", but it's not occupied by a plant.");
                r
            },
            NoSuch::Effect(NoSuchRubEffectOnPlant(s, t, x)) => {
                let mut r = interleave("steader ", s.text().as_str(), " has a tile ", t.text().as_str());
                crate::config::verify::push_str(&mut r, " with a plant on it, but that plant is missing the effect ");
                crate::config::verify::push_str(&mut r, x.text().as_str());
                crate::config::verify::push_str(&mut r, ".");
                r
            },
            NoSuch::Gotchi(NoSuchGotchiOnItem(s, i)) => {
                let mut r = interleave("steader ", s.text().as_str(), " has an item ", i.text().as_str());
                crate::config::verify::push_str(&mut r, " with no gotchi");
                r
            },
        }
    }
}

/// Identifies a user. They can be identified by their Slack id, or by an id that we coined,
/// or by both.
#[derive(Debug)]
pub enum UserId {
    /// A user known only by an id we coined for them.
    Uuid(SteaderId),
    /// A user known only by their slack id.
    Slack(String),
    /// A user known by both their slack id and their uuid.
    Both { uuid: SteaderId, slack: String },
}

impl Clone for UserId {
    fn clone(&self) -> (r: Self)
        ensures
            r == *self,
    {
        match self {
            UserId::Uuid(u) => UserId::Uuid(*u),
            UserId::Slack(s) => UserId::Slack(s.clone()),
            UserId::Both { uuid, slack } => UserId::Both { uuid: *uuid, slack: slack.clone() },
        }
    }
}

impl UserId {
    /// The coined id of this user, if they have one.
    pub open spec fn uuid_spec(&self) -> Option<SteaderId> {
        match self {
            UserId::Uuid(u) => Some(*u),
            UserId::Both { uuid, .. } => Some(*uuid),
            UserId::Slack(_) => None,
        }
    }

    /// The slack id of this user, if they have one.
    pub open spec fn slack_spec(&self) -> Option<Seq<char>> {
        match self {
            UserId::Slack(s) => Some(s@),
            UserId::Both { slack, .. } => Some(slack@),
            UserId::Uuid(_) => None,
        }
    }

    /// Returns an ID that we coined for a user, if available.
    pub fn uuid(&self) -> (r: Option<SteaderId>)
        ensures
            r == self.uuid_spec(),
    {
        match self {
            UserId::Uuid(uuid) => Some(*uuid),
            UserId::Both { uuid, .. } => Some(*uuid),
            _ => None,
        }
    }

    /// Returns the coined id, or asks `f` to make one from the slack id.
    pub fn uuid_or_else<F: FnOnce(&str) -> SteaderId>(&self, f: F) -> (r: SteaderId)
        requires
            forall|s: &str| self is Slack && s@ == self->Slack_0@ ==> call_requires(f, (s,)),
        ensures
            self.uuid_spec() matches Some(u) ==> r == u,
            self is Slack ==> exists|s: &str| s@ == self->Slack_0@ && call_ensures(f, (s,), r),
    {
        match self {
            UserId::Uuid(uuid) => *uuid,
            UserId::Both { uuid, .. } => *uuid,
            UserId::Slack(slack) => f(slack.as_str()),
        }
    }

    /// Returns a slack id for a user, if available.
    pub fn slack(&self) -> (r: Option<&str>)
        ensures
            r matches Some(s) ==> self.slack_spec() == Some(s@),
            r is None ==> self.slack_spec() is None,
    {
        match self {
            UserId::Slack(slack) => Some(slack.as_str()),
            UserId::Both { slack, .. } => Some(slack.as_str()),
            _ => None,
        }
    }
}

/// Something that names a steader.
pub trait IdentifiesSteader: Sized {
    /// The steader this names.
    spec fn steader_id_spec(self) -> SteaderId;

    fn steader_id(self) -> (r: SteaderId)
        ensures
            r == self.steader_id_spec(),
    ;
}

impl IdentifiesSteader for SteaderId {
    open spec fn steader_id_spec(self) -> SteaderId {
        self
    }

    fn steader_id(self) -> (r: SteaderId) {
        self
    }
}

impl IdentifiesSteader for &SteaderId {
    open spec fn steader_id_spec(self) -> SteaderId {
        *self
    }

    fn steader_id(self) -> (r: SteaderId) {
        *self
    }
}

impl IdentifiesSteader for &crate::hackstead::Hackstead {
    open spec fn steader_id_spec(self) -> SteaderId {
        self.profile.steader_id
    }

    fn steader_id(self) -> (r: SteaderId) {
        self.profile.steader_id
    }
}

impl IdentifiesSteader for &crate::hackstead::Profile {
    open spec fn steader_id_spec(self) -> SteaderId {
        self.steader_id
    }

    fn steader_id(self) -> (r: SteaderId) {
        self.steader_id
    }
}

/// Something that names a user.
pub trait IdentifiesUser: Sized {
    /// The user this names.
    spec fn user_id_spec(self) -> UserId;

    fn user_id(self) -> (r: UserId)
        ensures
            r == self.user_id_spec(),
    ;
}

impl IdentifiesUser for &UserId {
    open spec fn user_id_spec(self) -> UserId {
        *self
    }

    fn user_id(self) -> (r: UserId) {
        self.clone()
    }
}

impl<S: IdentifiesSteader> IdentifiesUser for S {
    open spec fn user_id_spec(self) -> UserId {
        UserId::Uuid(self.steader_id_spec())
    }

    fn user_id(self) -> (r: UserId) {
        UserId::Uuid(self.steader_id())
    }
}

/// Something that names a tile.
pub trait IdentifiesTile: Sized {
    /// The tile this names.
    spec fn tile_id_spec(self) -> TileId;

    fn tile_id(self) -> (r: TileId)
        ensures
            r == self.tile_id_spec(),
    ;
}

impl IdentifiesTile for &crate::hackstead::Tile {
    open spec fn tile_id_spec(self) -> TileId {
        self.base.tile_id
    }

    fn tile_id(self) -> (r: TileId) {
        self.base.tile_id
    }
}

impl IdentifiesTile for TileId {
    open spec fn tile_id_spec(self) -> TileId {
        self
    }

    fn tile_id(self) -> (r: TileId) {
        self
    }
}

impl IdentifiesTile for &TileId {
    open spec fn tile_id_spec(self) -> TileId {
        *self
    }

    fn tile_id(self) -> (r: TileId) {
        *self
    }
}

impl<T: IdentifiesPlant> IdentifiesTile for T {
    open spec fn tile_id_spec(self) -> TileId {
        self.plant_tile_id_spec()
    }

    fn tile_id(self) -> (r: TileId) {
        IdentifiesPlant::tile_id(self)
    }
}

/// Plants are referred to as tile ids, but through this interface,
/// plants can refer to tiles, but tiles can't refer to plants since
/// tiles may or may not actually have plants on them.
pub trait IdentifiesPlant: Sized {
    /// The tile of the plant this names.
    spec fn plant_tile_id_spec(self) -> TileId;

    fn tile_id(self) -> (r: TileId)
        ensures
            r == self.plant_tile_id_spec(),
    ;
}

impl IdentifiesPlant for &crate::hackstead::Plant {
    open spec fn plant_tile_id_spec(self) -> TileId {
        self.tile_id
    }

    fn tile_id(self) -> (r: TileId) {
        self.tile_id
    }
}

/// Something that names an item.
pub trait IdentifiesItem: Sized {
    /// The item this names.
    spec fn item_id_spec(self) -> ItemId;

    fn item_id(self) -> (r: ItemId)
        ensures
            r == self.item_id_spec(),
    ;
}

impl IdentifiesItem for ItemId {
    open spec fn item_id_spec(self) -> ItemId {
        self
    }

    fn item_id(self) -> (r: ItemId) {
        self
    }
}

impl IdentifiesItem for &ItemId {
    open spec fn item_id_spec(self) -> ItemId {
        *self
    }

    fn item_id(self) -> (r: ItemId) {
        *self
    }
}

impl IdentifiesItem for &crate::hackstead::Item {
    open spec fn item_id_spec(self) -> ItemId {
        self.item_id
    }

    fn item_id(self) -> (r: ItemId) {
        self.item_id
    }
}

} // verus!
