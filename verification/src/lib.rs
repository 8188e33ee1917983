//! Core data model and game rules of Hackagotchi: identifiers, hacksteads,
//! items, plants, the archetype configuration and the rules that check it.

pub mod id;
pub mod user_contact;
pub mod user_id;
pub mod market;
pub mod item;
pub mod archetype;
pub mod possess;
pub mod config;
pub mod hackstead;
pub mod wormhole;
pub mod frontend;
