//! Things put up for sale.

use vstd::prelude::*;

verus! {

/// Represents something put up for sale by a hackagotchi player.
#[derive(Clone, Debug)]
pub struct Sale {
    /// How much currency must be paid to acquire this item.
    pub price: u64,
    /// The name this item assumes for marketing purposes.
    pub market_name: String,
}

} // verus!
