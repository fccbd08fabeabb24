//! What the search provider reports of one item.

use vstd::prelude::*;

verus! {

/// One search result. The provider sends the two counts as text.
#[derive(Debug, Clone)]
pub struct Torrent {
    pub name: String,
    pub info_hash: String,
    /// The number of seeders, in decimal.
    pub seeders: String,
    /// The size in bytes, in decimal.
    pub size: String,
}

} // verus!
