//! Item identifiers: a closed set of item kinds, with a distinguished
//! `Null` sentinel meaning "no item".

use vstd::prelude::*;

verus! {

/// An item identifier. `Null` is the distinguished empty sentinel: it marks
/// an empty grid cell or an empty inventory slot and is distinct from every
/// real item.
#[derive(Copy, Clone, Debug, PartialEq, Eq, Hash, Structural)]
pub enum InventoryItem {
    Null,
    Wood,
    Stone,
    Axe,
    Plank,
    Stick,
    Coal,
    Iron,
    Gold,
    Pickaxe,
    Sword,
    Shovel,
    Torch,
}

impl InventoryItem {
    /// True exactly when the identifier is the empty sentinel.
    pub fn is_null(&self) -> (r: bool)
        ensures
            r == (*self is Null),
    {
        matches!(*self, InventoryItem::Null)
    }
}

} // verus!
