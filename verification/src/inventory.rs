//! A fixed-capacity ordered inventory of (item, count) slots with
//! stack-aware insertion: a newly acquired item merges onto the existing
//! stack for that item if one exists, otherwise it occupies the first empty
//! slot, and insertion fails — leaving the inventory unchanged — when
//! neither is possible.

use vstd::prelude::*;

use crate::item::InventoryItem;

verus! {

/// An error returned by [`Inventory::insert`]. Both are local, recoverable
/// conditions reported to the caller; neither mutates the inventory.
#[derive(Copy, Clone, Debug, PartialEq, Eq, Structural)]
pub enum InventoryError {
    /// The caller tried to insert the empty sentinel, or a zero quantity.
    InvalidItem,
    /// No existing stack and no empty slot remained.
    InventoryFull,
}

/// Slot sequence well-formedness: a slot holds the `Null` sentinel exactly
/// when its count is zero, and no two slots hold the same real item
/// (stacking is exhaustive, so at most one stack exists per item).
pub open spec fn slots_wf(s: Seq<(InventoryItem, usize)>) -> bool {
    &&& forall|i: int| 0 <= i < s.len() ==> (((#[trigger] s[i]).0 is Null) <==> s[i].1 == 0)
    &&& forall|i: int, j: int|
        0 <= i < j < s.len() && (#[trigger] s[i]).0 == (#[trigger] s[j]).0 ==> s[i].0 is Null
}

/// Some slot already stacks `item`.
pub open spec fn has_stack(s: Seq<(InventoryItem, usize)>, item: InventoryItem) -> bool {
    exists|i: int| 0 <= i < s.len() && (#[trigger] s[i]).0 == item
}

/// Some slot is empty.
pub open spec fn has_empty(s: Seq<(InventoryItem, usize)>) -> bool {
    exists|i: int| 0 <= i < s.len() && (#[trigger] s[i]).0 is Null
}

/// A fixed-length ordered sequence of (item, count) slots. The length is
/// set once at construction and never changes; its model is the slot
/// sequence itself.
pub struct Inventory {
    items: Vec<(InventoryItem, usize)>,
}

impl View for Inventory {
    type V = Seq<(InventoryItem, usize)>;

    closed spec fn view(&self) -> Seq<(InventoryItem, usize)> {
        self.items@
    }
}

impl Inventory {
    /// Well-formedness of the slot sequence.
    pub open spec fn wf(&self) -> bool {
        slots_wf(self@)
    }

    /// A fresh inventory with `capacity` slots, all empty.
    pub fn new(capacity: usize) -> (r: Inventory)
        ensures
            r.wf(),
            r@.len() == capacity,
            forall|i: int| 0 <= i < capacity ==> (#[trigger] r@[i]).0 is Null && r@[i].1 == 0,
    {
        let mut items: Vec<(InventoryItem, usize)> = Vec::new();
        let mut i: usize = 0;
        while i < capacity
            invariant
                i <= capacity,
                items@.len() == i,
                forall|k: int| 0 <= k < i ==> (#[trigger] items@[k]).0 is Null && items@[k].1 == 0,
            decreases capacity - i,
        {
            items.push((InventoryItem::Null, 0));
            i += 1;
        }
        Inventory { items }
    }

    /// The number of slots, fixed at construction.
    pub fn capacity(&self) -> (r: usize)
        ensures
            r == self@.len(),
    {
        self.items.len()
    }

    /// Stack-aware insertion. Inserting the empty sentinel or a zero
    /// quantity is rejected as `InvalidItem` before any mutation. Otherwise
    /// the slots are scanned in order: if one already stacks `item`, `qty`
    /// is added to its count; failing that, the first empty slot receives
    /// `(item, qty)`; failing both, the call reports `InventoryFull`. An
    /// erroneous call never changes the inventory.
    #[verifier::loop_isolation(false)]
    pub fn insert(&mut self, item: InventoryItem, qty: usize) -> (r: Result<(), InventoryError>)
        requires
            old(self).wf(),
            forall|i: int|
                0 <= i < old(self)@.len() && (#[trigger] old(self)@[i]).0 == item ==> old(
                    self,
                )@[i].1 + qty <= usize::MAX,
        ensures
            final(self).wf(),
            final(self)@.len() == old(self)@.len(),
            r is Ok <==> !(item is Null) && qty != 0 && (has_stack(old(self)@, item) || has_empty(
                old(self)@,
            )),
            item is Null || qty == 0 ==> r == Err::<(), InventoryError>(
                InventoryError::InvalidItem,
            ),
            !(item is Null) && qty != 0 && !has_stack(old(self)@, item) && !has_empty(old(self)@)
                ==> r == Err::<(), InventoryError>(InventoryError::InventoryFull),
            r is Err ==> final(self)@ == old(self)@,
            !(item is Null) && qty != 0 && has_stack(old(self)@, item) ==> exists|i: int|
                0 <= i < old(self)@.len() && (#[trigger] old(self)@[i]).0 == item
                    && final(self)@ == old(self)@.update(
                    i,
                    (item, (old(self)@[i].1 + qty) as usize),
                ),
            !(item is Null) && qty != 0 && !has_stack(old(self)@, item) && has_empty(old(self)@)
                ==> exists|i: int|
                0 <= i < old(self)@.len() && (#[trigger] old(self)@[i]).0 is Null && (forall|j: int|
                    0 <= j < i ==> !((#[trigger] old(self)@[j]).0 is Null))
                    && final(self)@ == old(self)@.update(i, (item, qty)),
    {
        if item.is_null() || qty == 0 {
            return Err(InventoryError::InvalidItem);
        }
        let n = self.items.len();
        let mut i: usize = 0;
        while i < n
            invariant
                i <= n,
                self@ == old(self)@,
                forall|j: int| 0 <= j < i ==> (#[trigger] self.items@[j]).0 != item,
            decreases n - i,
        {
            if self.items[i].0 == item {
                let c = self.items[i].1;
                self.items[i] = (item, c + qty);
                proof {
                    assert(self@ == old(self)@.update(i as int, (item, (c + qty) as usize)));
                    assert(old(self)@[i as int].0 == item);
                }
                return Ok(());
            }
            i += 1;
        }
        assert(!has_stack(old(self)@, item));
        let mut e: usize = 0;
        while e < n
            invariant
                e <= n,
                self@ == old(self)@,
                forall|j: int| 0 <= j < e ==> !((#[trigger] self.items@[j]).0 is Null),
            decreases n - e,
        {
            if self.items[e].0.is_null() {
                self.items[e] = (item, qty);
                proof {
                    assert(self@ == old(self)@.update(e as int, (item, qty)));
                    assert(old(self)@[e as int].0 is Null);
                }
                return Ok(());
            }
            e += 1;
        }
        assert(!has_empty(old(self)@));
        Err(InventoryError::InventoryFull)
    }

    /// The smallest slot index holding `item`, if any. With `item` the
    /// empty sentinel this finds the first open slot.
    pub fn find_slot_index(&self, item: InventoryItem) -> (r: Option<usize>)
        ensures
            match r {
                Some(i) => i < self@.len() && self@[i as int].0 == item && forall|j: int|
                    0 <= j < i ==> (#[trigger] self@[j]).0 != item,
                None => forall|i: int| 0 <= i < self@.len() ==> (#[trigger] self@[i]).0 != item,
            },
    {
        let mut i: usize = 0;
        while i < self.items.len()
            invariant
                i <= self.items@.len(),
                forall|j: int| 0 <= j < i ==> (#[trigger] self.items@[j]).0 != item,
            decreases self.items@.len() - i,
        {
            if self.items[i].0 == item {
                return Some(i);
            }
            i += 1;
        }
        None
    }

    /// The ordered slot sequence, read-only, for presentation layers such
    /// as a hotbar. The result is determined by the inventory state alone,
    /// so repeated calls without an intervening mutation return identical
    /// slot sequences.
    pub fn slots(&self) -> (r: &Vec<(InventoryItem, usize)>)
        ensures
            r@ == self@,
    {
        &self.items
    }
}

} // verus!
