use craftcore::inventory::Inventory;
use craftcore::inventory::InventoryError;
use craftcore::item::InventoryItem;
use craftcore::item::InventoryItem::Axe;
use craftcore::item::InventoryItem::Coal;
use craftcore::item::InventoryItem::Gold;
use craftcore::item::InventoryItem::Iron;
use craftcore::item::InventoryItem::Null;
use craftcore::item::InventoryItem::Pickaxe;
use craftcore::item::InventoryItem::Plank;
use craftcore::item::InventoryItem::Shovel;
use craftcore::item::InventoryItem::Stick;
use craftcore::item::InventoryItem::Stone;
use craftcore::item::InventoryItem::Sword;
use craftcore::item::InventoryItem::Wood;

#[test]
fn is_null_distinguishes_the_sentinel() {
    assert!(Null.is_null());
    assert!(!Wood.is_null());
    assert!(!Stone.is_null());
}

#[test]
fn insert_stacks_onto_existing_slot() {
    let mut inv = Inventory::new(10);
    assert!(inv.insert(Wood, 1).is_ok());
    assert!(inv.insert(Wood, 2).is_ok());
    let slots = inv.slots();
    assert_eq!(slots.len(), 10);
    assert_eq!(slots[0], (Wood, 3));
    for i in 1..10 {
        assert_eq!(slots[i], (Null, 0));
    }
}

#[test]
fn insert_opens_new_slots_in_order() {
    let mut inv = Inventory::new(4);
    assert!(inv.insert(Wood, 1).is_ok());
    assert!(inv.insert(Stone, 5).is_ok());
    assert!(inv.insert(Wood, 1).is_ok());
    let slots = inv.slots();
    assert_eq!(slots[0], (Wood, 2));
    assert_eq!(slots[1], (Stone, 5));
    assert_eq!(slots[2], (Null, 0));
    assert_eq!(slots[3], (Null, 0));
}

#[test]
fn insert_fails_full_and_leaves_slots_unchanged() {
    let mut inv = Inventory::new(10);
    let distinct: [InventoryItem; 10] = [
        Wood, Axe, Plank, Stick, Coal, Iron, Gold, Pickaxe, Sword, Shovel,
    ];
    for (k, item) in distinct.iter().enumerate() {
        assert!(inv.insert(*item, k + 1).is_ok());
    }
    let before = inv.slots().clone();
    assert_eq!(inv.insert(Stone, 1), Err(InventoryError::InventoryFull));
    assert_eq!(inv.slots(), &before);
}

#[test]
fn insert_rejects_null_item_without_mutation() {
    let mut inv = Inventory::new(10);
    assert!(inv.insert(Wood, 1).is_ok());
    let before = inv.slots().clone();
    assert_eq!(inv.insert(Null, 1), Err(InventoryError::InvalidItem));
    assert_eq!(inv.slots(), &before);
}

#[test]
fn insert_rejects_zero_quantity_without_mutation() {
    let mut inv = Inventory::new(10);
    assert!(inv.insert(Wood, 1).is_ok());
    let before = inv.slots().clone();
    assert_eq!(inv.insert(Wood, 0), Err(InventoryError::InvalidItem));
    assert_eq!(inv.slots(), &before);
}

#[test]
fn insert_into_zero_capacity_reports_full() {
    let mut inv = Inventory::new(0);
    assert_eq!(inv.insert(Wood, 1), Err(InventoryError::InventoryFull));
}

#[test]
fn slots_is_idempotent_between_mutations() {
    let mut inv = Inventory::new(10);
    assert!(inv.insert(Wood, 4).is_ok());
    assert!(inv.insert(Stone, 2).is_ok());
    let first = inv.slots().clone();
    let second = inv.slots().clone();
    assert_eq!(first, second);
}

#[test]
fn find_slot_index_reports_first_match() {
    let mut inv = Inventory::new(10);
    assert!(inv.insert(Wood, 1).is_ok());
    assert!(inv.insert(Stone, 1).is_ok());
    assert_eq!(inv.find_slot_index(Wood), Some(0));
    assert_eq!(inv.find_slot_index(Stone), Some(1));
    assert_eq!(inv.find_slot_index(Null), Some(2));
    assert_eq!(inv.find_slot_index(Axe), None);
}

#[test]
fn new_inventory_is_all_empty() {
    let inv = Inventory::new(10);
    assert_eq!(inv.capacity(), 10);
    let slots = inv.slots();
    assert_eq!(slots.len(), 10);
    for slot in slots.iter() {
        assert_eq!(*slot, (Null, 0));
    }
}
