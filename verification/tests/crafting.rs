use craftcore::grid::canonicalize;
use craftcore::item::InventoryItem::Axe;
use craftcore::item::InventoryItem::Coal;
use craftcore::item::InventoryItem::Null;
use craftcore::item::InventoryItem::Plank;
use craftcore::item::InventoryItem::Stone;
use craftcore::item::InventoryItem::Wood;
use craftcore::registry::CraftingTable;
use craftcore::registry::RecipeRegistry;
use craftcore::registry::RegistryError;

fn axe_grid() -> Vec<Vec<craftcore::item::InventoryItem>> {
    vec![
        vec![Stone, Stone, Null],
        vec![Wood, Stone, Null],
        vec![Wood, Null, Null],
    ]
}

#[test]
fn canonicalize_is_deterministic() {
    let g = axe_grid();
    let k1 = canonicalize(&g);
    let k2 = canonicalize(&g);
    assert_eq!(k1, k2);
}

#[test]
fn canonicalize_trims_rows_and_columns() {
    let key = canonicalize(&axe_grid());
    let expected = vec![vec![Stone, Stone], vec![Wood, Stone], vec![Wood, Null]];
    assert_eq!(key.rows(), &expected);
}

#[test]
fn canonicalize_ignores_trailing_empty_row() {
    let g = axe_grid();
    let mut padded = axe_grid();
    padded.push(vec![Null, Null, Null]);
    assert_eq!(canonicalize(&g), canonicalize(&padded));
}

#[test]
fn canonicalize_ignores_trailing_empty_column() {
    let g = axe_grid();
    let mut padded = axe_grid();
    for row in padded.iter_mut() {
        row.push(Null);
    }
    assert_eq!(canonicalize(&g), canonicalize(&padded));
}

#[test]
fn canonicalize_drops_empty_row_anywhere() {
    let g = vec![vec![Wood, Stone], vec![Null, Null], vec![Stone, Wood]];
    let key = canonicalize(&g);
    let expected = vec![vec![Wood, Stone], vec![Stone, Wood]];
    assert_eq!(key.rows(), &expected);
}

#[test]
fn canonicalize_keeps_leading_empty_column() {
    let g = vec![vec![Null, Stone], vec![Null, Wood]];
    let key = canonicalize(&g);
    let expected = vec![vec![Null, Stone], vec![Null, Wood]];
    assert_eq!(key.rows(), &expected);
}

#[test]
fn canonicalize_empty_grid_has_no_rows() {
    let g = vec![
        vec![Null, Null, Null],
        vec![Null, Null, Null],
        vec![Null, Null, Null],
    ];
    let key = canonicalize(&g);
    assert!(key.is_empty());
    assert_eq!(key.rows().len(), 0);
}

#[test]
fn resolve_exact_axe_grid() {
    let table = CraftingTable::new();
    assert_eq!(table.resolve(&axe_grid()), Some(Axe));
}

#[test]
fn resolve_empty_grid_matches_nothing() {
    let table = CraftingTable::new();
    let empty = vec![
        vec![Null, Null, Null],
        vec![Null, Null, Null],
        vec![Null, Null, Null],
    ];
    assert_eq!(table.resolve(&empty), None);
}

#[test]
fn resolve_rejects_mirrored_recipe() {
    let table = CraftingTable::new();
    let mirrored = vec![
        vec![Null, Stone, Stone],
        vec![Null, Stone, Wood],
        vec![Null, Null, Wood],
    ];
    assert_eq!(table.resolve(&mirrored), None);
}

#[test]
fn resolve_rejects_rotated_recipe() {
    let table = CraftingTable::new();
    let rotated = vec![
        vec![Wood, Wood, Null],
        vec![Stone, Stone, Null],
        vec![Null, Stone, Null],
    ];
    assert_eq!(table.resolve(&rotated), None);
}

#[test]
fn resolve_rejects_shifted_recipe() {
    let table = CraftingTable::new();
    let shifted = vec![
        vec![Null, Stone, Stone],
        vec![Null, Wood, Stone],
        vec![Null, Wood, Null],
    ];
    assert_eq!(table.resolve(&shifted), None);
}

#[test]
fn registry_lookup_is_exact() {
    let recipes = vec![
        (vec![vec![Wood, Null], vec![Null, Null]], Plank),
        (vec![vec![Stone]], Coal),
    ];
    let reg = RecipeRegistry::new(&recipes).unwrap();
    let plank_key = canonicalize(&vec![vec![Wood]]);
    assert_eq!(reg.lookup(&plank_key), Some(Plank));
    let coal_key = canonicalize(&vec![vec![Stone, Null], vec![Null, Null]]);
    assert_eq!(reg.lookup(&coal_key), Some(Coal));
    let other_key = canonicalize(&vec![vec![Axe]]);
    assert_eq!(reg.lookup(&other_key), None);
}

#[test]
fn registry_rejects_duplicate_canonical_keys() {
    let recipes = vec![
        (vec![vec![Wood, Null], vec![Null, Null]], Plank),
        (vec![vec![Wood]], Coal),
    ];
    assert!(matches!(
        RecipeRegistry::new(&recipes),
        Err(RegistryError::DuplicateRecipe)
    ));
}

#[test]
fn registry_rejects_fully_empty_recipe() {
    let recipes = vec![(vec![vec![Null, Null], vec![Null, Null]], Plank)];
    assert!(matches!(
        RecipeRegistry::new(&recipes),
        Err(RegistryError::EmptyRecipe)
    ));
}
