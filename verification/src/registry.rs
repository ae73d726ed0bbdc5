//! The recipe registry and crafting resolver: an immutable-after-construction
//! mapping from canonical recipe key to output item, and the lookup that
//! matches a populated crafting grid against it.

use vstd::prelude::*;

use crate::grid::canon_spec;
use crate::grid::canonicalize;
use crate::grid::grid_ok;
use crate::grid::key_eq;
use crate::grid::keep_rows;
use crate::grid::row_is_empty;
use crate::grid::rows_view;
use crate::grid::CanonicalKey;
use crate::item::InventoryItem;

verus! {

/// A configuration error found while building a registry. Such an error
/// means the fixed recipe table was authored wrongly; it is fatal at
/// startup and never occurs at runtime.
#[derive(Copy, Clone, Debug, PartialEq, Eq, Structural)]
pub enum RegistryError {
    /// A recipe grid was entirely empty, so it could never be matched.
    EmptyRecipe,
    /// Two authored grids canonicalize to the same key.
    DuplicateRecipe,
}

/// The canonical form of one authored recipe grid.
pub open spec fn canon_of(grid: Vec<Vec<InventoryItem>>) -> Seq<Seq<InventoryItem>> {
    canon_spec(rows_view(grid@))
}

/// Every authored grid is rectangular.
pub open spec fn recipes_ok(recipes: Seq<(Vec<Vec<InventoryItem>>, InventoryItem)>) -> bool {
    forall|k: int| 0 <= k < recipes.len() ==> grid_ok(rows_view((#[trigger] recipes[k]).0@))
}

/// Every authored grid canonicalizes to a non-empty key.
pub open spec fn all_nonempty(recipes: Seq<(Vec<Vec<InventoryItem>>, InventoryItem)>) -> bool {
    forall|k: int| 0 <= k < recipes.len() ==> canon_of((#[trigger] recipes[k]).0).len() > 0
}

/// No two authored grids canonicalize to the same key.
pub open spec fn all_distinct(recipes: Seq<(Vec<Vec<InventoryItem>>, InventoryItem)>) -> bool {
    forall|k1: int, k2: int|
        0 <= k1 < k2 < recipes.len() ==> canon_of(#[trigger] recipes[k1].0) != canon_of(
            #[trigger] recipes[k2].0,
        )
}

/// A registry's model is well formed when every key is non-empty and the
/// keys are pairwise distinct.
pub open spec fn reg_wf(r: Seq<(Seq<Seq<InventoryItem>>, InventoryItem)>) -> bool {
    &&& forall|i: int| 0 <= i < r.len() ==> (#[trigger] r[i]).0.len() > 0
    &&& forall|i: int, j: int| 0 <= i < j < r.len() ==> (#[trigger] r[i]).0 != (#[trigger] r[j]).0
}

/// An immutable mapping from canonical recipe key to output item, built
/// once at startup from a fixed list of (grid, output) pairs. Its model is
/// the ordered sequence of (canonical key, output) entries.
pub struct RecipeRegistry {
    entries: Vec<(CanonicalKey, InventoryItem)>,
}

impl View for RecipeRegistry {
    type V = Seq<(Seq<Seq<InventoryItem>>, InventoryItem)>;

    closed spec fn view(&self) -> Self::V {
        self.entries@.map(|i: int, e: (CanonicalKey, InventoryItem)| (e.0@, e.1))
    }
}

impl RecipeRegistry {
    /// Well-formedness: non-empty, pairwise-distinct keys.
    pub open spec fn wf(&self) -> bool {
        reg_wf(self@)
    }

    /// Build a registry from authored (grid, output) pairs, canonicalizing
    /// every grid. Construction succeeds exactly when every grid holds at
    /// least one item and no two grids canonicalize to the same key; the
    /// stored entries keep the authored order and outputs.
    #[verifier::loop_isolation(false)]
    pub fn new(recipes: &Vec<(Vec<Vec<InventoryItem>>, InventoryItem)>) -> (r: Result<
        RecipeRegistry,
        RegistryError,
    >)
        requires
            recipes_ok(recipes@),
        ensures
            r is Ok <==> all_nonempty(recipes@) && all_distinct(recipes@),
            r == Err::<RecipeRegistry, RegistryError>(RegistryError::EmptyRecipe) <==> !all_nonempty(
                recipes@,
            ),
            r == Err::<RecipeRegistry, RegistryError>(RegistryError::DuplicateRecipe) <==> all_nonempty(
                recipes@,
            ) && !all_distinct(recipes@),
            r matches Ok(reg) ==> {
                &&& reg.wf()
                &&& reg@.len() == recipes@.len()
                &&& forall|k: int|
                    0 <= k < recipes@.len() ==> (#[trigger] reg@[k]).0 == canon_of(recipes@[k].0)
                        && reg@[k].1 == recipes@[k].1
            },
    {
        let mut entries: Vec<(CanonicalKey, InventoryItem)> = Vec::new();
        let mut k: usize = 0;
        while k < recipes.len()
            invariant
                k <= recipes@.len(),
                recipes_ok(recipes@),
                entries@.len() == k,
                forall|i: int|
                    0 <= i < k ==> (#[trigger] entries@[i]).0@ == canon_of(recipes@[i].0)
                        && entries@[i].1 == recipes@[i].1,
                forall|i: int| 0 <= i < k ==> (#[trigger] entries@[i]).0@.len() > 0,
            decreases recipes@.len() - k,
        {
            let key = canonicalize(&recipes[k].0);
            if key.is_empty() {
                assert(canon_of(recipes@[k as int].0).len() == 0);
                return Err(RegistryError::EmptyRecipe);
            }
            entries.push((key, recipes[k].1));
            k += 1;
        }
        assert(all_nonempty(recipes@)) by {
            assert forall|p: int| 0 <= p < recipes@.len() implies canon_of(
                (#[trigger] recipes@[p]).0,
            ).len() > 0 by {
                assert(entries@[p].0@ == canon_of(recipes@[p].0));
                assert(entries@[p].0@.len() > 0);
            }
        }

        let n = entries.len();
        let mut j: usize = 1;
        while j < n
            invariant
                n == entries@.len(),
                n == recipes@.len(),
                1 <= j,
                j <= n + 1,
                forall|i: int|
                    0 <= i < n ==> (#[trigger] entries@[i]).0@ == canon_of(recipes@[i].0),
                forall|p: int, q: int|
                    0 <= p < q < j ==> (#[trigger] entries@[p]).0@ != (#[trigger] entries@[q]).0@,
            decreases n - j,
        {
            let mut i: usize = 0;
            while i < j
                invariant
                    i <= j < n,
                    n == entries@.len(),
                    n == recipes@.len(),
                    forall|p: int|
                        0 <= p < i ==> (#[trigger] entries@[p]).0@ != entries@[j as int].0@,
                    forall|p: int|
                        0 <= p < n ==> (#[trigger] entries@[p]).0@ == canon_of(recipes@[p].0),
                decreases j - i,
            {
                if key_eq(&entries[i].0, &entries[j].0) {
                    assert(canon_of(recipes@[i as int].0) == canon_of(recipes@[j as int].0));
                    assert(!all_distinct(recipes@));
                    return Err(RegistryError::DuplicateRecipe);
                }
                i += 1;
            }
            j += 1;
        }
        assert(all_distinct(recipes@)) by {
            assert forall|k1: int, k2: int| 0 <= k1 < k2 < recipes@.len() implies canon_of(
                #[trigger] recipes@[k1].0,
            ) != canon_of(#[trigger] recipes@[k2].0) by {
                assert(entries@[k1].0@ != entries@[k2].0@);
            }
        }
        let reg = RecipeRegistry { entries };
        proof {
            assert forall|i: int, j2: int| 0 <= i < j2 < reg@.len() implies (
            #[trigger] reg@[i]).0 != (#[trigger] reg@[j2]).0 by {
                assert(reg@[i].0 == canon_of(recipes@[i].0));
                assert(reg@[j2].0 == canon_of(recipes@[j2].0));
            }
        }
        Ok(reg)
    }

    /// Exact lookup: returns the output of the entry whose key is
    /// structurally equal to `key`, and nothing for any other key. No
    /// partial, rotated or mirrored match is ever reported.
    pub fn lookup(&self, key: &CanonicalKey) -> (r: Option<InventoryItem>)
        ensures
            match r {
                Some(v) => exists|i: int|
                    0 <= i < self@.len() && #[trigger] self@[i] == (key@, v),
                None => forall|i: int| 0 <= i < self@.len() ==> (#[trigger] self@[i]).0 != key@,
            },
    {
        let mut i: usize = 0;
        while i < self.entries.len()
            invariant
                i <= self.entries@.len(),
                forall|p: int| 0 <= p < i ==> (#[trigger] self@[p]).0 != key@,
            decreases self.entries@.len() - i,
        {
            if key_eq(&self.entries[i].0, key) {
                assert(self@[i as int] == (key@, self.entries@[i as int].1));
                return Some(self.entries[i].1);
            }
            i += 1;
        }
        None
    }

    /// Resolve a populated crafting grid: canonicalize it and look the
    /// result up. Returns the matched output, or nothing when the
    /// arrangement corresponds to no registered recipe; neither the grid
    /// nor the registry is modified. A grid matches exactly when its
    /// canonical form is structurally equal to a registered key, so a
    /// rotation or reflection of a registered grid does not match unless
    /// it is registered itself.
    pub fn resolve(&self, grid: &Vec<Vec<InventoryItem>>) -> (r: Option<InventoryItem>)
        requires
            grid_ok(rows_view(grid@)),
        ensures
            match r {
                Some(v) => exists|i: int|
                    0 <= i < self@.len() && #[trigger] self@[i] == (
                        canon_spec(rows_view(grid@)),
                        v,
                    ),
                None => forall|i: int|
                    0 <= i < self@.len() ==> (#[trigger] self@[i]).0 != canon_spec(
                        rows_view(grid@),
                    ),
            },
    {
        let key = canonicalize(grid);
        self.lookup(&key)
    }
}

/// The authored grid of the axe recipe: stone over stone-and-wood, in the
/// left two columns of a full 3-by-3 grid.
pub open spec fn axe_recipe_grid() -> Seq<Seq<InventoryItem>> {
    seq![
        seq![InventoryItem::Stone, InventoryItem::Stone, InventoryItem::Null],
        seq![InventoryItem::Wood, InventoryItem::Stone, InventoryItem::Null],
        seq![InventoryItem::Wood, InventoryItem::Null, InventoryItem::Null],
    ]
}

/// A fresh three-cell row.
fn row3(a: InventoryItem, b: InventoryItem, c: InventoryItem) -> (r: Vec<InventoryItem>)
    ensures
        r@ == seq![a, b, c],
{
    let mut out: Vec<InventoryItem> = Vec::new();
    out.push(a);
    out.push(b);
    out.push(c);
    proof {
        assert(out@ =~= seq![a, b, c]);
    }
    out
}

/// A crafting table: the fixed recipe registry of the game, matched against
/// by the UI when the player requests crafting.
pub struct CraftingTable {
    registry: RecipeRegistry,
}

impl View for CraftingTable {
    type V = Seq<(Seq<Seq<InventoryItem>>, InventoryItem)>;

    closed spec fn view(&self) -> Self::V {
        self.registry@
    }
}

impl CraftingTable {
    /// Well-formedness: the underlying registry is well formed.
    pub open spec fn wf(&self) -> bool {
        reg_wf(self@)
    }

    /// Build the fixed crafting table of the game: a single recipe that
    /// turns the axe arrangement into an axe. The recipe table is a
    /// compile-time constant, and building it always succeeds.
    pub fn new() -> (r: CraftingTable)
        ensures
            r.wf(),
            r@.len() == 1,
            r@[0].0 == canon_spec(axe_recipe_grid()),
            r@[0].1 == InventoryItem::Axe,
    {
        let mut grid: Vec<Vec<InventoryItem>> = Vec::new();
        grid.push(row3(InventoryItem::Stone, InventoryItem::Stone, InventoryItem::Null));
        grid.push(row3(InventoryItem::Wood, InventoryItem::Stone, InventoryItem::Null));
        grid.push(row3(InventoryItem::Wood, InventoryItem::Null, InventoryItem::Null));
        let ghost g = rows_view(grid@);
        proof {
            assert(g =~= axe_recipe_grid());
            assert(grid_ok(g));
            assert(g.last()[0] == InventoryItem::Wood);
            assert(!row_is_empty(g.last()));
            assert(keep_rows(g) == keep_rows(g.drop_last()).push(g.last()));
            assert(canon_spec(g).len() == keep_rows(g).len());
        }
        let mut recipes: Vec<(Vec<Vec<InventoryItem>>, InventoryItem)> = Vec::new();
        recipes.push((grid, InventoryItem::Axe));
        proof {
            assert(rows_view(recipes@[0].0@) == g);
            assert(recipes_ok(recipes@));
            assert(all_nonempty(recipes@));
            assert(all_distinct(recipes@));
        }
        match RecipeRegistry::new(&recipes) {
            Ok(reg) => CraftingTable { registry: reg },
            Err(_) => vstd::pervasive::unreached(),
        }
    }

    /// Resolve a populated crafting grid against the table: the output of
    /// the recipe whose canonical key equals the grid's canonical form, or
    /// nothing when no registered recipe matches. Pure and side-effect
    /// free; ingredient consumption is a separate concern, not performed
    /// here.
    pub fn resolve(&self, grid: &Vec<Vec<InventoryItem>>) -> (r: Option<InventoryItem>)
        requires
            grid_ok(rows_view(grid@)),
        ensures
            match r {
                Some(v) => exists|i: int|
                    0 <= i < self@.len() && #[trigger] self@[i] == (
                        canon_spec(rows_view(grid@)),
                        v,
                    ),
                None => forall|i: int|
                    0 <= i < self@.len() ==> (#[trigger] self@[i]).0 != canon_spec(
                        rows_view(grid@),
                    ),
            },
    {
        let r = self.registry.resolve(grid);
        proof {
            match r {
                Some(v) => {
                    let i = choose|i: int|
                        0 <= i < self.registry@.len() && #[trigger] self.registry@[i] == (
                            canon_spec(rows_view(grid@)),
                            v,
                        );
                    assert(self@[i] == (canon_spec(rows_view(grid@)), v));
                },
                None => {
                    assert(forall|i: int|
                        0 <= i < self@.len() ==> (#[trigger] self@[i]).0 != canon_spec(
                            rows_view(grid@),
                        ));
                },
            }
        }
        r
    }
}

} // verus!
