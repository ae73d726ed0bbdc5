//! Grid canonicalization: reducing a crafting grid to its minimal bounding
//! sub-grid so that two placements of the same ingredient arrangement
//! compare equal.
//!
//! A grid is a rectangular matrix of [`InventoryItem`]s, most of whose cells
//! are usually the `Null` sentinel. Canonicalization removes every row that
//! is entirely empty (wherever it stands), then trims fully-empty columns
//! from the highest index inward, stopping at the first column that holds
//! any item. Fully-empty *leading* columns are deliberately kept: trimming
//! is asymmetric by design.

use vstd::prelude::*;

use crate::item::InventoryItem;

verus! {

/// The mathematical contents of a list of rows: each row as a sequence.
pub open spec fn rows_view(g: Seq<Vec<InventoryItem>>) -> Seq<Seq<InventoryItem>> {
    g.map(|i: int, row: Vec<InventoryItem>| row@)
}

/// A row is empty when every cell holds the `Null` sentinel.
pub open spec fn row_is_empty(r: Seq<InventoryItem>) -> bool {
    forall|j: int| 0 <= j < r.len() ==> r[j] is Null
}

/// Column `c` is empty when every row holds `Null` at index `c`.
pub open spec fn col_is_empty(g: Seq<Seq<InventoryItem>>, c: int) -> bool {
    forall|i: int| 0 <= i < g.len() ==> g[i][c] is Null
}

/// Every row of `g` has exactly `cols` cells.
pub open spec fn grid_rect(g: Seq<Seq<InventoryItem>>, cols: int) -> bool {
    forall|i: int| 0 <= i < g.len() ==> (#[trigger] g[i]).len() == cols
}

/// The column count of a grid, read off its first row.
pub open spec fn grid_cols(g: Seq<Seq<InventoryItem>>) -> int {
    if g.len() == 0 {
        0
    } else {
        g[0].len() as int
    }
}

/// A well-formed grid: rectangular, with the width given by its first row.
pub open spec fn grid_ok(g: Seq<Seq<InventoryItem>>) -> bool {
    grid_rect(g, grid_cols(g))
}

/// The rows of `g` that are not entirely empty, in their original order.
pub open spec fn keep_rows(g: Seq<Seq<InventoryItem>>) -> Seq<Seq<InventoryItem>>
    decreases g.len(),
{
    if g.len() == 0 {
        Seq::empty()
    } else if row_is_empty(g.last()) {
        keep_rows(g.drop_last())
    } else {
        keep_rows(g.drop_last()).push(g.last())
    }
}

/// The width that remains after trimming fully-empty columns from the
/// high-index side inward, scanning down from column `c - 1` and stopping
/// at the first column that holds any item.
pub open spec fn trim_width(g: Seq<Seq<InventoryItem>>, c: int) -> int
    decreases c,
{
    if c <= 0 {
        0
    } else if col_is_empty(g, c - 1) {
        trim_width(g, c - 1)
    } else {
        c
    }
}

/// Every row of `g` restricted to its first `w` cells.
pub open spec fn take_cols(g: Seq<Seq<InventoryItem>>, w: int) -> Seq<Seq<InventoryItem>> {
    g.map(|i: int, r: Seq<InventoryItem>| r.take(w))
}

/// The canonical form of a grid: all fully-empty rows removed, then
/// fully-empty columns trimmed from the highest index inward, stopping at
/// the first column that holds any item. A fully-empty grid canonicalizes
/// to the empty sequence of rows.
pub open spec fn canon_spec(g: Seq<Seq<InventoryItem>>) -> Seq<Seq<InventoryItem>> {
    take_cols(keep_rows(g), trim_width(keep_rows(g), grid_cols(g)))
}

/// The canonical key of a crafting grid: the minimal bounding sub-grid
/// produced by [`canonicalize`]. Two grids describe the same recipe exactly
/// when their canonical keys have the same dimensions and the same cell in
/// every position.
#[derive(Debug, PartialEq, Eq)]
pub struct CanonicalKey {
    rows: Vec<Vec<InventoryItem>>,
}

impl View for CanonicalKey {
    type V = Seq<Seq<InventoryItem>>;

    closed spec fn view(&self) -> Seq<Seq<InventoryItem>> {
        rows_view(self.rows@)
    }
}

impl CanonicalKey {
    /// The trimmed rows themselves, for read-only inspection.
    pub fn rows(&self) -> (r: &Vec<Vec<InventoryItem>>)
        ensures
            rows_view(r@) == self@,
    {
        &self.rows
    }

    /// True exactly when the key has no rows, i.e. the grid it came from
    /// was entirely empty.
    pub fn is_empty(&self) -> (r: bool)
        ensures
            r == (self@.len() == 0),
    {
        self.rows.len() == 0
    }
}

/// Whether the given row consists of `Null` cells only.
fn row_empty(row: &Vec<InventoryItem>) -> (r: bool)
    ensures
        r == row_is_empty(row@),
{
    let mut j: usize = 0;
    while j < row.len()
        invariant
            j <= row@.len(),
            forall|k: int| 0 <= k < j ==> row@[k] is Null,
        decreases row@.len() - j,
    {
        if !row[j].is_null() {
            assert(!(row@[j as int] is Null));
            return false;
        }
        j += 1;
    }
    true
}

/// Whether column `c` holds `Null` in every row.
fn col_empty(rows: &Vec<Vec<InventoryItem>>, c: usize) -> (r: bool)
    requires
        forall|i: int| 0 <= i < rows@.len() ==> c < (#[trigger] rows@[i])@.len(),
    ensures
        r == col_is_empty(rows_view(rows@), c as int),
{
    let mut i: usize = 0;
    while i < rows.len()
        invariant
            i <= rows@.len(),
            forall|k: int| 0 <= k < rows@.len() ==> c < (#[trigger] rows@[k])@.len(),
            forall|k: int| 0 <= k < i ==> (#[trigger] rows@[k])@[c as int] is Null,
        decreases rows@.len() - i,
    {
        if !rows[i][c].is_null() {
            assert(!(rows_view(rows@)[i as int][c as int] is Null));
            return false;
        }
        i += 1;
    }
    true
}

/// A fresh copy of the first `w` cells of `row`.
fn take_prefix(row: &Vec<InventoryItem>, w: usize) -> (r: Vec<InventoryItem>)
    requires
        w <= row@.len(),
    ensures
        r@ == row@.take(w as int),
{
    let mut out: Vec<InventoryItem> = Vec::new();
    let mut j: usize = 0;
    while j < w
        invariant
            j <= w,
            w <= row@.len(),
            out@.len() == j,
            forall|k: int| 0 <= k < j ==> out@[k] == row@[k],
        decreases w - j,
    {
        out.push(row[j]);
        j += 1;
    }
    proof {
        assert(out@ =~= row@.take(w as int));
    }
    out
}

/// Reduce a rectangular grid to its canonical form: drop every fully-empty
/// row, then trim fully-empty columns from the highest index inward until a
/// column holding an item is reached. The input grid is not modified, and
/// the result is a pure function of the grid's contents.
#[verifier::loop_isolation(false)]
pub fn canonicalize(grid: &Vec<Vec<InventoryItem>>) -> (r: CanonicalKey)
    requires
        grid_ok(rows_view(grid@)),
    ensures
        r@ == canon_spec(rows_view(grid@)),
{
    let ghost g = rows_view(grid@);
    let cols: usize = if grid.len() == 0 {
        0
    } else {
        grid[0].len()
    };
    assert(cols == grid_cols(g));

    // Keep only the rows that hold at least one item.
    let mut kept: Vec<Vec<InventoryItem>> = Vec::new();
    let mut i: usize = 0;
    while i < grid.len()
        invariant
            i <= grid@.len(),
            rows_view(kept@) == keep_rows(g.take(i as int)),
            forall|k: int| 0 <= k < kept@.len() ==> (#[trigger] kept@[k])@.len() == cols,
        decreases grid@.len() - i,
    {
        let ghost t = g.take(i + 1 as int);
        proof {
            assert(t.drop_last() =~= g.take(i as int));
            assert(t.last() == g[i as int]);
        }
        let row = &grid[i];
        if !row_empty(row) {
            let copy = take_prefix(row, row.len());
            proof {
                assert(copy@ =~= row@);
            }
            kept.push(copy);
            proof {
                assert(rows_view(kept@) =~= keep_rows(g.take(i as int)).push(row@));
            }
        }
        i += 1;
    }
    proof {
        assert(g.take(grid@.len() as int) =~= g);
    }
    let ghost kv = rows_view(kept@);
    assert(kv == keep_rows(g));

    // Trim fully-empty columns from the high-index side inward.
    let mut w: usize = cols;
    let mut stop = false;
    while !stop && w > 0
        invariant
            w <= cols,
            trim_width(kv, cols as int) == trim_width(kv, w as int),
            stop ==> w > 0 && !col_is_empty(kv, w - 1),
        decreases w, (if stop { 0int } else { 1int }),
    {
        if col_empty(&kept, w - 1) {
            w -= 1;
        } else {
            stop = true;
        }
    }
    assert(w == trim_width(kv, cols as int));

    // Restrict every kept row to the first w cells.
    let mut out: Vec<Vec<InventoryItem>> = Vec::new();
    let mut k: usize = 0;
    while k < kept.len()
        invariant
            k <= kept@.len(),
            out@.len() == k,
            forall|m: int| 0 <= m < k ==> (#[trigger] out@[m])@ == kv[m].take(w as int),
        decreases kept@.len() - k,
    {
        let trimmed = take_prefix(&kept[k], w);
        out.push(trimmed);
        k += 1;
    }
    proof {
        assert(rows_view(out@) =~= take_cols(kv, w as int));
    }
    CanonicalKey { rows: out }
}

/// Structural equality of canonical keys: same number of rows, same width,
/// and the same cell in every position.
pub fn key_eq(a: &CanonicalKey, b: &CanonicalKey) -> (r: bool)
    ensures
        r == (a@ == b@),
{
    if a.rows.len() != b.rows.len() {
        assert(a@.len() == a.rows@.len());
        assert(b@.len() == b.rows@.len());
        return false;
    }
    let n = a.rows.len();
    let mut i: usize = 0;
    while i < n
        invariant
            i <= n,
            n == a.rows@.len(),
            n == b.rows@.len(),
            forall|p: int| 0 <= p < i ==> a@[p] == b@[p],
        decreases n - i,
    {
        let ra = &a.rows[i];
        let rb = &b.rows[i];
        if ra.len() != rb.len() {
            assert(a@[i as int].len() != b@[i as int].len());
            return false;
        }
        let m = ra.len();
        let mut j: usize = 0;
        while j < m
            invariant
                j <= m,
                m == ra@.len(),
                m == rb@.len(),
                ra@ == a@[i as int],
                rb@ == b@[i as int],
                forall|q: int| 0 <= q < j ==> ra@[q] == rb@[q],
            decreases m - j,
        {
            if ra[j] != rb[j] {
                assert(a@[i as int][j as int] != b@[i as int][j as int]);
                return false;
            }
            j += 1;
        }
        proof {
            assert(a@[i as int] =~= b@[i as int]);
        }
        i += 1;
    }
    proof {
        assert(a@ =~= b@);
    }
    true
}

/// Every row of `g` extended by one `Null` cell: the grid with one more
/// fully-empty trailing column.
pub open spec fn push_col(g: Seq<Seq<InventoryItem>>) -> Seq<Seq<InventoryItem>> {
    g.map(|i: int, r: Seq<InventoryItem>| r.push(InventoryItem::Null))
}

/// Canonicalization is a pure function of the grid's contents: equal grids
/// have equal canonical forms, no matter when or how often they are
/// canonicalized.
pub proof fn lemma_canon_deterministic(a: Seq<Seq<InventoryItem>>, b: Seq<Seq<InventoryItem>>)
    requires
        a == b,
    ensures
        canon_spec(a) == canon_spec(b),
{
}

/// Appending a fully-empty row to a grid does not change its canonical
/// form.
pub proof fn lemma_canon_trailing_empty_row(g: Seq<Seq<InventoryItem>>, row: Seq<InventoryItem>)
    requires
        grid_ok(g),
        row.len() == grid_cols(g),
        row_is_empty(row),
    ensures
        canon_spec(g.push(row)) == canon_spec(g),
{
    let g2 = g.push(row);
    assert(g2.drop_last() =~= g);
    assert(g2.last() == row);
    assert(keep_rows(g2) == keep_rows(g));
    assert(grid_cols(g2) == grid_cols(g));
}

/// A row with one more `Null` cell is empty exactly when the row itself is.
proof fn lemma_row_empty_push_null(r: Seq<InventoryItem>)
    ensures
        row_is_empty(r.push(InventoryItem::Null)) == row_is_empty(r),
{
    let r2 = r.push(InventoryItem::Null);
    if row_is_empty(r2) {
        assert forall|j: int| 0 <= j < r.len() implies r[j] is Null by {
            assert(r2[j] is Null);
        }
    }
    if row_is_empty(r) {
        assert forall|j: int| 0 <= j < r2.len() implies r2[j] is Null by {
            if j < r.len() {
                assert(r2[j] == r[j]);
            } else {
                assert(r2[j] == InventoryItem::Null);
            }
        }
    }
}

/// Removing fully-empty rows commutes with appending an empty trailing
/// column.
proof fn lemma_keep_rows_push_col(g: Seq<Seq<InventoryItem>>)
    ensures
        keep_rows(push_col(g)) == push_col(keep_rows(g)),
    decreases g.len(),
{
    let pc = push_col(g);
    if g.len() == 0 {
        assert(pc =~= Seq::<Seq<InventoryItem>>::empty());
        assert(push_col(keep_rows(g)) =~= Seq::<Seq<InventoryItem>>::empty());
    } else {
        lemma_keep_rows_push_col(g.drop_last());
        assert(pc.drop_last() =~= push_col(g.drop_last()));
        assert(pc.last() == g.last().push(InventoryItem::Null));
        lemma_row_empty_push_null(g.last());
        if row_is_empty(g.last()) {
            assert(keep_rows(pc) == keep_rows(push_col(g.drop_last())));
            assert(keep_rows(g) == keep_rows(g.drop_last()));
        } else {
            assert(keep_rows(pc) == keep_rows(push_col(g.drop_last())).push(pc.last()));
            assert(keep_rows(g) == keep_rows(g.drop_last()).push(g.last()));
            assert(push_col(keep_rows(g.drop_last()).push(g.last())) =~= push_col(
                keep_rows(g.drop_last()),
            ).push(g.last().push(InventoryItem::Null)));
        }
    }
}

/// Removing fully-empty rows keeps the grid rectangular at the same width.
proof fn lemma_keep_rows_rect(g: Seq<Seq<InventoryItem>>, cols: int)
    requires
        grid_rect(g, cols),
    ensures
        grid_rect(keep_rows(g), cols),
    decreases g.len(),
{
    if g.len() > 0 {
        assert(grid_rect(g.drop_last(), cols));
        lemma_keep_rows_rect(g.drop_last(), cols);
    }
}

/// The trimmed width never exceeds the width scanned from.
proof fn lemma_trim_width_le(g: Seq<Seq<InventoryItem>>, c: int)
    requires
        c >= 0,
    ensures
        0 <= trim_width(g, c) <= c,
    decreases c,
{
    if c > 0 && col_is_empty(g, c - 1) {
        lemma_trim_width_le(g, c - 1);
    }
}

/// Below the original width, column emptiness — and hence the trimmed
/// width — is unaffected by an extra trailing empty column.
proof fn lemma_trim_width_push_col(g: Seq<Seq<InventoryItem>>, cols: int, c: int)
    requires
        grid_rect(g, cols),
        0 <= c <= cols,
    ensures
        trim_width(push_col(g), c) == trim_width(g, c),
    decreases c,
{
    if c > 0 {
        if col_is_empty(g, c - 1) {
            assert forall|i: int| 0 <= i < push_col(g).len() implies #[trigger] push_col(
                g,
            )[i][c - 1] is Null by {
                assert(push_col(g)[i] == g[i].push(InventoryItem::Null));
                assert(g[i].len() == cols);
                assert(g[i][c - 1] is Null);
            }
            assert(col_is_empty(push_col(g), c - 1));
        } else {
            let i = choose|i: int| 0 <= i < g.len() && !(g[i][c - 1] is Null);
            assert(push_col(g)[i] == g[i].push(InventoryItem::Null));
            assert(g[i].len() == cols);
            assert(!(push_col(g)[i][c - 1] is Null));
            assert(!col_is_empty(push_col(g), c - 1));
        }
        assert(col_is_empty(push_col(g), c - 1) == col_is_empty(g, c - 1));
        if col_is_empty(g, c - 1) {
            lemma_trim_width_push_col(g, cols, c - 1);
        }
    }
}

/// Appending a fully-empty trailing column to a grid does not change its
/// canonical form.
pub proof fn lemma_canon_trailing_empty_col(g: Seq<Seq<InventoryItem>>)
    requires
        grid_ok(g),
    ensures
        canon_spec(push_col(g)) == canon_spec(g),
{
    let cols = grid_cols(g);
    let kept = keep_rows(g);
    let g2 = push_col(g);
    if g.len() == 0 {
        assert(g2 =~= g);
    } else {
        assert(g2[0] == g[0].push(InventoryItem::Null));
        assert(grid_cols(g2) == cols + 1);
        lemma_keep_rows_push_col(g);
        assert(keep_rows(g2) == push_col(kept));
        lemma_keep_rows_rect(g, cols);
        assert forall|i: int| 0 <= i < kept.len() implies #[trigger] push_col(kept)[i][cols]
            is Null by {
            assert(push_col(kept)[i] == kept[i].push(InventoryItem::Null));
            assert(kept[i].len() == cols);
        }
        assert(col_is_empty(push_col(kept), cols));
        assert(trim_width(push_col(kept), cols + 1) == trim_width(push_col(kept), cols));
        lemma_trim_width_push_col(kept, cols, cols);
        let w = trim_width(kept, cols);
        lemma_trim_width_le(kept, cols);
        assert forall|i: int| 0 <= i < kept.len() implies #[trigger] take_cols(push_col(kept), w)[i]
            == take_cols(kept, w)[i] by {
            assert(push_col(kept)[i] == kept[i].push(InventoryItem::Null));
            assert(kept[i].len() == cols);
            assert(kept[i].push(InventoryItem::Null).take(w) =~= kept[i].take(w));
        }
        assert(take_cols(push_col(kept), w) =~= take_cols(kept, w));
    }
}

} // verus!
