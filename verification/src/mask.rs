//! The exit-pupil mask: which points of the full grid carry a traced ray,
//! and how per-ray values map to grid positions and back.

use vstd::prelude::*;

verus! {

/// Number of active entries among the first `i` entries of `mask`.
///
/// For an active position `i` this is the row that its ray occupies among
/// the active rays.
pub open spec fn rank(mask: Seq<bool>, i: int) -> nat
    decreases i,
{
    if i <= 0 {
        0
    } else {
        rank(mask, i - 1) + if mask[i - 1] { 1nat } else { 0nat }
    }
}

/// Number of active entries of `mask`.
pub open spec fn active_count(mask: Seq<bool>) -> nat {
    rank(mask, mask.len() as int)
}

/// The rows at the active positions among the first `n`, in order.
pub open spec fn selected_prefix<R>(mask: Seq<bool>, rows: Seq<R>, n: int) -> Seq<R>
    decreases n,
{
    if n <= 0 {
        Seq::empty()
    } else if mask[n - 1] {
        selected_prefix(mask, rows, n - 1).push(rows[n - 1])
    } else {
        selected_prefix(mask, rows, n - 1)
    }
}

/// The rows at the active positions, in order, over the positions that both
/// sequences have.
pub open spec fn selected<R>(mask: Seq<bool>, rows: Seq<R>) -> Seq<R> {
    selected_prefix(mask, rows, vstd::math::min(mask.len() as int, rows.len() as int))
}

/// What grid position `i` holds once per-ray `values` are laid out under
/// `mask`: the value of the ray that ranks there, or `fill` where the
/// position is inactive or no value is left for it.
pub open spec fn grid_entry<R>(mask: Seq<bool>, values: Seq<R>, fill: R, i: int) -> R {
    if mask[i] && rank(mask, i) < values.len() {
        values[rank(mask, i) as int]
    } else {
        fill
    }
}

/// The full grid: one entry per mask position.
pub open spec fn scattered<R>(mask: Seq<bool>, values: Seq<R>, fill: R) -> Seq<R> {
    Seq::new(mask.len(), |i: int| grid_entry(mask, values, fill, i))
}

/// The rank grows with the position.
pub proof fn lemma_rank_monotonic(mask: Seq<bool>, i: int, j: int)
    requires
        0 <= i <= j,
    ensures
        rank(mask, i) <= rank(mask, j),
    decreases j - i,
{
    if i < j {
        lemma_rank_monotonic(mask, i, j - 1);
    }
}

/// An active position ranks strictly below every later position, and so
/// strictly below the number of active entries.
pub proof fn lemma_rank_of_active(mask: Seq<bool>, i: int, j: int)
    requires
        0 <= i < j,
        mask[i],
    ensures
        rank(mask, i) < rank(mask, j),
{
    lemma_rank_monotonic(mask, i + 1, j);
}

/// Every rank below the count belongs to exactly one active position.
pub proof fn lemma_rank_onto(mask: Seq<bool>, n: int, k: int) -> (i: int)
    requires
        0 <= k < rank(mask, n),
    ensures
        0 <= i < n,
        mask[i],
        rank(mask, i) == k,
        forall|j: int| 0 <= j < n && mask[j] && rank(mask, j) == k ==> j == i,
    decreases n,
{
    if mask[n - 1] && rank(mask, n - 1) == k {
        assert forall|j: int| 0 <= j < n && mask[j] && rank(mask, j) == k implies j == n - 1 by {
            if j < n - 1 {
                lemma_rank_of_active(mask, j, n - 1);
            }
        }
        n - 1
    } else {
        let i = lemma_rank_onto(mask, n - 1, k);
        i
    }
}

/// The selection from the first `n` positions has one row per active
/// position among them, and the row of an active position stands at its
/// rank.
pub proof fn lemma_selected_prefix<R>(mask: Seq<bool>, rows: Seq<R>, n: int)
    requires
        0 <= n,
    ensures
        selected_prefix(mask, rows, n).len() == rank(mask, n),
        forall|i: int|
            0 <= i < n && mask[i] ==> #[trigger] selected_prefix(mask, rows, n)[rank(
                mask,
                i,
            ) as int] == rows[i],
    decreases n,
{
    if n > 0 {
        lemma_selected_prefix(mask, rows, n - 1);
        assert forall|i: int| 0 <= i < n && mask[i] implies #[trigger] selected_prefix(
            mask,
            rows,
            n,
        )[rank(mask, i) as int] == rows[i] by {
            if i < n - 1 {
                lemma_rank_of_active(mask, i, n - 1);
            }
        }
    }
}

/// Where per-ray values end up on the grid, for one value per active
/// position: the grid is as long as the mask, every inactive position holds
/// the fill, and every active position holds the value of its rank.
pub proof fn lemma_scattered_places<R>(mask: Seq<bool>, values: Seq<R>, fill: R)
    requires
        values.len() == active_count(mask),
    ensures
        scattered(mask, values, fill).len() == mask.len(),
        forall|i: int| 0 <= i < mask.len() && !mask[i] ==> scattered(mask, values, fill)[i] == fill,
        forall|i: int|
            0 <= i < mask.len() && mask[i] ==> rank(mask, i) < values.len() && scattered(
                mask,
                values,
                fill,
            )[i] == values[rank(mask, i) as int],
{
    assert forall|i: int| 0 <= i < mask.len() && mask[i] implies rank(mask, i) < values.len()
        && scattered(mask, values, fill)[i] == values[rank(mask, i) as int] by {
        lemma_rank_of_active(mask, i, mask.len() as int);
    }
}

/// Picking the active positions out of a grid gives back the values that
/// were laid out on it.
pub proof fn lemma_select_scattered<R>(mask: Seq<bool>, values: Seq<R>, fill: R)
    requires
        values.len() == active_count(mask),
    ensures
        selected(mask, scattered(mask, values, fill)) == values,
{
    let grid = scattered(mask, values, fill);
    let n = mask.len() as int;
    lemma_selected_prefix(mask, grid, n);
    lemma_scattered_places(mask, values, fill);
    let back = selected(mask, grid);
    assert(back.len() == values.len());
    assert forall|k: int| 0 <= k < values.len() implies back[k] == values[k] by {
        let i = lemma_rank_onto(mask, n, k);
        assert(selected_prefix(mask, grid, n)[rank(mask, i) as int] == grid[i]);
    }
    assert(back =~= values);
}

/// Laying the rows picked from a grid back out restores the grid at every
/// active position.
pub proof fn lemma_scatter_selected<R>(mask: Seq<bool>, rows: Seq<R>, fill: R)
    requires
        rows.len() == mask.len(),
    ensures
        forall|i: int|
            0 <= i < mask.len() && mask[i] ==> scattered(mask, selected(mask, rows), fill)[i]
                == rows[i],
{
    let n = mask.len() as int;
    lemma_selected_prefix(mask, rows, n);
    assert forall|i: int| 0 <= i < mask.len() && mask[i] implies scattered(
        mask,
        selected(mask, rows),
        fill,
    )[i] == rows[i] by {
        lemma_rank_of_active(mask, i, n);
        assert(selected_prefix(mask, rows, n)[rank(mask, i) as int] == rows[i]);
    }
}

/// Counts the active entries of a mask.
pub fn count_active(mask: &Vec<bool>) -> (n: usize)
    ensures
        n == active_count(mask@),
{
    let mut n: usize = 0;
    let mut i: usize = 0;
    while i < mask.len()
        invariant
            i <= mask.len(),
            n == rank(mask@, i as int),
            n <= i,
        decreases mask.len() - i,
    {
        if mask[i] {
            n = n + 1;
        }
        i = i + 1;
    }
    n
}

/// Reads a mask from bytes: a position is active where its byte is not
/// zero.
pub fn mask_from_bytes(bytes: &Vec<u8>) -> (mask: Vec<bool>)
    ensures
        mask@ == bytes@.map_values(|b: u8| b != 0),
{
    let mut mask: Vec<bool> = Vec::new();
    let mut i: usize = 0;
    while i < bytes.len()
        invariant
            i <= bytes.len(),
            mask@ == bytes@.take(i as int).map_values(|b: u8| b != 0),
        decreases bytes.len() - i,
    {
        mask.push(bytes[i] != 0);
        proof {
            assert(bytes@.take(i + 1) == bytes@.take(i as int).push(bytes@[i as int]));
            assert(mask@ =~= bytes@.take(i + 1).map_values(|b: u8| b != 0));
        }
        i = i + 1;
    }
    proof {
        assert(bytes@.take(bytes@.len() as int) == bytes@);
    }
    mask
}

/// Keeps the rows at active positions, in order; the rows at inactive
/// positions are dropped, not blanked. Positions beyond the shorter of the
/// two sequences are ignored.
pub fn select_rows<R: Copy>(mask: &Vec<bool>, rows: &Vec<R>) -> (kept: Vec<R>)
    ensures
        kept@ == selected(mask@, rows@),
{
    let mut kept: Vec<R> = Vec::new();
    let mut i: usize = 0;
    while i < mask.len() && i < rows.len()
        invariant
            i <= mask.len(),
            i <= rows.len(),
            kept@ == selected_prefix(mask@, rows@, i as int),
        decreases mask.len() - i,
    {
        if mask[i] {
            kept.push(rows[i]);
        }
        i = i + 1;
    }
    kept
}

/// Lays per-ray values out on the full grid: the active positions receive
/// the values in order, every other position receives `fill`.
pub fn scatter<R: Copy>(mask: &Vec<bool>, values: &Vec<R>, fill: R) -> (grid: Vec<R>)
    ensures
        grid@ == scattered(mask@, values@, fill),
{
    let mut grid: Vec<R> = Vec::new();
    let mut next: usize = 0;
    let mut i: usize = 0;
    while i < mask.len()
        invariant
            i <= mask.len(),
            next == rank(mask@, i as int),
            next <= i,
            grid@.len() == i,
            forall|j: int| 0 <= j < i ==> grid@[j] == grid_entry(mask@, values@, fill, j),
        decreases mask.len() - i,
    {
        if mask[i] && next < values.len() {
            grid.push(values[next]);
        } else {
            grid.push(fill);
        }
        if mask[i] {
            next = next + 1;
        }
        i = i + 1;
    }
    proof {
        assert(grid@ =~= scattered(mask@, values@, fill));
    }
    grid
}

} // verus!
