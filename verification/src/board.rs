use vstd::prelude::*;
use crate::tiles::BoardTile;
use crate::tiles::TileKind;

verus! {

/// Number of cells on the board; every position and tile id lives in
/// `0..40`.
pub const BOARD_TOTAL_NUMBER_OF_TILES: usize = 40;

/// One named group of tiles: a colour group, the railroads, the
/// utilities, or a group of event tiles.  Membership is computed once
/// at load time and never changes.
pub struct TileSet {
    pub name: String,
    pub kind: TileKind,
    /// The ids of the tiles belonging to this set, without duplicates.
    pub tiles: Vec<usize>,
}

/// The immutable board layout plus the per-tile mutable ownership and
/// tier state, in board-walk order starting at the start tile.
pub struct Board {
    pub board: Vec<BoardTile>,
}

impl Board {
    /// Wraps an already-built list of exactly 40 tiles.
    pub fn new(tiles: Vec<BoardTile>) -> (r: Board)
        requires
            tiles@.len() == BOARD_TOTAL_NUMBER_OF_TILES,
        ensures
            r.board@ == tiles@,
    {
        Board { board: tiles }
    }

    /// Read view of one tile.
    pub fn get_tile(&self, tile: usize) -> (r: &BoardTile)
        requires
            tile < self.board@.len(),
        ensures
            *r == self.board@[tile as int],
    {
        &self.board[tile]
    }

    /// Mutable handle to one tile.
    pub fn get_tile_mut(&mut self, tile: usize) -> (r: &mut BoardTile)
        requires
            tile < old(self).board@.len(),
        ensures
            *r == old(self).board@[tile as int],
            final(self).board@ == old(self).board@.update(tile as int, *final(r)),
    {
        &mut self.board[tile]
    }
}

/// Where a tile lands when the drawn board is walked top to bottom,
/// left to right: the top row left to right, the two side columns
/// interleaved, then the bottom row right to left.
pub open spec fn visual_order_spec(i: int) -> int {
    if i < 11 {
        39 - i
    } else if i < 20 {
        27 - 2 * (i - 11)
    } else if i < 31 {
        i - 20
    } else {
        12 + 2 * (i - 31)
    }
}

/// The inverse walk: which actual tile sits at each visual position.
pub open spec fn actual_order_spec(i: int) -> int {
    if i < 11 {
        20 + i
    } else if i < 29 {
        if (i - 11) % 2 == 0 {
            19 - (i - 11) / 2
        } else {
            31 + (i - 11) / 2
        }
    } else {
        39 - i
    }
}

/// Given the actual tile ids (index), the visual tile ids (value):
/// actual ids walk the board from the start tile, visual ids walk the
/// drawn board top to bottom, left to right.
pub fn get_visual_tiles_order() -> (r: Vec<usize>)
    ensures
        r@.len() == BOARD_TOTAL_NUMBER_OF_TILES,
        forall|i: int|
            0 <= i < BOARD_TOTAL_NUMBER_OF_TILES ==> (#[trigger] r@[i]) == visual_order_spec(i),
{
    let mut r: Vec<usize> = Vec::new();
    let mut i: usize = 0;
    while i < BOARD_TOTAL_NUMBER_OF_TILES
        invariant
            0 <= i <= BOARD_TOTAL_NUMBER_OF_TILES,
            r@.len() == i,
            forall|k: int| 0 <= k < i ==> (#[trigger] r@[k]) == visual_order_spec(k),
        decreases BOARD_TOTAL_NUMBER_OF_TILES - i,
    {
        let value: usize = if i < 11 {
            39 - i
        } else if i < 20 {
            27 - 2 * (i - 11)
        } else if i < 31 {
            i - 20
        } else {
            12 + 2 * (i - 31)
        };
        r.push(value);
        i = i + 1;
    }
    r
}

/// Given the visual tile ids (index), the actual tile ids (value);
/// the inverse of [`get_visual_tiles_order`].
pub fn get_actual_tiles_order() -> (r: Vec<usize>)
    ensures
        r@.len() == BOARD_TOTAL_NUMBER_OF_TILES,
        forall|i: int|
            0 <= i < BOARD_TOTAL_NUMBER_OF_TILES ==> (#[trigger] r@[i]) == actual_order_spec(i),
{
    let mut r: Vec<usize> = Vec::new();
    let mut i: usize = 0;
    while i < BOARD_TOTAL_NUMBER_OF_TILES
        invariant
            0 <= i <= BOARD_TOTAL_NUMBER_OF_TILES,
            r@.len() == i,
            forall|k: int| 0 <= k < i ==> (#[trigger] r@[k]) == actual_order_spec(k),
        decreases BOARD_TOTAL_NUMBER_OF_TILES - i,
    {
        let value: usize = if i < 11 {
            20 + i
        } else if i < 29 {
            if (i - 11) % 2 == 0 {
                19 - (i - 11) / 2
            } else {
                31 + (i - 11) / 2
            }
        } else {
            39 - i
        };
        r.push(value);
        i = i + 1;
    }
    r
}

/// The two walks invert each other.
pub proof fn lemma_orders_inverse(i: int)
    requires
        0 <= i < BOARD_TOTAL_NUMBER_OF_TILES,
    ensures
        actual_order_spec(visual_order_spec(i)) == i,
        visual_order_spec(actual_order_spec(i)) == i,
{
}

/// Reorders a vector by an index order: entry `k` of the result is the
/// entry the order points at.  The index vector is consumed: it ends
/// as the identity, its entries sorted into ascending order.
pub fn sort_by_indices<T: Copy>(data: &mut Vec<T>, indices: &mut Vec<usize>)
    requires
        old(data)@.len() == old(indices)@.len(),
        forall|j: int|
            0 <= j < old(indices)@.len() ==> (#[trigger] old(indices)@[j]) < old(indices)@.len(),
    ensures
        final(data)@.len() == old(data)@.len(),
        forall|k: int|
            0 <= k < old(indices)@.len() ==> (#[trigger] final(data)@[k]) == old(data)@[old(
                indices,
            )@[k] as int],
        final(indices)@.len() == old(indices)@.len(),
        forall|k: int|
            0 <= k < old(indices)@.len() ==> (#[trigger] final(indices)@[k]) == k as usize,
{
    let n: usize = data.len();
    let mut out: Vec<T> = Vec::new();
    let mut k: usize = 0;
    while k < n
        invariant
            0 <= k <= n,
            n == data@.len() == indices@.len(),
            data@ == old(data)@,
            indices@ == old(indices)@,
            out@.len() == k,
            forall|j: int|
                0 <= j < indices@.len() ==> (#[trigger] indices@[j]) < indices@.len(),
            forall|j: int| 0 <= j < k ==> (#[trigger] out@[j]) == data@[indices@[j] as int],
        decreases n - k,
    {
        out.push(data[indices[k]]);
        k = k + 1;
    }
    *data = out;
    let mut j: usize = 0;
    while j < n
        invariant
            0 <= j <= n,
            n == indices@.len(),
            forall|k2: int| 0 <= k2 < j ==> (#[trigger] indices@[k2]) == k2 as usize,
        decreases n - j,
    {
        indices[j] = j;
        j = j + 1;
    }
}

} // verus!
