use vstd::prelude::*;

verus! {

/// Per player, per set, the tiles that player owns in that set.
///
/// Rows are lists of tile ids without duplicates.  That a tile appears
/// in at most one player's rows, and only under its own set, is a
/// caller contract: the game facade funnels every ownership change
/// through one transfer path and maintains it there.
pub struct OwnershipLedger {
    /// `records[player][set]` holds the tile ids of that set owned by
    /// that player.
    pub records: Vec<Vec<Vec<usize>>>,
}

impl OwnershipLedger {
    /// The row of one player for one set.
    pub open spec fn row(&self, player: int, set: int) -> Seq<usize> {
        self.records@[player]@[set]@
    }

    /// The nested vectors have exactly the given dimensions.
    pub open spec fn shape(&self, players: int, sets: int) -> bool {
        &&& self.records@.len() == players
        &&& forall|p: int| 0 <= p < players ==> #[trigger] self.records@[p]@.len() == sets
    }

    /// An empty ledger for the given number of players and sets.
    pub fn new(number_of_players: usize, number_of_sets: usize) -> (r: OwnershipLedger)
        ensures
            r.shape(number_of_players as int, number_of_sets as int),
            forall|p: int, s: int|
                0 <= p < number_of_players && 0 <= s < number_of_sets ==> #[trigger] r.row(p, s)
                    =~= Seq::<usize>::empty(),
    {
        let mut records: Vec<Vec<Vec<usize>>> = Vec::new();
        let mut p: usize = 0;
        while p < number_of_players
            invariant
                0 <= p <= number_of_players,
                records@.len() == p,
                forall|q: int| 0 <= q < p ==> #[trigger] records@[q]@.len() == number_of_sets,
                forall|q: int, s: int|
                    0 <= q < p && 0 <= s < number_of_sets ==> #[trigger] records@[q]@[s]@.len()
                        == 0,
            decreases number_of_players - p,
        {
            let mut player_rows: Vec<Vec<usize>> = Vec::new();
            let mut s: usize = 0;
            while s < number_of_sets
                invariant
                    0 <= s <= number_of_sets,
                    player_rows@.len() == s,
                    forall|t: int| 0 <= t < s ==> #[trigger] player_rows@[t]@.len() == 0,
                decreases number_of_sets - s,
            {
                player_rows.push(Vec::new());
                s = s + 1;
            }
            records.push(player_rows);
            p = p + 1;
        }
        OwnershipLedger { records }
    }

    /// Whether a row already lists a tile.
    fn row_contains(row: &Vec<usize>, tile: usize) -> (r: bool)
        ensures
            r == row@.contains(tile),
    {
        let mut i: usize = 0;
        while i < row.len()
            invariant
                0 <= i <= row@.len(),
                forall|j: int| 0 <= j < i ==> row@[j] != tile,
            decreases row@.len() - i,
        {
            if row[i] == tile {
                return true;
            }
            i = i + 1;
        }
        false
    }

    /// Records that a player owns a tile of a set.  Idempotent: a tile
    /// already listed is not listed twice.
    pub fn record(&mut self, owner: usize, set: usize, tile: usize)
        requires
            owner < old(self).records@.len(),
            set < old(self).records@[owner as int]@.len(),
        ensures
            final(self).records@.len() == old(self).records@.len(),
            forall|p: int|
                0 <= p < old(self).records@.len() ==> #[trigger] final(self).records@[p]@.len()
                    == old(self).records@[p]@.len(),
            forall|p: int, s: int|
                0 <= p < old(self).records@.len() && 0 <= s < old(self).records@[p]@.len() && !(p
                    == owner && s == set) ==> #[trigger] final(self).row(p, s) == old(self).row(
                    p,
                    s,
                ),
            final(self).row(owner as int, set as int) == (if old(self).row(
                owner as int,
                set as int,
            ).contains(tile) {
                old(self).row(owner as int, set as int)
            } else {
                old(self).row(owner as int, set as int).push(tile)
            }),
    {
        let row: &mut Vec<usize> = &mut self.records[owner][set];
        if !Self::row_contains(row, tile) {
            row.push(tile);
        }
    }

    /// Removes a tile from a player's row for a set, reporting whether
    /// it was listed at all.  Idempotent on rows that do not list it.
    pub fn remove(&mut self, owner: usize, set: usize, tile: usize) -> (removed: bool)
        requires
            owner < old(self).records@.len(),
            set < old(self).records@[owner as int]@.len(),
        ensures
            final(self).records@.len() == old(self).records@.len(),
            forall|p: int|
                0 <= p < old(self).records@.len() ==> #[trigger] final(self).records@[p]@.len()
                    == old(self).records@[p]@.len(),
            forall|p: int, s: int|
                0 <= p < old(self).records@.len() && 0 <= s < old(self).records@[p]@.len() && !(p
                    == owner && s == set) ==> #[trigger] final(self).row(p, s) == old(self).row(
                    p,
                    s,
                ),
            removed == old(self).row(owner as int, set as int).contains(tile),
            !removed ==> final(self).row(owner as int, set as int) == old(self).row(
                owner as int,
                set as int,
            ),
            removed ==> exists|i: int|
                0 <= i < old(self).row(owner as int, set as int).len() && old(self).row(
                    owner as int,
                    set as int,
                )[i] == tile && final(self).row(owner as int, set as int) == old(self).row(
                    owner as int,
                    set as int,
                ).remove(i),
            old(self).row(owner as int, set as int).no_duplicates() ==> {
                &&& final(self).row(owner as int, set as int).no_duplicates()
                &&& !final(self).row(owner as int, set as int).contains(tile)
                &&& forall|x: usize|
                    x != tile ==> #[trigger] final(self).row(owner as int, set as int).contains(x)
                        == old(self).row(owner as int, set as int).contains(x)
            },
    {
        let ghost old_row: Seq<usize> = self.records@[owner as int]@[set as int]@;
        let row: &mut Vec<usize> = &mut self.records[owner][set];
        let mut i: usize = 0;
        let n: usize = row.len();
        while i < n && row[i] != tile
            invariant
                0 <= i <= n,
                n == row@.len(),
                row@ == old_row,
                forall|j: int| 0 <= j < i ==> row@[j] != tile,
            decreases n - i,
        {
            i = i + 1;
        }
        if i == n {
            proof {
                assert forall|j: int| 0 <= j < old_row.len() implies old_row[j] != tile by {}
                assert(!old_row.contains(tile));
            }
            return false;
        }
        row.remove(i);
        proof {
            assert(old_row.contains(tile));
            let new_row = row@;
            assert(new_row == old_row.remove(i as int));
            assert((i as int) < old_row.len() && old_row[i as int] == tile && self.row(
                owner as int,
                set as int,
            ) == old_row.remove(i as int));
            if old_row.no_duplicates() {
                assert forall|x: usize| #[trigger]
                    new_row.contains(x) implies old_row.contains(x) by {
                    let j = choose|j: int| 0 <= j < new_row.len() && new_row[j] == x;
                    if j < i {
                        assert(old_row[j] == x);
                    } else {
                        assert(old_row[j + 1] == x);
                    }
                }
                assert forall|x: usize|
                    x != tile && old_row.contains(x) implies new_row.contains(x) by {
                    let j = choose|j: int| 0 <= j < old_row.len() && old_row[j] == x;
                    if j < i {
                        assert(new_row[j] == x);
                    } else {
                        assert(j != i);
                        assert(new_row[j - 1] == x);
                    }
                }
                assert(!new_row.contains(tile)) by {
                    if new_row.contains(tile) {
                        let j = choose|j: int| 0 <= j < new_row.len() && new_row[j] == tile;
                        if j < i {
                            assert(old_row[j] == tile && old_row[i as int] == tile);
                        } else {
                            assert(old_row[j + 1] == tile && old_row[i as int] == tile);
                        }
                    }
                }
                assert(new_row.no_duplicates()) by {
                    assert forall|a: int, b: int|
                        0 <= a < b < new_row.len() implies new_row[a] != new_row[b] by {
                        let oa = if a < i {
                            a
                        } else {
                            a + 1
                        };
                        let ob = if b < i {
                            b
                        } else {
                            b + 1
                        };
                        assert(new_row[a] == old_row[oa]);
                        assert(new_row[b] == old_row[ob]);
                    }
                }
            }
        }
        true
    }

    /// How many tiles of a set a player owns.
    pub fn owned_count(&self, owner: usize, set: usize) -> (r: usize)
        requires
            owner < self.records@.len(),
            set < self.records@[owner as int]@.len(),
        ensures
            r == self.row(owner as int, set as int).len(),
    {
        self.records[owner][set].len()
    }

    /// Whether any of a player's rows lists a tile.
    pub fn is_owner_of(&self, owner: usize, tile: usize) -> (r: bool)
        requires
            owner < self.records@.len(),
        ensures
            r == exists|s: int|
                0 <= s < self.records@[owner as int]@.len() && #[trigger] self.row(
                    owner as int,
                    s,
                ).contains(tile),
    {
        let rows: &Vec<Vec<usize>> = &self.records[owner];
        let mut s: usize = 0;
        while s < rows.len()
            invariant
                0 <= s <= rows@.len(),
                rows@ == self.records@[owner as int]@,
                forall|t: int| 0 <= t < s ==> !#[trigger] self.row(owner as int, t).contains(tile),
            decreases rows@.len() - s,
        {
            if Self::row_contains(&rows[s], tile) {
                proof {
                    assert(self.row(owner as int, s as int).contains(tile));
                }
                return true;
            }
            s = s + 1;
        }
        false
    }
}

} // verus!
