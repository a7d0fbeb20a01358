use vstd::prelude::*;

verus! {

/// Reserved item id in the trade command grammar: withdrawing this id
/// clears a side's money offer instead of removing a tile.
pub const MONEY_ITEM_ID: usize = 100;

/// Which side of an open trade an offer command addresses.
#[derive(Clone, Copy, Debug, PartialEq, Eq, Structural)]
pub enum TradeSide {
    Proposer,
    Receiver,
}

/// What one side of a trade puts on the table: a set of tile ids and a
/// money amount.  The money amount is absolute and replaced, never
/// accumulated.
pub struct TradeOffer {
    /// Offered tile ids, without duplicates.
    pub tiles: Vec<usize>,
    pub money: i64,
}

impl TradeOffer {
    /// An empty offer.
    pub fn new() -> (r: TradeOffer)
        ensures
            r.tiles@ =~= Seq::<usize>::empty(),
            r.money == 0,
    {
        TradeOffer { tiles: Vec::new(), money: 0 }
    }

    /// Whether a tile is already on the table.
    pub fn contains_tile(&self, tile: usize) -> (r: bool)
        ensures
            r == self.tiles@.contains(tile),
    {
        let mut i: usize = 0;
        while i < self.tiles.len()
            invariant
                0 <= i <= self.tiles@.len(),
                forall|j: int| 0 <= j < i ==> self.tiles@[j] != tile,
            decreases self.tiles@.len() - i,
        {
            if self.tiles[i] == tile {
                return true;
            }
            i = i + 1;
        }
        false
    }

    /// Puts a tile on the table.  Idempotent: a tile already offered is
    /// not listed twice.
    pub fn add_tile(&mut self, tile: usize)
        ensures
            final(self).money == old(self).money,
            final(self).tiles@ == (if old(self).tiles@.contains(tile) {
                old(self).tiles@
            } else {
                old(self).tiles@.push(tile)
            }),
    {
        if !self.contains_tile(tile) {
            self.tiles.push(tile);
        }
    }

    /// Takes a tile off the table, reporting whether it was offered at
    /// all.
    pub fn remove_tile(&mut self, tile: usize) -> (removed: bool)
        ensures
            final(self).money == old(self).money,
            removed == old(self).tiles@.contains(tile),
            !removed ==> final(self).tiles@ == old(self).tiles@,
            removed ==> exists|i: int|
                0 <= i < old(self).tiles@.len() && old(self).tiles@[i] == tile && final(self).tiles@ == old(self).tiles@.remove(i),
            old(self).tiles@.no_duplicates() ==> {
                &&& final(self).tiles@.no_duplicates()
                &&& !final(self).tiles@.contains(tile)
                &&& forall|x: usize|
                    x != tile ==> #[trigger] final(self).tiles@.contains(x) == old(self).tiles@.contains(x)
            },
    {
        let ghost old_tiles: Seq<usize> = self.tiles@;
        let mut i: usize = 0;
        let n: usize = self.tiles.len();
        while i < n && self.tiles[i] != tile
            invariant
                0 <= i <= n,
                n == self.tiles@.len(),
                self.tiles@ == old_tiles,
                self.money == old(self).money,
                forall|j: int| 0 <= j < i ==> self.tiles@[j] != tile,
            decreases n - i,
        {
            i = i + 1;
        }
        if i == n {
            proof {
                assert forall|j: int| 0 <= j < old_tiles.len() implies old_tiles[j] != tile by {}
                assert(!old_tiles.contains(tile));
            }
            return false;
        }
        self.tiles.remove(i);
        proof {
            assert(old_tiles.contains(tile));
            let new_tiles = self.tiles@;
            assert(new_tiles == old_tiles.remove(i as int));
            if old_tiles.no_duplicates() {
                assert forall|x: usize| #[trigger]
                    new_tiles.contains(x) implies old_tiles.contains(x) by {
                    let j = choose|j: int| 0 <= j < new_tiles.len() && new_tiles[j] == x;
                    if j < i {
                        assert(old_tiles[j] == x);
                    } else {
                        assert(old_tiles[j + 1] == x);
                    }
                }
                assert forall|x: usize|
                    x != tile && old_tiles.contains(x) implies new_tiles.contains(x) by {
                    let j = choose|j: int| 0 <= j < old_tiles.len() && old_tiles[j] == x;
                    if j < i {
                        assert(new_tiles[j] == x);
                    } else {
                        assert(j != i);
                        assert(new_tiles[j - 1] == x);
                    }
                }
                assert(!new_tiles.contains(tile)) by {
                    if new_tiles.contains(tile) {
                        let j = choose|j: int| 0 <= j < new_tiles.len() && new_tiles[j] == tile;
                        if j < i {
                            assert(old_tiles[j] == tile && old_tiles[i as int] == tile);
                        } else {
                            assert(old_tiles[j + 1] == tile && old_tiles[i as int] == tile);
                        }
                    }
                }
                assert(new_tiles.no_duplicates()) by {
                    assert forall|a: int, b: int|
                        0 <= a < b < new_tiles.len() implies new_tiles[a] != new_tiles[b] by {
                        let oa = if a < i {
                            a
                        } else {
                            a + 1
                        };
                        let ob = if b < i {
                            b
                        } else {
                            b + 1
                        };
                        assert(new_tiles[a] == old_tiles[oa]);
                        assert(new_tiles[b] == old_tiles[ob]);
                    }
                }
            }
        }
        true
    }
}

/// The ephemeral two-party negotiation: who negotiates with whom and
/// what each side currently offers.  At most one session exists at a
/// time, owned by the game facade.
pub struct TradeSession {
    pub proposer: usize,
    pub receiver: usize,
    pub proposer_offer: TradeOffer,
    pub receiver_offer: TradeOffer,
    /// Whether the proposer has formally presented the offer to the
    /// other side.  Tracked for the display layer; the session can be
    /// resolved either way.
    pub proposed: bool,
}

impl TradeSession {
    /// A fresh session between two players with empty offers.
    pub fn new(proposer: usize, receiver: usize) -> (r: TradeSession)
        ensures
            r.proposer == proposer,
            r.receiver == receiver,
            r.proposer_offer.tiles@ =~= Seq::<usize>::empty(),
            r.proposer_offer.money == 0,
            r.receiver_offer.tiles@ =~= Seq::<usize>::empty(),
            r.receiver_offer.money == 0,
            !r.proposed,
    {
        TradeSession {
            proposer,
            receiver,
            proposer_offer: TradeOffer::new(),
            receiver_offer: TradeOffer::new(),
            proposed: false,
        }
    }

    /// The player standing on a given side of this session.
    pub open spec fn side_player(&self, side: TradeSide) -> usize {
        match side {
            TradeSide::Proposer => self.proposer,
            TradeSide::Receiver => self.receiver,
        }
    }

    /// The offer of a given side of this session.
    pub open spec fn side_offer(&self, side: TradeSide) -> TradeOffer {
        match side {
            TradeSide::Proposer => self.proposer_offer,
            TradeSide::Receiver => self.receiver_offer,
        }
    }
}

} // verus!
