use vstd::prelude::*;
use crate::board::BOARD_TOTAL_NUMBER_OF_TILES;
use crate::board::Board;
use crate::board::TileSet;
use crate::colours::is_known_colour_name;
use crate::error::LoadError;
use crate::error::TradeError;
use crate::ledger::OwnershipLedger;
use crate::player::Player;
use crate::player::STARTING_MONEY;
use crate::player::avatar_colour_spec;
use crate::rng::new_entropy_rng;
use crate::rng::roll_die;
use crate::text::str_eq;
use crate::tiles::AMOUNT_LIMIT;
use crate::tiles::BoardTile;
use crate::tiles::EventTile;
use crate::tiles::PropertyStatus;
use crate::tiles::RailroadTile;
use crate::tiles::StreetTile;
use crate::tiles::TileKind;
use crate::tiles::TileRecord;
use crate::tiles::UtilityTile;
use crate::tiles::clone_string;
use crate::tiles::count_status;
use crate::tiles::record_valid;
use crate::tiles::schedule_len;
use crate::tiles::schedule_sorted;
use crate::tiles::status_bounded;
use crate::tiles::tile_same_but_ownership;
use crate::tiles::tile_same_but_tier;
use crate::trade::MONEY_ITEM_ID;
use crate::trade::TradeSession;
use crate::trade::TradeSide;

verus! {

/// The game facade: the board, the players, the set index, the
/// ownership ledger, the dice, and the (at most one) open trade
/// session.  All turn actions and all display reads go through here.
pub struct Monopoly {
    pub board: Board,
    pub players: Vec<Player>,
    /// Two independent dice generators.
    pub dice: Vec<rand::rngs::StdRng>,
    /// Every set on the board with its member tiles, computed at load.
    pub property_sets: Vec<TileSet>,
    /// Which player owns which tiles, grouped by set.
    pub ownership_records: OwnershipLedger,
    /// The open trade session, if any.
    pub trade: Option<TradeSession>,
}

/// How many records of a collection use a given set name.
pub open spec fn count_set(records: Seq<TileRecord>, name: Seq<char>) -> int
    decreases records.len(),
{
    if records.len() == 0 {
        0
    } else {
        count_set(records.drop_last(), name) + if records.last().set_name@ == name {
            1int
        } else {
            0int
        }
    }
}

/// A whole collection of tile records is fit to build a board from:
/// exactly 40 well-formed records, sets never mix kinds, and no set
/// outgrows its rent schedule (at most four railroads in a railroad
/// set, at most two utilities in a utility set).
pub open spec fn records_valid(records: Seq<TileRecord>) -> bool {
    &&& records.len() == BOARD_TOTAL_NUMBER_OF_TILES
    &&& forall|i: int| 0 <= i < records.len() ==> record_valid(#[trigger] records[i])
    &&& forall|i: int, j: int|
        0 <= i < records.len() && 0 <= j < records.len() && (#[trigger] records[i]).set_name@
            == (#[trigger] records[j]).set_name@ ==> records[i].kind == records[j].kind
    &&& forall|i: int|
        0 <= i < records.len() && (#[trigger] records[i]).kind == TileKind::Railroad ==> count_set(
            records,
            records[i].set_name@,
        ) <= 4
    &&& forall|i: int|
        0 <= i < records.len() && (#[trigger] records[i]).kind == TileKind::Utility ==> count_set(
            records,
            records[i].set_name@,
        ) <= 2
}

/// A freshly built tile mirrors its record: same kind, names and cost,
/// the schedule sorted with the same entries, and nobody owning it yet.
pub open spec fn tile_matches_record(tile: BoardTile, rec: TileRecord, t: int) -> bool {
    &&& tile.id() == t
    &&& tile.kind() == rec.kind
    &&& tile.name() == rec.name@
    &&& tile.set_name() == rec.set_name@
    &&& tile.owner() is None
    &&& tile.status() is Unowned
    &&& tile.cached_rent() == 0
    &&& tile.cost() == (if rec.kind is Event {
        0int
    } else {
        rec.property_cost as int
    })
    &&& tile.schedule().len() == schedule_len(rec.kind)
    &&& tile.schedule().to_multiset() == rec.rent_schedule@.to_multiset()
    &&& schedule_sorted(tile.schedule())
    &&& forall|i: int|
        0 <= i < tile.schedule().len() ==> 0 <= #[trigger] tile.schedule()[i] <= AMOUNT_LIMIT
}

/// Counting one more record adds one when its set name matches.
proof fn lemma_count_step(records: Seq<TileRecord>, name: Seq<char>, i: int)
    requires
        0 <= i < records.len(),
    ensures
        count_set(records.take(i + 1), name) == count_set(records.take(i), name) + if records[i].set_name@
            == name {
            1int
        } else {
            0int
        },
{
    assert(records.take(i + 1).drop_last() =~= records.take(i));
    assert(records.take(i + 1).last() == records[i]);
}

/// A name used by none of the first `i` records counts zero there.
proof fn lemma_count_zero(records: Seq<TileRecord>, name: Seq<char>, i: int)
    requires
        0 <= i <= records.len(),
        forall|t: int| 0 <= t < i ==> (#[trigger] records[t]).set_name@ != name,
    ensures
        count_set(records.take(i), name) == 0,
    decreases i,
{
    if i > 0 {
        lemma_count_zero(records, name, i - 1);
        lemma_count_step(records, name, i - 1);
    } else {
        assert(records.take(0) =~= Seq::<TileRecord>::empty());
    }
}

/// Checks one record against [`record_valid`], naming what is wrong:
/// a schedule of the wrong shape, an amount out of range, or a set
/// name without a colour.
fn check_record(r: &TileRecord) -> (res: Result<(), LoadError>)
    ensures
        res is Ok <==> record_valid(*r),
{
    let expected_len: usize = match r.kind {
        TileKind::Street => 6,
        TileKind::Railroad => 4,
        TileKind::Utility => 2,
        TileKind::Event => 0,
    };
    if r.rent_schedule.len() != expected_len {
        return Err(LoadError::BadSchedule);
    }
    let mut i: usize = 0;
    while i < r.rent_schedule.len()
        invariant
            0 <= i <= r.rent_schedule@.len(),
            forall|j: int| 0 <= j < i ==> 0 <= #[trigger] r.rent_schedule@[j] <= AMOUNT_LIMIT,
        decreases r.rent_schedule@.len() - i,
    {
        let entry: i64 = r.rent_schedule[i];
        if entry < 0 || entry > AMOUNT_LIMIT {
            return Err(LoadError::BadSchedule);
        }
        i = i + 1;
    }
    if r.property_cost < 0 || r.property_cost > AMOUNT_LIMIT {
        return Err(LoadError::BadAmount);
    }
    if r.mortgage_value < 0 || r.mortgage_value > AMOUNT_LIMIT {
        return Err(LoadError::BadAmount);
    }
    if r.kind != TileKind::Event && !is_known_colour_name(r.set_name.as_str()) {
        return Err(LoadError::UnknownSetName);
    }
    if r.kind == TileKind::Street && (r.house_cost < 0 || r.house_cost > AMOUNT_LIMIT
        || r.hotel_cost < 0 || r.hotel_cost > AMOUNT_LIMIT) {
        return Err(LoadError::BadAmount);
    }
    Ok(())
}

/// How many records of a collection use the given set name.
fn count_records_with_set(records: &Vec<TileRecord>, name: &str) -> (cnt: usize)
    ensures
        cnt == count_set(records@, name@),
{
    let mut cnt: usize = 0;
    let mut j: usize = 0;
    while j < records.len()
        invariant
            0 <= j <= records@.len(),
            cnt <= j,
            cnt == count_set(records@.take(j as int), name@),
        decreases records@.len() - j,
    {
        proof {
            lemma_count_step(records@, name@, j as int);
        }
        if str_eq(records[j].set_name.as_str(), name) {
            cnt = cnt + 1;
        }
        j = j + 1;
    }
    proof {
        assert(records@.take(records@.len() as int) =~= records@);
    }
    cnt
}

/// Checks a whole collection of tile records against
/// [`records_valid`], reporting the first problem found: the record
/// count, then each record on its own, then mixed-kind sets, then
/// oversized railroad and utility sets.
pub fn validate_tile_records(records: &Vec<TileRecord>) -> (r: Result<(), LoadError>)
    ensures
        r is Ok <==> records_valid(records@),
{
    if records.len() != BOARD_TOTAL_NUMBER_OF_TILES {
        return Err(LoadError::WrongTileCount);
    }
    let n: usize = records.len();
    let mut i: usize = 0;
    while i < n
        invariant
            0 <= i <= n,
            n == records@.len(),
            forall|k: int| 0 <= k < i ==> record_valid(#[trigger] records@[k]),
        decreases n - i,
    {
        if let Err(e) = check_record(&records[i]) {
            return Err(e);
        }
        i = i + 1;
    }
    let mut a: usize = 0;
    while a < n
        invariant
            0 <= a <= n,
            n == records@.len(),
            forall|k: int| 0 <= k < n ==> record_valid(#[trigger] records@[k]),
            forall|x: int, y: int|
                0 <= x < a && 0 <= y < n && (#[trigger] records@[x]).set_name@
                    == (#[trigger] records@[y]).set_name@ ==> records@[x].kind == records@[y].kind,
        decreases n - a,
    {
        let mut b: usize = 0;
        while b < n
            invariant
                0 <= b <= n,
                a < n,
                n == records@.len(),
                forall|y: int|
                    0 <= y < b && (#[trigger] records@[a as int]).set_name@
                        == (#[trigger] records@[y]).set_name@ ==> records@[a as int].kind
                        == records@[y].kind,
            decreases n - b,
        {
            if str_eq(records[a].set_name.as_str(), records[b].set_name.as_str())
                && records[a].kind != records[b].kind {
                return Err(LoadError::MixedSet);
            }
            b = b + 1;
        }
        a = a + 1;
    }
    proof {
        assert forall|x: int, y: int|
            0 <= x < n && 0 <= y < n && (#[trigger] records@[x]).set_name@
                == (#[trigger] records@[y]).set_name@ implies records@[x].kind
            == records@[y].kind by {}
    }
    let mut c: usize = 0;
    while c < n
        invariant
            0 <= c <= n,
            n == records@.len(),
            forall|k: int| 0 <= k < n ==> record_valid(#[trigger] records@[k]),
            forall|x: int, y: int|
                0 <= x < n && 0 <= y < n && (#[trigger] records@[x]).set_name@
                    == (#[trigger] records@[y]).set_name@ ==> records@[x].kind == records@[y].kind,
            forall|k: int|
                0 <= k < c && (#[trigger] records@[k]).kind == TileKind::Railroad ==> count_set(
                    records@,
                    records@[k].set_name@,
                ) <= 4,
            forall|k: int|
                0 <= k < c && (#[trigger] records@[k]).kind == TileKind::Utility ==> count_set(
                    records@,
                    records@[k].set_name@,
                ) <= 2,
        decreases n - c,
    {
        if records[c].kind == TileKind::Railroad {
            let cnt: usize = count_records_with_set(records, records[c].set_name.as_str());
            if cnt > 4 {
                return Err(LoadError::OversizedSet);
            }
        }
        if records[c].kind == TileKind::Utility {
            let cnt: usize = count_records_with_set(records, records[c].set_name.as_str());
            if cnt > 2 {
                return Err(LoadError::OversizedSet);
            }
        }
        c = c + 1;
    }
    Ok(())
}

/// Finds the set entry already carrying a name, if any.
fn find_set(sets: &Vec<TileSet>, name: &str) -> (r: Option<usize>)
    ensures
        match r {
            Some(s) => s < sets@.len() && sets@[s as int].name@ == name@,
            None => forall|s: int| 0 <= s < sets@.len() ==> (#[trigger] sets@[s]).name@ != name@,
        },
{
    let mut s: usize = 0;
    while s < sets.len()
        invariant
            0 <= s <= sets@.len(),
            forall|k: int| 0 <= k < s ==> (#[trigger] sets@[k]).name@ != name@,
        decreases sets@.len() - s,
    {
        if str_eq(sets[s].name.as_str(), name) {
            return Some(s);
        }
        s = s + 1;
    }
    None
}

/// The board's tiles and its set index agree: every tile lies in its
/// set, every set member points back at its set, sets never share a
/// name, and no set is empty.
pub open spec fn board_index_ok(tiles: Seq<BoardTile>, sets: Seq<TileSet>) -> bool {
    &&& forall|t: int|
        0 <= t < tiles.len() ==> {
            let tile = #[trigger] tiles[t];
            &&& 0 <= tile.set_id() < sets.len()
            &&& sets[tile.set_id()].name@ == tile.set_name()
            &&& sets[tile.set_id()].kind == tile.kind()
            &&& sets[tile.set_id()].tiles@.contains(t as usize)
        }
    &&& forall|s: int| 0 <= s < sets.len() ==> (#[trigger] sets[s]).tiles@.no_duplicates()
    &&& forall|s: int, j: int|
        0 <= s < sets.len() && 0 <= j < (#[trigger] sets[s]).tiles@.len() ==> {
            let m = #[trigger] sets[s].tiles@[j];
            &&& m < tiles.len()
            &&& tiles[m as int].set_id() == s
        }
    &&& forall|s1: int, s2: int|
        0 <= s1 < s2 < sets.len() ==> (#[trigger] sets[s1]).name@ != (#[trigger] sets[s2]).name@
    &&& forall|s: int| 0 <= s < sets.len() ==> (#[trigger] sets[s]).tiles@.len() >= 1
}

/// Builds the tiles and the set index from validated records.
fn build_board(records: &Vec<TileRecord>) -> (r: (Vec<BoardTile>, Vec<TileSet>))
    requires
        records_valid(records@),
    ensures
        r.0@.len() == records@.len(),
        forall|t: int|
            0 <= t < records@.len() ==> tile_matches_record(#[trigger] r.0@[t], records@[t], t),
        board_index_ok(r.0@, r.1@),
        forall|s: int|
            0 <= s < r.1@.len() ==> (#[trigger] r.1@[s]).tiles@.len() == count_set(
                records@,
                r.1@[s].name@,
            ),
{
    let n: usize = records.len();
    let mut tiles: Vec<BoardTile> = Vec::new();
    let mut sets: Vec<TileSet> = Vec::new();
    let mut i: usize = 0;
    while i < n
        invariant
            0 <= i <= n,
            n == records@.len(),
            records_valid(records@),
            tiles@.len() == i,
            forall|t: int|
                0 <= t < i ==> tile_matches_record(#[trigger] tiles@[t], records@[t], t),
            forall|t: int|
                0 <= t < i ==> {
                    let tile = #[trigger] tiles@[t];
                    &&& 0 <= tile.set_id() < sets@.len()
                    &&& sets@[tile.set_id()].name@ == tile.set_name()
                    &&& sets@[tile.set_id()].kind == tile.kind()
                    &&& sets@[tile.set_id()].tiles@.contains(t as usize)
                },
            forall|s: int| 0 <= s < sets@.len() ==> (#[trigger] sets@[s]).tiles@.no_duplicates(),
            forall|s: int, j: int|
                0 <= s < sets@.len() && 0 <= j < (#[trigger] sets@[s]).tiles@.len() ==> {
                    let m = #[trigger] sets@[s].tiles@[j];
                    &&& m < i
                    &&& tiles@[m as int].set_id() == s
                    &&& records@[m as int].set_name@ == sets@[s].name@
                    &&& records@[m as int].kind == sets@[s].kind
                },
            forall|s1: int, s2: int|
                0 <= s1 < s2 < sets@.len() ==> (#[trigger] sets@[s1]).name@ != (
                #[trigger] sets@[s2]).name@,
            forall|s: int| 0 <= s < sets@.len() ==> (#[trigger] sets@[s]).tiles@.len() >= 1,
            forall|s: int|
                0 <= s < sets@.len() ==> (#[trigger] sets@[s]).tiles@.len() == count_set(
                    records@.take(i as int),
                    sets@[s].name@,
                ),
        decreases n - i,
    {
        let ghost old_sets: Seq<TileSet> = sets@;
        let set_id: usize = match find_set(&sets, records[i].set_name.as_str()) {
            Some(s) => s,
            None => {
                proof {
                    assert forall|t: int|
                        0 <= t < i implies (#[trigger] records@[t]).set_name@
                        != records@[i as int].set_name@ by {
                        assert(sets@[tiles@[t].set_id()].name@ == records@[t].set_name@);
                    }
                    lemma_count_zero(records@, records@[i as int].set_name@, i as int);
                }
                sets.push(
                    TileSet {
                        name: clone_string(&records[i].set_name),
                        kind: records[i].kind,
                        tiles: Vec::new(),
                    },
                );
                sets.len() - 1
            },
        };
        proof {
            if set_id < old_sets.len() {
                let m = sets@[set_id as int].tiles@[0];
                assert(records@[m as int].set_name@ == sets@[set_id as int].name@);
                assert(records@[m as int].kind == records@[i as int].kind);
            }
        }
        let tile: BoardTile = match records[i].kind {
            TileKind::Street => BoardTile::Street(StreetTile::new(i, set_id, &records[i])),
            TileKind::Railroad => BoardTile::Railroad(RailroadTile::new(i, set_id, &records[i])),
            TileKind::Utility => BoardTile::Utility(UtilityTile::new(i, set_id, &records[i])),
            TileKind::Event => BoardTile::Event(EventTile::new(i, set_id, &records[i])),
        };
        tiles.push(tile);
        proof {
            let tile_new = tiles@[i as int];
            if tile_new is Event {
                assert(record_valid(records@[i as int]));
                assert(tile_new.schedule() =~= records@[i as int].rent_schedule@);
            }
            assert(tile_matches_record(tile_new, records@[i as int], i as int));
        }
        let ghost sets_before_member: Seq<TileSet> = sets@;
        let entry: &mut TileSet = &mut sets[set_id];
        entry.tiles.push(i);
        proof {
            assert(sets@[set_id as int].name@ == records@[i as int].set_name@);
            assert(sets@[set_id as int].kind == records@[i as int].kind);
            assert(sets@[set_id as int].tiles@.last() == i);
            assert(sets@[set_id as int].tiles@.contains(i));
            assert forall|t: int| 0 <= t < i implies {
                let tl = #[trigger] tiles@[t];
                &&& 0 <= tl.set_id() < sets@.len()
                &&& sets@[tl.set_id()].name@ == tl.set_name()
                &&& sets@[tl.set_id()].kind == tl.kind()
                &&& sets@[tl.set_id()].tiles@.contains(t as usize)
            } by {
                let tl = tiles@[t];
                if tl.set_id() == set_id {
                    assert(sets_before_member[set_id as int].tiles@.contains(t as usize));
                    let j = choose|j: int|
                        0 <= j < sets_before_member[set_id as int].tiles@.len()
                            && sets_before_member[set_id as int].tiles@[j] == t as usize;
                    assert(sets@[set_id as int].tiles@[j] == t as usize);
                } else {
                    assert(sets@[tl.set_id()] == sets_before_member[tl.set_id()]);
                }
            }
            lemma_count_step(records@, sets@[set_id as int].name@, i as int);
            assert forall|s: int|
                0 <= s < sets@.len() && s != set_id implies (#[trigger] sets@[s]).tiles@.len()
                == count_set(records@.take(i + 1), sets@[s].name@) by {
                assert(sets@[s] == sets_before_member[s]);
                assert(sets@[s].name@ != records@[i as int].set_name@);
                lemma_count_step(records@, sets@[s].name@, i as int);
            }
            assert(sets@[set_id as int].tiles@ == sets_before_member[set_id as int].tiles@.push(
                i,
            ));
            assert forall|s: int, j: int|
                0 <= s < sets@.len() && 0 <= j < (#[trigger] sets@[s]).tiles@.len() implies {
                let m = #[trigger] sets@[s].tiles@[j];
                &&& m < i + 1
                &&& tiles@[m as int].set_id() == s
                &&& records@[m as int].set_name@ == sets@[s].name@
                &&& records@[m as int].kind == sets@[s].kind
            } by {
                if s == set_id && j == sets@[s].tiles@.len() - 1 {
                    assert(sets@[s].tiles@[j] == i);
                } else {
                    assert(sets@[s].tiles@[j] == sets_before_member[s].tiles@[j]);
                }
            }
            assert(sets@[set_id as int].tiles@.no_duplicates());
        }
        i = i + 1;
    }
    proof {
        assert(records@.take(n as int) =~= records@);
    }
    (tiles, sets)
}

impl Monopoly {
    /// Number of players in the game.
    pub open spec fn n_players(self) -> int {
        self.players@.len() as int
    }

    /// Number of distinct sets on the board.
    pub open spec fn n_sets(self) -> int {
        self.property_sets@.len() as int
    }

    /// The tile at a board position.
    pub open spec fn tile_at(self, t: int) -> BoardTile {
        self.board.board@[t]
    }

    /// The set entry at an index.
    pub open spec fn set_at(self, s: int) -> TileSet {
        self.property_sets@[s]
    }

    /// How many tiles of a set a player owns, per the ledger.
    pub open spec fn owned_count_spec(self, p: int, s: int) -> int {
        self.ownership_records.row(p, s).len() as int
    }

    /// How many tiles a set has in total.
    pub open spec fn set_size(self, s: int) -> int {
        self.set_at(s).tiles@.len() as int
    }

    /// A player owns every tile of a set.
    pub open spec fn full_set(self, p: int, s: int) -> bool {
        self.owned_count_spec(p, s) == self.set_size(s)
    }

    /// One tile is internally consistent: right position, a real set
    /// of its own kind that lists it, a well-formed sorted schedule,
    /// and an owner that exists (if any).
    pub open spec fn tile_wf(self, t: int) -> bool {
        let tile = self.tile_at(t);
        &&& tile.id() == t
        &&& 0 <= tile.set_id() < self.n_sets()
        &&& self.set_at(tile.set_id()).name@ == tile.set_name()
        &&& self.set_at(tile.set_id()).kind == tile.kind()
        &&& self.set_at(tile.set_id()).tiles@.contains(t as usize)
        &&& tile.schedule().len() == schedule_len(tile.kind())
        &&& schedule_sorted(tile.schedule())
        &&& forall|i: int|
            0 <= i < tile.schedule().len() ==> 0 <= #[trigger] tile.schedule()[i] <= AMOUNT_LIMIT
        &&& 0 <= tile.cost() <= AMOUNT_LIMIT
        &&& (tile.owner() matches Some(p) ==> (p as int) < self.n_players())
        &&& (tile.kind() is Event ==> tile.owner() is None)
    }

    /// All 40 tiles are internally consistent.
    pub open spec fn tiles_wf(self) -> bool {
        &&& self.board.board@.len() == BOARD_TOTAL_NUMBER_OF_TILES
        &&& forall|t: int| 0 <= t < BOARD_TOTAL_NUMBER_OF_TILES ==> #[trigger] self.tile_wf(t)
    }

    /// One set entry is internally consistent: distinct members that
    /// point back at it, and never more members than its kind's rent
    /// schedule can count.
    pub open spec fn set_entry_wf(self, s: int) -> bool {
        let e = self.set_at(s);
        &&& e.tiles@.no_duplicates()
        &&& forall|j: int|
            0 <= j < e.tiles@.len() ==> (#[trigger] e.tiles@[j]) < BOARD_TOTAL_NUMBER_OF_TILES
                && self.tile_at(e.tiles@[j] as int).set_id() == s
        &&& (e.kind is Railroad ==> e.tiles@.len() <= 4)
        &&& (e.kind is Utility ==> e.tiles@.len() <= 2)
    }

    /// The whole set index is internally consistent.
    pub open spec fn sets_wf(self) -> bool {
        forall|s: int| 0 <= s < self.n_sets() ==> #[trigger] self.set_entry_wf(s)
    }

    /// One ledger row is internally consistent: distinct tiles of the
    /// row's set, each actually owned by the row's player.
    pub open spec fn ledger_row_wf(self, p: int, s: int) -> bool {
        let row = self.ownership_records.row(p, s);
        &&& row.no_duplicates()
        &&& forall|j: int|
            0 <= j < row.len() ==> (#[trigger] row[j]) < BOARD_TOTAL_NUMBER_OF_TILES
                && self.tile_at(row[j] as int).set_id() == s && self.tile_at(row[j] as int).owner()
                == Some(p as usize)
    }

    /// The ledger mirrors the board exactly: every row lists only what
    /// its player owns in that set, and every owned tile is listed in
    /// its owner's row for its set.  Rows of distinct players are
    /// therefore disjoint.
    pub open spec fn ledger_wf(self) -> bool {
        &&& self.ownership_records.shape(self.n_players(), self.n_sets())
        &&& forall|p: int, s: int|
            0 <= p < self.n_players() && 0 <= s < self.n_sets() ==> #[trigger] self.ledger_row_wf(
                p,
                s,
            )
        &&& forall|t: int|
            0 <= t < BOARD_TOTAL_NUMBER_OF_TILES ==> match (#[trigger] self.tile_at(t)).owner() {
                Some(p) => self.ownership_records.row(p as int, self.tile_at(t).set_id()).contains(
                    t as usize,
                ),
                None => true,
            }
    }

    /// The player list is consistent: one to four players whose ids
    /// match their indices, all standing on the board.
    pub open spec fn players_wf(self) -> bool {
        &&& 1 <= self.n_players() <= 4
        &&& forall|p: int|
            0 <= p < self.n_players() ==> (#[trigger] self.players@[p]).id == p as i8
                && self.players@[p].position < BOARD_TOTAL_NUMBER_OF_TILES
    }

    /// One side's offer is consistent: distinct on-board tiles, all
    /// owned by the offering player, and a non-negative money amount.
    pub open spec fn offer_tiles_wf(self, tiles: Seq<usize>, who: usize) -> bool {
        &&& tiles.no_duplicates()
        &&& forall|j: int|
            0 <= j < tiles.len() ==> (#[trigger] tiles[j]) < BOARD_TOTAL_NUMBER_OF_TILES
                && self.tile_at(tiles[j] as int).owner() == Some(who)
    }

    /// The open trade session, if any, is consistent: two distinct
    /// real players, each offering only tiles they own and money that
    /// is not negative.
    pub open spec fn trade_wf(self) -> bool {
        match self.trade {
            None => true,
            Some(sess) => {
                &&& (sess.proposer as int) < self.n_players()
                &&& (sess.receiver as int) < self.n_players()
                &&& sess.proposer != sess.receiver
                &&& self.offer_tiles_wf(sess.proposer_offer.tiles@, sess.proposer)
                &&& 0 <= sess.proposer_offer.money
                &&& self.offer_tiles_wf(sess.receiver_offer.tiles@, sess.receiver)
                &&& 0 <= sess.receiver_offer.money
            },
        }
    }

    /// The cached rent of one tile is exactly what the rent rules say
    /// for the current ownership picture.
    pub open spec fn rent_ok(self, t: int) -> bool {
        match self.tile_at(t) {
            BoardTile::Street(st) => match st.owner {
                None => st.property_status is Unowned && st.rent == 0,
                Some(p) => {
                    &&& st.property_status is Owned
                    &&& st.rent == if self.full_set(p as int, st.set_id as int) {
                        2 * st.rent_levels@[0]
                    } else {
                        st.rent_levels@[0] as int
                    }
                },
            },
            BoardTile::Railroad(rt) => match rt.owner {
                None => rt.property_status is Unowned && rt.rent == 0,
                Some(p) => {
                    let c = self.owned_count_spec(p as int, rt.set_id as int);
                    &&& rt.property_status == count_status(c)
                    &&& rt.rent == rt.rent_levels@[c - 1]
                },
            },
            BoardTile::Utility(ut) => match ut.owner {
                None => ut.property_status is Unowned && ut.rent_multiplier == 0,
                Some(p) => {
                    let c = self.owned_count_spec(p as int, ut.set_id as int);
                    &&& ut.property_status == count_status(c)
                    &&& ut.rent_multiplier == ut.rent_multiplier_levels@[c - 1]
                },
            },
            BoardTile::Event(_) => true,
        }
    }

    /// Every cached rent on the board is up to date.
    pub open spec fn rents_ok(self) -> bool {
        forall|t: int| 0 <= t < BOARD_TOTAL_NUMBER_OF_TILES ==> #[trigger] self.rent_ok(t)
    }

    /// Everything except rent caches: the structural state the game
    /// preserves across every step of every command.
    pub open spec fn wf_core(self) -> bool {
        &&& self.tiles_wf()
        &&& self.sets_wf()
        &&& self.ledger_wf()
        &&& self.players_wf()
        &&& self.trade_wf()
        &&& self.dice@.len() == 2
    }

    /// The game invariant: structurally consistent and every cached
    /// rent up to date.  Constructors establish it; every command
    /// preserves it.
    pub open spec fn wf(self) -> bool {
        &&& self.wf_core()
        &&& self.rents_ok()
    }

    /// Builds a game from already-validated tile records: exactly 40
    /// tiles in board-walk order, grouped into sets, all unowned, with
    /// the given number of players at the start tile.
    pub fn new(tile_records: Vec<TileRecord>, number_of_players: usize) -> (r: Result<
        Monopoly,
        LoadError,
    >)
        requires
            1 <= number_of_players <= 4,
        ensures
            r is Ok <==> records_valid(tile_records@),
            r matches Ok(g) ==> {
                &&& g.wf()
                &&& g.n_players() == number_of_players
                &&& forall|t: int|
                    0 <= t < BOARD_TOTAL_NUMBER_OF_TILES ==> tile_matches_record(
                        #[trigger] g.tile_at(t),
                        tile_records@[t],
                        t,
                    )
                &&& forall|p: int|
                    0 <= p < number_of_players ==> (#[trigger] g.players@[p]).position == 0
                        && g.players@[p].money == STARTING_MONEY && g.players@[p].id == p as i8
                        && g.players@[p].colour@ == avatar_colour_spec(p)
                &&& forall|p: int, s: int|
                    0 <= p < g.n_players() && 0 <= s < g.n_sets()
                        ==> #[trigger] g.owned_count_spec(p, s) == 0
                &&& g.trade is None
            },
    {
        if let Err(e) = validate_tile_records(&tile_records) {
            return Err(e);
        }
        let (tiles, sets) = build_board(&tile_records);
        let ghost tiles_v: Seq<BoardTile> = tiles@;
        let ghost sets_v: Seq<TileSet> = sets@;

        let mut players: Vec<Player> = Vec::new();
        let mut p: usize = 0;
        while p < number_of_players
            invariant
                0 <= p <= number_of_players <= 4,
                players@.len() == p,
                forall|q: int|
                    0 <= q < p ==> (#[trigger] players@[q]).position == 0 && players@[q].money
                        == STARTING_MONEY && players@[q].id == q as i8 && players@[q].colour@
                        == avatar_colour_spec(q) && players@[q].last_position == 0,
            decreases number_of_players - p,
        {
            players.push(Player::new(p as i8));
            p = p + 1;
        }

        let ownership_records: OwnershipLedger = OwnershipLedger::new(
            number_of_players,
            sets.len(),
        );
        let mut dice: Vec<rand::rngs::StdRng> = Vec::new();
        dice.push(new_entropy_rng());
        dice.push(new_entropy_rng());

        let game: Monopoly = Monopoly {
            board: Board::new(tiles),
            players,
            dice,
            property_sets: sets,
            ownership_records,
            trade: None,
        };

        proof {
            assert forall|t: int|
                0 <= t < BOARD_TOTAL_NUMBER_OF_TILES implies #[trigger] game.tile_wf(t) by {
                assert(tile_matches_record(tiles_v[t], tile_records@[t], t));
                assert(record_valid(tile_records@[t]));
            }
            assert forall|s: int| 0 <= s < game.n_sets() implies #[trigger] game.set_entry_wf(
                s,
            ) by {
                let e = game.set_at(s);
                if e.kind is Railroad || e.kind is Utility {
                    let m = e.tiles@[0];
                    assert(e.tiles@.contains(m));
                    assert(tiles_v[m as int].set_id() == s);
                    assert(tiles_v[m as int].kind() == e.kind);
                    assert(tile_matches_record(tiles_v[m as int], tile_records@[m as int], m as int));
                    assert(tile_records@[m as int].kind == e.kind);
                    assert(tile_records@[m as int].set_name@ == e.name@);
                }
            }
            assert forall|p0: int, s: int|
                0 <= p0 < game.n_players() && 0 <= s < game.n_sets()
                    implies #[trigger] game.ledger_row_wf(p0, s) by {
                assert(game.ownership_records.row(p0, s) =~= Seq::<usize>::empty());
            }
            assert forall|t: int|
                0 <= t < BOARD_TOTAL_NUMBER_OF_TILES implies #[trigger] game.rent_ok(t) by {
                assert(tile_matches_record(tiles_v[t], tile_records@[t], t));
                let tile = game.tile_at(t);
                assert(tile.owner() is None);
                match tile {
                    BoardTile::Street(st) => {
                        assert(st.owner is None && st.property_status is Unowned && st.rent == 0);
                    },
                    BoardTile::Railroad(rt) => {
                        assert(rt.owner is None && rt.property_status is Unowned && rt.rent == 0);
                    },
                    BoardTile::Utility(ut) => {
                        assert(ut.owner is None && ut.property_status is Unowned
                            && ut.rent_multiplier == 0);
                    },
                    BoardTile::Event(_) => {},
                }
            }
        }
        Ok(game)
    }
}

impl Monopoly {
    /// The rent landing on a tile charges, given the dice sum of the
    /// roll that landed there: the cached rent for streets and
    /// railroads, the cached multiplier times the dice sum for
    /// utilities, nothing for events.
    pub open spec fn rent_amount(self, t: int, dice_sum: int) -> int {
        match self.tile_at(t) {
            BoardTile::Street(st) => st.rent as int,
            BoardTile::Railroad(rt) => rt.rent as int,
            BoardTile::Utility(ut) => ut.rent_multiplier * dice_sum,
            BoardTile::Event(_) => 0,
        }
    }

    /// Everything the trade session does not touch.
    pub open spec fn same_except_trade(a: Monopoly, b: Monopoly) -> bool {
        &&& b.board == a.board
        &&& b.players == a.players
        &&& b.dice == a.dice
        &&& b.property_sets == a.property_sets
        &&& b.ownership_records == a.ownership_records
    }

    /// Well-formedness carries over to a state with the same board,
    /// sets and ledger, an already well-formed trade session, and a
    /// player list that keeps its length, ids and on-board positions.
    proof fn lemma_wf_same_board_any_trade(a: Monopoly, b: Monopoly)
        requires
            a.wf_core(),
            b.board == a.board,
            b.property_sets == a.property_sets,
            b.ownership_records == a.ownership_records,
            b.trade_wf(),
            b.dice@.len() == 2,
            b.players@.len() == a.players@.len(),
            forall|p: int|
                0 <= p < b.players@.len() ==> (#[trigger] b.players@[p]).id == a.players@[p].id
                    && b.players@[p].position < BOARD_TOTAL_NUMBER_OF_TILES,
        ensures
            b.wf_core(),
            a.rents_ok() ==> b.rents_ok(),
    {
        assert forall|t: int|
            0 <= t < BOARD_TOTAL_NUMBER_OF_TILES implies #[trigger] b.tile_wf(t) by {
            assert(a.tile_wf(t));
        }
        assert forall|s: int| 0 <= s < b.n_sets() implies #[trigger] b.set_entry_wf(s) by {
            assert(a.set_entry_wf(s));
        }
        assert forall|p: int, s: int|
            0 <= p < b.n_players() && 0 <= s < b.n_sets() implies #[trigger] b.ledger_row_wf(
            p,
            s,
        ) by {
            assert(a.ledger_row_wf(p, s));
        }
        assert forall|t: int|
            0 <= t < BOARD_TOTAL_NUMBER_OF_TILES implies match (#[trigger] b.tile_at(
            t,
        )).owner() {
            Some(p) => b.ownership_records.row(p as int, b.tile_at(t).set_id()).contains(
                t as usize,
            ),
            None => true,
        } by {
            assert(b.tile_at(t) == a.tile_at(t));
            assert(match a.tile_at(t).owner() {
                Some(p) => a.ownership_records.row(p as int, a.tile_at(t).set_id()).contains(
                    t as usize,
                ),
                None => true,
            });
        }
        if a.rents_ok() {
            assert forall|t: int|
                0 <= t < BOARD_TOTAL_NUMBER_OF_TILES implies #[trigger] b.rent_ok(t) by {
                assert(a.rent_ok(t));
            }
        }
    }

    /// Well-formedness carries over to a state with the same board,
    /// sets, ledger and trade, as long as the player list keeps its
    /// length, ids and on-board positions.
    proof fn lemma_wf_same_board(a: Monopoly, b: Monopoly)
        requires
            a.wf_core(),
            b.board == a.board,
            b.property_sets == a.property_sets,
            b.ownership_records == a.ownership_records,
            b.trade == a.trade,
            b.dice@.len() == 2,
            b.players@.len() == a.players@.len(),
            forall|p: int|
                0 <= p < b.players@.len() ==> (#[trigger] b.players@[p]).id == a.players@[p].id
                    && b.players@[p].position < BOARD_TOTAL_NUMBER_OF_TILES,
        ensures
            b.wf_core(),
            a.rents_ok() ==> b.rents_ok(),
    {
        assert forall|t: int|
            0 <= t < BOARD_TOTAL_NUMBER_OF_TILES implies #[trigger] b.tile_wf(t) by {
            assert(a.tile_wf(t));
        }
        assert forall|s: int| 0 <= s < b.n_sets() implies #[trigger] b.set_entry_wf(s) by {
            assert(a.set_entry_wf(s));
        }
        assert forall|p: int, s: int|
            0 <= p < b.n_players() && 0 <= s < b.n_sets() implies #[trigger] b.ledger_row_wf(
            p,
            s,
        ) by {
            assert(a.ledger_row_wf(p, s));
        }
        assert forall|t: int|
            0 <= t < BOARD_TOTAL_NUMBER_OF_TILES implies match (#[trigger] b.tile_at(
            t,
        )).owner() {
            Some(p) => b.ownership_records.row(p as int, b.tile_at(t).set_id()).contains(
                t as usize,
            ),
            None => true,
        } by {
            assert(b.tile_at(t) == a.tile_at(t));
            assert(match a.tile_at(t).owner() {
                Some(p) => a.ownership_records.row(p as int, a.tile_at(t).set_id()).contains(
                    t as usize,
                ),
                None => true,
            });
        }
        match b.trade {
            None => {},
            Some(sess) => {
                assert(a.offer_tiles_wf(sess.proposer_offer.tiles@, sess.proposer));
                assert(a.offer_tiles_wf(sess.receiver_offer.tiles@, sess.receiver));
                assert forall|j: int|
                    0 <= j < sess.proposer_offer.tiles@.len() implies (
                    #[trigger] sess.proposer_offer.tiles@[j]) < BOARD_TOTAL_NUMBER_OF_TILES
                    && b.tile_at(sess.proposer_offer.tiles@[j] as int).owner() == Some(
                    sess.proposer,
                ) by {
                    assert(sess.proposer_offer.tiles@[j] < BOARD_TOTAL_NUMBER_OF_TILES
                        && a.tile_at(sess.proposer_offer.tiles@[j] as int).owner() == Some(
                        sess.proposer,
                    ));
                }
                assert forall|j: int|
                    0 <= j < sess.receiver_offer.tiles@.len() implies (
                    #[trigger] sess.receiver_offer.tiles@[j]) < BOARD_TOTAL_NUMBER_OF_TILES
                    && b.tile_at(sess.receiver_offer.tiles@[j] as int).owner() == Some(
                    sess.receiver,
                ) by {
                    assert(sess.receiver_offer.tiles@[j] < BOARD_TOTAL_NUMBER_OF_TILES
                        && a.tile_at(sess.receiver_offer.tiles@[j] as int).owner() == Some(
                        sess.receiver,
                    ));
                }
            },
        }
        if a.rents_ok() {
            assert forall|t: int|
                0 <= t < BOARD_TOTAL_NUMBER_OF_TILES implies #[trigger] b.rent_ok(t) by {
                assert(a.rent_ok(t));
            }
        }
    }

    /// A player can never hold more tiles of a set than the set has:
    /// the ledger row is duplicate-free and every entry lies in the
    /// set's member list.
    pub proof fn lemma_owned_count_bounded(self, p: int, s: int)
        requires
            self.tiles_wf(),
            self.sets_wf(),
            self.ledger_wf(),
            0 <= p < self.n_players(),
            0 <= s < self.n_sets(),
        ensures
            self.owned_count_spec(p, s) <= self.set_size(s),
    {
        broadcast use vstd::seq_lib::seq_to_set_is_finite;

        let row = self.ownership_records.row(p, s);
        let members = self.set_at(s).tiles@;
        assert(self.ledger_row_wf(p, s));
        assert(self.set_entry_wf(s));
        assert forall|x: usize| row.to_set().contains(x) implies members.to_set().contains(x) by {
            assert(row.contains(x));
            let j = choose|j: int| 0 <= j < row.len() && row[j] == x;
            assert(self.tile_wf(x as int));
            assert(members.contains(x));
        }
        row.unique_seq_to_set();
        vstd::set_lib::lemma_len_subset(row.to_set(), members.to_set());
        members.lemma_cardinality_of_set();
    }

    /// Ledger rows of distinct players never share a tile: each entry
    /// records its player as the tile's one owner.
    pub proof fn lemma_ledger_rows_disjoint(self, p: int, q: int, s: int)
        requires
            self.tiles_wf(),
            self.sets_wf(),
            self.ledger_wf(),
            self.players_wf(),
            0 <= p < self.n_players(),
            0 <= q < self.n_players(),
            p != q,
            0 <= s < self.n_sets(),
        ensures
            forall|t: usize|
                #[trigger] self.ownership_records.row(p, s).contains(t)
                    ==> !self.ownership_records.row(q, s).contains(t),
    {
        assert(self.ledger_row_wf(p, s));
        assert(self.ledger_row_wf(q, s));
        assert forall|t: usize| #[trigger]
            self.ownership_records.row(p, s).contains(t) implies !self.ownership_records.row(
            q,
            s,
        ).contains(t) by {
            let row_p = self.ownership_records.row(p, s);
            let j = choose|j: int| 0 <= j < row_p.len() && row_p[j] == t;
            assert(row_p[j] == t);
            assert(self.tile_at(row_p[j] as int).owner() == Some(p as usize));
            if self.ownership_records.row(q, s).contains(t) {
                let row_q = self.ownership_records.row(q, s);
                let k = choose|k: int| 0 <= k < row_q.len() && row_q[k] == t;
                assert(row_q[k] == t);
                assert(self.tile_at(row_q[k] as int).owner() == Some(q as usize));
                assert((p as usize) as int == p);
                assert((q as usize) as int == q);
            }
        }
    }

    /// A tile's rent consistency depends only on the tile itself, the
    /// ledger and the set index.
    proof fn lemma_rent_ok_frame(a: Monopoly, b: Monopoly, t: int)
        requires
            a.rent_ok(t),
            0 <= t < BOARD_TOTAL_NUMBER_OF_TILES,
            b.tile_at(t) == a.tile_at(t),
            b.ownership_records == a.ownership_records,
            b.property_sets == a.property_sets,
        ensures
            b.rent_ok(t),
    {
    }

    /// Structural well-formedness survives a change of one tile's tier
    /// and cached rent: nothing the structure depends on has moved.
    proof fn lemma_wf_core_tile_tier_changed(a: Monopoly, b: Monopoly, t: int)
        requires
            a.wf_core(),
            0 <= t < BOARD_TOTAL_NUMBER_OF_TILES,
            b.players == a.players,
            b.dice == a.dice,
            b.property_sets == a.property_sets,
            b.ownership_records == a.ownership_records,
            b.trade == a.trade,
            b.board.board@ == a.board.board@.update(t, b.tile_at(t)),
            tile_same_but_tier(a.tile_at(t), b.tile_at(t)),
        ensures
            b.wf_core(),
    {
        assert(b.tile_at(t).owner() == a.tile_at(t).owner());
        assert(b.tile_at(t).set_id() == a.tile_at(t).set_id());
        assert(b.tile_at(t).kind() == a.tile_at(t).kind());
        assert(b.tile_at(t).id() == a.tile_at(t).id());
        assert(b.tile_at(t).name() == a.tile_at(t).name());
        assert(b.tile_at(t).set_name() == a.tile_at(t).set_name());
        assert(b.tile_at(t).schedule() == a.tile_at(t).schedule());
        assert(b.tile_at(t).cost() == a.tile_at(t).cost());
        assert forall|u: int|
            0 <= u < BOARD_TOTAL_NUMBER_OF_TILES implies #[trigger] b.tile_wf(u) by {
            assert(a.tile_wf(u));
        }
        assert forall|s: int| 0 <= s < b.n_sets() implies #[trigger] b.set_entry_wf(s) by {
            assert(a.set_entry_wf(s));
        }
        assert forall|p: int, s: int|
            0 <= p < b.n_players() && 0 <= s < b.n_sets() implies #[trigger] b.ledger_row_wf(
            p,
            s,
        ) by {
            assert(a.ledger_row_wf(p, s));
        }
        assert forall|u: int|
            0 <= u < BOARD_TOTAL_NUMBER_OF_TILES implies match (#[trigger] b.tile_at(
            u,
        )).owner() {
            Some(p) => b.ownership_records.row(p as int, b.tile_at(u).set_id()).contains(
                u as usize,
            ),
            None => true,
        } by {
            assert(match a.tile_at(u).owner() {
                Some(p) => a.ownership_records.row(p as int, a.tile_at(u).set_id()).contains(
                    u as usize,
                ),
                None => true,
            });
        }
        match b.trade {
            None => {},
            Some(sess) => {
                assert(a.offer_tiles_wf(sess.proposer_offer.tiles@, sess.proposer));
                assert(a.offer_tiles_wf(sess.receiver_offer.tiles@, sess.receiver));
                assert forall|j: int|
                    0 <= j < sess.proposer_offer.tiles@.len() implies (
                    #[trigger] sess.proposer_offer.tiles@[j]) < BOARD_TOTAL_NUMBER_OF_TILES
                    && b.tile_at(sess.proposer_offer.tiles@[j] as int).owner() == Some(
                    sess.proposer,
                ) by {
                    assert(sess.proposer_offer.tiles@[j] < BOARD_TOTAL_NUMBER_OF_TILES
                        && a.tile_at(sess.proposer_offer.tiles@[j] as int).owner() == Some(
                        sess.proposer,
                    ));
                }
                assert forall|j: int|
                    0 <= j < sess.receiver_offer.tiles@.len() implies (
                    #[trigger] sess.receiver_offer.tiles@[j]) < BOARD_TOTAL_NUMBER_OF_TILES
                    && b.tile_at(sess.receiver_offer.tiles@[j] as int).owner() == Some(
                    sess.receiver,
                ) by {
                    assert(sess.receiver_offer.tiles@[j] < BOARD_TOTAL_NUMBER_OF_TILES
                        && a.tile_at(sess.receiver_offer.tiles@[j] as int).owner() == Some(
                        sess.receiver,
                    ));
                }
            },
        }
    }

    /// A tile's rent consistency also survives ledger changes that
    /// leave its owner's row for its own set untouched.
    proof fn lemma_rent_ok_frame_rows(a: Monopoly, b: Monopoly, t: int)
        requires
            a.rent_ok(t),
            0 <= t < BOARD_TOTAL_NUMBER_OF_TILES,
            b.tile_at(t) == a.tile_at(t),
            b.property_sets == a.property_sets,
            match a.tile_at(t).owner() {
                Some(p) => b.ownership_records.row(p as int, a.tile_at(t).set_id())
                    == a.ownership_records.row(p as int, a.tile_at(t).set_id()),
                None => true,
            },
        ensures
            b.rent_ok(t),
    {
    }

    /// Rent engine: refreshes the tier and cached rent of every tile
    /// in one set from the current ownership picture.  Idempotent; it
    /// must cover the whole set after any ownership change in it,
    /// because monopoly bonus and count-based scaling are set-wide.
    fn recompute_set(&mut self, s: usize)
        requires
            old(self).wf_core(),
            s < old(self).n_sets(),
        ensures
            final(self).wf_core(),
            final(self).players == old(self).players,
            final(self).dice == old(self).dice,
            final(self).property_sets == old(self).property_sets,
            final(self).ownership_records == old(self).ownership_records,
            final(self).trade == old(self).trade,
            final(self).board.board@.len() == old(self).board.board@.len(),
            forall|t: int|
                0 <= t < BOARD_TOTAL_NUMBER_OF_TILES && old(self).tile_at(t).set_id() != s
                    ==> #[trigger] final(self).tile_at(t) == old(self).tile_at(t),
            forall|t: int|
                0 <= t < BOARD_TOTAL_NUMBER_OF_TILES ==> tile_same_but_tier(
                    old(self).tile_at(t),
                    #[trigger] final(self).tile_at(t),
                ),
            forall|t: int|
                0 <= t < BOARD_TOTAL_NUMBER_OF_TILES && final(self).tile_at(t).set_id() == s
                    ==> #[trigger] final(self).rent_ok(t),
            forall|t: int|
                0 <= t < BOARD_TOTAL_NUMBER_OF_TILES && old(self).tile_at(t).set_id() != s && old(self).rent_ok(t) ==> #[trigger] final(self).rent_ok(t),
    {
        let ghost g0: Monopoly = *old(self);
        let members: usize = self.property_sets[s].tiles.len();
        let mut k: usize = 0;
        while k < members
            invariant
                self.wf_core(),
                s < self.n_sets(),
                members == self.set_at(s as int).tiles@.len(),
                self.players == g0.players,
                self.dice == g0.dice,
                self.property_sets == g0.property_sets,
                self.ownership_records == g0.ownership_records,
                self.trade == g0.trade,
                self.board.board@.len() == g0.board.board@.len(),
                forall|t: int|
                    0 <= t < BOARD_TOTAL_NUMBER_OF_TILES && g0.tile_at(t).set_id() != s
                        ==> #[trigger] self.tile_at(t) == g0.tile_at(t),
                forall|t: int|
                    0 <= t < BOARD_TOTAL_NUMBER_OF_TILES ==> tile_same_but_tier(
                        g0.tile_at(t),
                        #[trigger] self.tile_at(t),
                    ),
                forall|j: int|
                    0 <= j < k ==> #[trigger] self.rent_ok(self.set_at(s as int).tiles@[j] as int),
                forall|t: int|
                    0 <= t < BOARD_TOTAL_NUMBER_OF_TILES && g0.tile_at(t).set_id() != s
                        && g0.rent_ok(t) ==> #[trigger] self.rent_ok(t),
            decreases members - k,
        {
            let t: usize = self.property_sets[s].tiles[k];
            proof {
                assert(self.set_entry_wf(s as int));
                assert(self.tile_wf(t as int));
            }
            let owner_opt: Option<usize> = self.board.get_tile(t).get_owner();
            let count: usize = match owner_opt {
                Some(p) => {
                    proof {
                        self.lemma_owned_count_bounded(p as int, s as int);
                        assert(self.ownership_records.row(p as int, s as int).contains(t));
                        let j = choose|j: int|
                            0 <= j < self.ownership_records.row(p as int, s as int).len()
                                && self.ownership_records.row(p as int, s as int)[j] == t;
                        assert(self.owned_count_spec(p as int, s as int) >= 1);
                    }
                    self.ownership_records.owned_count(p, s)
                },
                None => 0,
            };
            let set_total: usize = self.property_sets[s].tiles.len();
            let ghost before: Monopoly = *self;
            match self.board.get_tile_mut(t) {
                BoardTile::Street(st) => {
                    match owner_opt {
                        Some(_) => {
                            st.property_status = PropertyStatus::Owned;
                            st.update_rent(None);
                            if count == set_total {
                                st.update_rent_full_set();
                            }
                        },
                        None => {
                            st.property_status = PropertyStatus::Unowned;
                            st.update_rent(None);
                        },
                    }
                },
                BoardTile::Railroad(rt) => {
                    rt.update_rent_total_number_of_owned_railroads(count);
                },
                BoardTile::Utility(ut) => {
                    ut.update_rent_total_number_of_owned_utilities(count);
                },
                BoardTile::Event(_) => {},
            }
            proof {
                assert(tile_same_but_tier(before.tile_at(t as int), self.tile_at(t as int)));
                Self::lemma_wf_core_tile_tier_changed(before, *self, t as int);
                assert(self.rent_ok(t as int));
                assert forall|j: int|
                    0 <= j < k + 1 implies #[trigger] self.rent_ok(
                    self.set_at(s as int).tiles@[j] as int,
                ) by {
                    let m = self.set_at(s as int).tiles@[j];
                    if j < k {
                        if m != t {
                            assert(before.rent_ok(m as int));
                            assert(self.tile_at(m as int) == before.tile_at(m as int));
                            Self::lemma_rent_ok_frame(before, *self, m as int);
                        }
                    } else {
                        assert(m == t);
                    }
                }
                assert forall|u: int|
                    0 <= u < BOARD_TOTAL_NUMBER_OF_TILES && g0.tile_at(u).set_id() != s
                        && g0.rent_ok(u) implies #[trigger] self.rent_ok(u) by {
                    assert(before.rent_ok(u));
                    assert(self.tile_at(u) == before.tile_at(u));
                    Self::lemma_rent_ok_frame(before, *self, u);
                }
                assert forall|u: int|
                    0 <= u < BOARD_TOTAL_NUMBER_OF_TILES implies tile_same_but_tier(
                        g0.tile_at(u),
                        #[trigger] self.tile_at(u),
                    ) by {
                    assert(tile_same_but_tier(g0.tile_at(u), before.tile_at(u)));
                }
                assert forall|u: int|
                    0 <= u < BOARD_TOTAL_NUMBER_OF_TILES && g0.tile_at(u).set_id() != s
                        implies #[trigger] self.tile_at(u) == g0.tile_at(u) by {
                    if u == t {
                        assert(tile_same_but_tier(g0.tile_at(u), before.tile_at(u)));
                        assert(before.tile_at(u).set_id() == s);
                        assert(g0.tile_at(u).set_id() == s);
                    } else {
                        assert(self.tile_at(u) == before.tile_at(u));
                    }
                }
            }
            k = k + 1;
        }
        proof {
            assert forall|t: int|
                0 <= t < BOARD_TOTAL_NUMBER_OF_TILES && self.tile_at(t).set_id() == s
                    implies #[trigger] self.rent_ok(t) by {
                assert(self.tile_wf(t));
                assert(self.set_at(s as int).tiles@.contains(t as usize));
                let j = choose|j: int|
                    0 <= j < self.set_at(s as int).tiles@.len() && self.set_at(
                        s as int,
                    ).tiles@[j] == t as usize;
                assert(self.rent_ok(self.set_at(s as int).tiles@[j] as int));
            }
        }
    }

    /// Law: a player who holds as many tiles of a set as the set has
    /// holds every tile of that set.
    pub proof fn lemma_full_set_owns_all(self, p: int, s: int, t: int)
        requires
            self.wf(),
            0 <= p < self.n_players(),
            0 <= s < self.n_sets(),
            0 <= t < BOARD_TOTAL_NUMBER_OF_TILES,
            self.tile_at(t).set_id() == s,
            self.full_set(p, s),
        ensures
            self.tile_at(t).owner() == Some(p as usize),
    {
        broadcast use vstd::seq_lib::seq_to_set_is_finite;

        let row = self.ownership_records.row(p, s);
        let members = self.set_at(s).tiles@;
        assert(self.ledger_row_wf(p, s));
        assert(self.set_entry_wf(s));
        assert(self.tile_wf(t));
        assert(members.contains(t as usize));
        assert forall|x: usize| row.to_set().contains(x) implies members.to_set().contains(x) by {
            assert(row.contains(x));
            let j = choose|j: int| 0 <= j < row.len() && row[j] == x;
            assert(self.tile_wf(x as int));
            assert(members.contains(x));
        }
        row.unique_seq_to_set();
        members.unique_seq_to_set();
        if !row.to_set().contains(t as usize) {
            assert(row.to_set().subset_of(members.to_set().remove(t as usize)));
            vstd::set_lib::lemma_len_subset(row.to_set(), members.to_set().remove(t as usize));
            assert(members.to_set().remove(t as usize).len() == members.to_set().len() - 1);
            assert(false);
        }
        assert(row.contains(t as usize));
        let j = choose|j: int| 0 <= j < row.len() && row[j] == t as usize;
        assert(self.tile_at(row[j] as int).owner() == Some(p as usize));
    }

    /// Law: while a player holds a whole street set, every street in
    /// that set charges exactly double its base (owned-tier) rent.
    pub proof fn lemma_full_street_set_rent_doubled(self, p: int, s: int, t: int)
        requires
            self.wf(),
            0 <= p < self.n_players(),
            0 <= s < self.n_sets(),
            0 <= t < BOARD_TOTAL_NUMBER_OF_TILES,
            self.tile_at(t).set_id() == s,
            self.tile_at(t).kind() is Street,
            self.full_set(p, s),
        ensures
            self.tile_at(t).owner() == Some(p as usize),
            self.tile_at(t).cached_rent() == 2 * self.tile_at(t).schedule()[0],
    {
        self.lemma_full_set_owns_all(p, s, t);
        assert(self.rent_ok(t));
    }

    /// Law: a railroad owned by a player who holds `c` railroads of
    /// its set charges exactly the `c`-th schedule entry, however the
    /// railroads were acquired: the rent depends on the count alone.
    pub proof fn lemma_railroad_rent_by_count(self, t: int, p: usize)
        requires
            self.wf(),
            0 <= t < BOARD_TOTAL_NUMBER_OF_TILES,
            self.tile_at(t).kind() is Railroad,
            self.tile_at(t).owner() == Some(p),
        ensures
            1 <= self.owned_count_spec(p as int, self.tile_at(t).set_id()) <= 4,
            self.tile_at(t).cached_rent() == self.tile_at(t).schedule()[self.owned_count_spec(
                p as int,
                self.tile_at(t).set_id(),
            ) - 1],
    {
        let s = self.tile_at(t).set_id();
        assert(self.tile_wf(t));
        assert(self.set_entry_wf(s));
        assert(self.rent_ok(t));
        assert(self.ownership_records.row(p as int, s).contains(t as usize));
        assert(self.owned_count_spec(p as int, s) >= 1);
        self.lemma_owned_count_bounded(p as int, s);
    }

    /// Law: a utility owned by a player who holds both utilities of
    /// its set charges its second multiplier times the dice sum.
    pub proof fn lemma_utility_rent_both_owned(self, t: int, p: usize, dice_sum: int)
        requires
            self.wf(),
            0 <= t < BOARD_TOTAL_NUMBER_OF_TILES,
            self.tile_at(t).kind() is Utility,
            self.tile_at(t).owner() == Some(p),
            self.full_set(p as int, self.tile_at(t).set_id()),
            self.set_size(self.tile_at(t).set_id()) == 2,
        ensures
            self.rent_amount(t, dice_sum) == self.tile_at(t).schedule()[1] * dice_sum,
    {
        let s = self.tile_at(t).set_id();
        assert(self.tile_wf(t));
        assert(self.rent_ok(t));
        assert(self.owned_count_spec(p as int, s) == 2);
    }

    /// Law: a negotiation that ends in a rejection restores the
    /// pre-trade state.  Starting a trade, offering, proposing and
    /// rejecting each leave board, players and ledger untouched, so
    /// any such command sequence ends with ownership and balances
    /// exactly as they were, and no session open.
    pub proof fn lemma_trade_round_trip_restores(
        g0: Monopoly,
        g1: Monopoly,
        g2: Monopoly,
        g3: Monopoly,
        g4: Monopoly,
    )
        requires
            Self::same_except_trade(g0, g1),
            Self::same_except_trade(g1, g2),
            Self::same_except_trade(g2, g3),
            Self::same_except_trade(g3, g4),
            g4.trade is None,
        ensures
            g4.board == g0.board,
            g4.players == g0.players,
            g4.ownership_records == g0.ownership_records,
            g4.trade is None,
    {
    }

    /// Display getter: a tile's name.
    pub fn get_tile_name(&self, position: usize) -> (r: &String)
        requires
            position < self.board.board@.len(),
        ensures
            r@ == self.tile_at(position as int).name(),
    {
        match self.board.get_tile(position) {
            BoardTile::Street(property) => &property.name,
            BoardTile::Railroad(property) => &property.name,
            BoardTile::Utility(property) => &property.name,
            BoardTile::Event(tile) => &tile.name,
        }
    }

    /// Display getter: the name of a tile's set.
    pub fn get_set_name(&self, position: usize) -> (r: &String)
        requires
            position < self.board.board@.len(),
        ensures
            r@ == self.tile_at(position as int).set_name(),
    {
        match self.board.get_tile(position) {
            BoardTile::Street(property) => &property.set_name,
            BoardTile::Railroad(property) => &property.set_name,
            BoardTile::Utility(property) => &property.set_name,
            BoardTile::Event(tile) => &tile.set_name,
        }
    }

    /// Display getter: a tile's background colour code.
    pub fn get_colour(&self, position: usize) -> (r: &String)
        requires
            position < self.board.board@.len(),
        ensures
            r@ == self.tile_at(position as int).colour_view(),
    {
        match self.board.get_tile(position) {
            BoardTile::Street(property) => &property.colour,
            BoardTile::Railroad(property) => &property.colour,
            BoardTile::Utility(property) => &property.colour,
            BoardTile::Event(tile) => &tile.colour,
        }
    }

    /// Display getter: a tile's owner, if any.
    pub fn get_owner(&self, tile: usize) -> (r: Option<usize>)
        requires
            tile < self.board.board@.len(),
        ensures
            r == self.tile_at(tile as int).owner(),
    {
        match self.board.get_tile(tile) {
            BoardTile::Street(property) => property.owner,
            BoardTile::Railroad(property) => property.owner,
            BoardTile::Utility(property) => property.owner,
            BoardTile::Event(_) => None,
        }
    }

    /// Display getter: the colour code of a tile's owner.
    pub fn get_owner_colour(&self, tile: usize) -> (r: &String)
        requires
            tile < self.board.board@.len(),
        ensures
            r@ == self.tile_at(tile as int).owner_colour_view(),
    {
        match self.board.get_tile(tile) {
            BoardTile::Street(property) => &property.owner_colour,
            BoardTile::Railroad(property) => &property.owner_colour,
            BoardTile::Utility(property) => &property.owner_colour,
            BoardTile::Event(tile) => &tile.colour,
        }
    }

    /// Display getter: a tile's purchase cost.
    pub fn get_property_cost(&self, position: usize) -> (r: i64)
        requires
            position < self.board.board@.len(),
        ensures
            r == self.tile_at(position as int).cost(),
    {
        match self.board.get_tile(position) {
            BoardTile::Street(property) => property.property_cost,
            BoardTile::Railroad(property) => property.property_cost,
            BoardTile::Utility(property) => property.property_cost,
            BoardTile::Event(_) => 0,
        }
    }

    /// The rent a player landing on a tile owes, with the dice that
    /// landed there: utilities charge their multiplier times the dice
    /// sum, events charge nothing.
    pub fn get_rent(&self, tile: usize, dice: &[i8; 2]) -> (r: i64)
        requires
            self.wf(),
            tile < BOARD_TOTAL_NUMBER_OF_TILES,
            1 <= dice[0] <= 6,
            1 <= dice[1] <= 6,
        ensures
            r == self.rent_amount(tile as int, dice[0] + dice[1]),
    {
        match self.board.get_tile(tile) {
            BoardTile::Street(property) => property.rent,
            BoardTile::Railroad(property) => property.rent,
            BoardTile::Utility(property) => {
                proof {
                    assert(self.rent_ok(tile as int));
                    assert(self.tile_wf(tile as int));
                    match property.owner {
                        None => {},
                        Some(p) => {
                            assert(self.ownership_records.row(
                                p as int,
                                property.set_id as int,
                            ).contains(tile));
                            assert(self.owned_count_spec(p as int, property.set_id as int) >= 1);
                            self.lemma_owned_count_bounded(p as int, property.set_id as int);
                            assert(self.set_entry_wf(property.set_id as int));
                        },
                    }
                    assert(0 <= property.rent_multiplier <= AMOUNT_LIMIT);
                    assert(0 <= property.rent_multiplier * ((dice[0] + dice[1]) as int) <= 12
                        * AMOUNT_LIMIT) by (nonlinear_arith)
                        requires
                            0 <= property.rent_multiplier <= AMOUNT_LIMIT,
                            2 <= dice[0] + dice[1] <= 12,
                    ;
                }
                property.rent_multiplier * ((dice[0] + dice[1]) as i64)
            },
            BoardTile::Event(_) => 0,
        }
    }

    /// Read view of one player.
    pub fn get_player(&self, id: usize) -> (r: &Player)
        requires
            id < self.players@.len(),
        ensures
            *r == self.players@[id as int],
    {
        &self.players[id]
    }

    /// Rolls the two dice.  Only the dice generators change.
    pub fn roll_dice(&mut self) -> (r: [i8; 2])
        requires
            old(self).wf(),
        ensures
            final(self).wf(),
            1 <= r[0] <= 6,
            1 <= r[1] <= 6,
            final(self).board == old(self).board,
            final(self).players == old(self).players,
            final(self).property_sets == old(self).property_sets,
            final(self).ownership_records == old(self).ownership_records,
            final(self).trade == old(self).trade,
    {
        let d0: i8 = roll_die(&mut self.dice[0]);
        let d1: i8 = roll_die(&mut self.dice[1]);
        proof {
            Self::lemma_wf_same_board(*old(self), *self);
        }
        [d0, d1]
    }

    /// Whether a roll is doubles.
    pub fn is_doubles(&self, dice: &[i8; 2]) -> (r: bool)
        ensures
            r == (dice[0] == dice[1]),
    {
        dice[0] == dice[1]
    }

    /// Advances a player by the dice sum, wrapping around the board,
    /// and reports the new position.
    pub fn move_player(&mut self, player: usize, dice: &[i8; 2]) -> (r: usize)
        requires
            old(self).wf(),
            player < old(self).n_players(),
            1 <= dice[0] <= 6,
            1 <= dice[1] <= 6,
        ensures
            final(self).wf(),
            r == final(self).players@[player as int].position,
            r == (old(self).players@[player as int].position + dice[0] + dice[1]) % (
            BOARD_TOTAL_NUMBER_OF_TILES as int),
            final(self).players@[player as int].last_position == old(self).players@[player as int].position,
            final(self).players@[player as int].money == old(self).players@[player as int].money,
            final(self).players@[player as int].id == old(self).players@[player as int].id,
            forall|q: int|
                0 <= q < old(self).n_players() && q != player ==> final(self).players@[q] == old(self).players@[q],
            final(self).board == old(self).board,
            final(self).dice == old(self).dice,
            final(self).property_sets == old(self).property_sets,
            final(self).ownership_records == old(self).ownership_records,
            final(self).trade == old(self).trade,
    {
        let steps: i8 = dice[0] + dice[1];
        let p: &mut Player = &mut self.players[player];
        p.walk(steps);
        proof {
            Self::lemma_wf_same_board(*old(self), *self);
        }
        self.players[player].position
    }

    /// Moves rent from a tenant to a landlord.  Balances may go
    /// negative; nothing else changes.
    pub fn pay_rent(&mut self, tenent: usize, landlord: usize, rent: i64)
        requires
            old(self).wf(),
            tenent < old(self).n_players(),
            landlord < old(self).n_players(),
            i64::MIN <= old(self).players@[tenent as int].money - rent <= i64::MAX,
            tenent != landlord ==> i64::MIN <= old(self).players@[landlord as int].money + rent
                <= i64::MAX,
        ensures
            final(self).wf(),
            tenent != landlord ==> final(self).players@[tenent as int].money == old(self).players@[tenent as int].money - rent,
            tenent != landlord ==> final(self).players@[landlord as int].money == old(self).players@[landlord as int].money + rent,
            tenent == landlord ==> final(self).players@[tenent as int].money == old(self).players@[tenent as int].money,
            forall|q: int|
                0 <= q < old(self).n_players() && q != tenent && q != landlord ==> final(self).players@[q] == old(self).players@[q],
            forall|q: int|
                0 <= q < old(self).n_players() ==> (#[trigger] final(self).players@[q]).position
                    == old(self).players@[q].position && final(self).players@[q].id == old(self).players@[q].id,
            final(self).board == old(self).board,
            final(self).dice == old(self).dice,
            final(self).property_sets == old(self).property_sets,
            final(self).ownership_records == old(self).ownership_records,
            final(self).trade == old(self).trade,
    {
        let t: &mut Player = &mut self.players[tenent];
        t.pay(rent);
        let l: &mut Player = &mut self.players[landlord];
        l.collect(rent);
        proof {
            Self::lemma_wf_same_board(*old(self), *self);
        }
    }

    /// Settles a landing: when the tile the player stands on belongs
    /// to another player, the cached rent — scaled by the dice sum for
    /// a utility — moves from the lander to the owner automatically,
    /// and the landlord and amount are reported.  Landing on an
    /// unowned tile, an event tile or one's own tile charges nothing
    /// and changes nothing.
    pub fn land_on_tile(&mut self, player: usize, dice: &[i8; 2]) -> (r: Option<(usize, i64)>)
        requires
            old(self).wf(),
            player < old(self).n_players(),
            1 <= dice[0] <= 6,
            1 <= dice[1] <= 6,
            match old(self).tile_at(old(self).players@[player as int].position as int).owner() {
                Some(q) => q != player ==> {
                    let amount = old(self).rent_amount(
                        old(self).players@[player as int].position as int,
                        dice[0] + dice[1],
                    );
                    &&& i64::MIN <= old(self).players@[player as int].money - amount <= i64::MAX
                    &&& i64::MIN <= old(self).players@[q as int].money + amount <= i64::MAX
                },
                None => true,
            },
        ensures
            final(self).wf(),
            ({
                let t = old(self).players@[player as int].position as int;
                let amount = old(self).rent_amount(t, dice[0] + dice[1]);
                match old(self).tile_at(t).owner() {
                    Some(q) => if q != player {
                        &&& r matches Some(paid) && paid.0 == q && paid.1 == amount
                        &&& final(self).players@[player as int].money == old(self).players@[player as int].money
                            - amount
                        &&& final(self).players@[q as int].money == old(self).players@[q as int].money
                            + amount
                        &&& forall|p: int|
                            0 <= p < old(self).n_players() && p != player && p != q ==> final(self).players@[p] == old(self).players@[p]
                        &&& forall|p: int|
                            0 <= p < old(self).n_players() ==> (#[trigger] final(self).players@[p]).position == old(self).players@[p].position
                        &&& final(self).board == old(self).board
                        &&& final(self).dice == old(self).dice
                        &&& final(self).property_sets == old(self).property_sets
                        &&& final(self).ownership_records == old(self).ownership_records
                        &&& final(self).trade == old(self).trade
                    } else {
                        r is None && *final(self) == *old(self)
                    },
                    None => r is None && *final(self) == *old(self),
                }
            }),
    {
        let position: usize = self.players[player].position;
        proof {
            assert(self.tile_wf(position as int));
        }
        let owner_opt: Option<usize> = self.get_owner(position);
        match owner_opt {
            Some(landlord) => {
                if landlord != player {
                    let rent: i64 = self.get_rent(position, dice);
                    self.pay_rent(player, landlord, rent);
                    Some((landlord, rent))
                } else {
                    None
                }
            },
            None => None,
        }
    }

    /// Whether the given player owns every single tile of the set the
    /// given tile belongs to.
    pub fn is_set_complete(&self, player: usize, tile: usize) -> (r: bool)
        requires
            self.wf(),
            player < self.n_players(),
            tile < BOARD_TOTAL_NUMBER_OF_TILES,
        ensures
            r == self.full_set(player as int, self.tile_at(tile as int).set_id()),
    {
        proof {
            assert(self.tile_wf(tile as int));
        }
        let set_id: usize = self.board.get_tile(tile).get_set_id();
        let player_tiles: usize = self.ownership_records.owned_count(player, set_id);
        let set_total: usize = self.property_sets[set_id].tiles.len();
        player_tiles == set_total
    }

    /// Sells an unowned, ownable tile to the buyer: the buyer pays the
    /// purchase cost (balances may go negative), the ledger records
    /// the tile under its set, and the whole set's rents are
    /// recomputed, which applies the full-set street bonus and the
    /// railroad and utility count scaling.  Buying anything else is
    /// refused with no change at all.
    pub fn buy_tile(&mut self, buyer: usize, tile: usize) -> (r: Option<usize>)
        requires
            old(self).wf(),
            buyer < old(self).n_players(),
            tile < BOARD_TOTAL_NUMBER_OF_TILES,
            i64::MIN <= old(self).players@[buyer as int].money - old(self).tile_at(
                tile as int,
            ).cost(),
        ensures
            final(self).wf(),
            r == (if old(self).tile_at(tile as int).is_ownable() && old(self).tile_at(
                tile as int,
            ).owner() is None {
                Some(tile)
            } else {
                None::<usize>
            }),
            r is None ==> *final(self) == *old(self),
            r is Some ==> {
                let s = old(self).tile_at(tile as int).set_id();
                &&& final(self).tile_at(tile as int).owner() == Some(buyer)
                &&& forall|t: int|
                    0 <= t < BOARD_TOTAL_NUMBER_OF_TILES && t != tile ==> (#[trigger] final(self).tile_at(t)).owner() == old(self).tile_at(t).owner()
                &&& forall|t: int|
                    0 <= t < BOARD_TOTAL_NUMBER_OF_TILES ==> tile_same_but_ownership(
                        old(self).tile_at(t),
                        #[trigger] final(self).tile_at(t),
                    )
                &&& final(self).players@.len() == old(self).players@.len()
                &&& final(self).players@[buyer as int].money == old(self).players@[buyer as int].money
                    - old(self).tile_at(tile as int).cost()
                &&& final(self).players@[buyer as int].position == old(self).players@[buyer as int].position
                &&& forall|q: int|
                    0 <= q < old(self).n_players() && q != buyer ==> final(self).players@[q] == old(self).players@[q]
                &&& final(self).property_sets == old(self).property_sets
                &&& final(self).trade == old(self).trade
                &&& final(self).dice == old(self).dice
                &&& final(self).ownership_records.row(buyer as int, s) == old(self).ownership_records.row(buyer as int, s).push(tile)
                &&& forall|p: int, q: int|
                    0 <= p < old(self).n_players() && 0 <= q < old(self).n_sets() && !(p == buyer
                        && q == s) ==> #[trigger] final(self).ownership_records.row(p, q) == old(self).ownership_records.row(p, q)
            },
    {
        let is_buyable: bool = match self.board.get_tile(tile) {
            BoardTile::Street(property) => property.owner.is_none(),
            BoardTile::Railroad(property) => property.owner.is_none(),
            BoardTile::Utility(property) => property.owner.is_none(),
            BoardTile::Event(_) => false,
        };
        if !is_buyable {
            return None;
        }
        proof {
            assert(self.tile_wf(tile as int));
            assert(self.rent_ok(tile as int));
        }
        let ghost g0: Monopoly = *self;
        let set_id: usize = self.board.get_tile(tile).get_set_id();
        let cost: i64 = self.board.get_tile(tile).get_cost();
        let owner_colour: String = clone_string(&self.players[buyer].colour);
        match self.board.get_tile_mut(tile) {
            BoardTile::Street(st) => st.acquired_by(buyer, &owner_colour),
            BoardTile::Railroad(rt) => rt.acquired_by(buyer, &owner_colour),
            BoardTile::Utility(ut) => ut.acquired_by(buyer, &owner_colour),
            BoardTile::Event(_) => {},
        }
        let p: &mut Player = &mut self.players[buyer];
        p.pay(cost);
        self.ownership_records.record(buyer, set_id, tile);
        proof {
            let g3 = *self;
            assert(g3.tile_at(tile as int).owner() == Some(buyer));
            assert(tile_same_but_ownership(g0.tile_at(tile as int), g3.tile_at(tile as int)));
            assert forall|t: int|
                0 <= t < BOARD_TOTAL_NUMBER_OF_TILES && t != tile implies #[trigger] g3.tile_at(t)
                == g0.tile_at(t) by {}
            // the bought tile was in nobody's ledger row
            assert forall|p0: int, q: int|
                0 <= p0 < g0.n_players() && 0 <= q < g0.n_sets() implies !#[trigger] g0.ownership_records.row(
                p0,
                q,
            ).contains(tile) by {
                if g0.ownership_records.row(p0, q).contains(tile) {
                    assert(g0.ledger_row_wf(p0, q));
                    let j = choose|j: int|
                        0 <= j < g0.ownership_records.row(p0, q).len()
                            && g0.ownership_records.row(p0, q)[j] == tile;
                    assert(g0.tile_at(tile as int).owner() == Some(p0 as usize));
                }
            }
            assert(g3.ownership_records.row(buyer as int, set_id as int)
                == g0.ownership_records.row(buyer as int, set_id as int).push(tile));
            // structural well-formedness of the intermediate state
            assert forall|t: int|
                0 <= t < BOARD_TOTAL_NUMBER_OF_TILES implies #[trigger] g3.tile_wf(t) by {
                assert(g0.tile_wf(t));
            }
            assert forall|s: int| 0 <= s < g3.n_sets() implies #[trigger] g3.set_entry_wf(s) by {
                assert(g0.set_entry_wf(s));
            }
            assert forall|p0: int, q: int|
                0 <= p0 < g3.n_players() && 0 <= q < g3.n_sets()
                    implies #[trigger] g3.ledger_row_wf(p0, q) by {
                assert(g0.ledger_row_wf(p0, q));
                let row0 = g0.ownership_records.row(p0, q);
                let row3 = g3.ownership_records.row(p0, q);
                if p0 == buyer && q == set_id {
                    assert(row3 == row0.push(tile));
                    assert forall|j: int|
                        0 <= j < row3.len() implies (#[trigger] row3[j])
                        < BOARD_TOTAL_NUMBER_OF_TILES && g3.tile_at(row3[j] as int).set_id() == q
                        && g3.tile_at(row3[j] as int).owner() == Some(p0 as usize) by {
                        if j < row0.len() {
                            assert(row3[j] == row0[j]);
                            assert(row0[j] != tile);
                        } else {
                            assert(row3[j] == tile);
                        }
                    }
                    assert forall|x: int, y: int|
                        0 <= x < y < row3.len() implies row3[x] != row3[y] by {
                        if y < row0.len() {
                        } else {
                            assert(row3[y] == tile);
                            assert(row0.contains(row0[x]));
                        }
                    }
                    assert(row3.no_duplicates());
                } else {
                    assert(row3 == row0);
                    assert forall|j: int|
                        0 <= j < row3.len() implies (#[trigger] row3[j])
                        < BOARD_TOTAL_NUMBER_OF_TILES && g3.tile_at(row3[j] as int).set_id() == q
                        && g3.tile_at(row3[j] as int).owner() == Some(p0 as usize) by {
                        assert(row0[j] != tile);
                    }
                }
            }
            assert forall|t: int|
                0 <= t < BOARD_TOTAL_NUMBER_OF_TILES implies match (#[trigger] g3.tile_at(
                t,
            )).owner() {
                Some(p0) => g3.ownership_records.row(p0 as int, g3.tile_at(t).set_id()).contains(
                    t as usize,
                ),
                None => true,
            } by {
                if t == tile {
                    let row3 = g3.ownership_records.row(buyer as int, set_id as int);
                    assert(row3[row3.len() - 1] == tile);
                    assert(row3.contains(tile));
                    assert(g3.tile_at(tile as int).set_id() == set_id as int);
                } else {
                    assert(g3.tile_at(t) == g0.tile_at(t));
                    match g0.tile_at(t).owner() {
                        Some(p0) => {
                            assert(g0.tile_wf(t));
                            let s0 = g0.tile_at(t).set_id();
                            assert(g0.ownership_records.row(p0 as int, s0).contains(t as usize));
                            if p0 as int == buyer as int && s0 == set_id as int {
                                let row0 = g0.ownership_records.row(buyer as int, set_id as int);
                                let j = choose|j: int|
                                    0 <= j < row0.len() && row0[j] == t as usize;
                                assert(g3.ownership_records.row(buyer as int, set_id as int)[j]
                                    == t as usize);
                                assert(g3.ownership_records.row(p0 as int, s0).contains(
                                    t as usize,
                                ));
                            } else {
                                assert(g3.ownership_records.row(p0 as int, s0)
                                    == g0.ownership_records.row(p0 as int, s0));
                            }
                        },
                        None => {},
                    }
                }
            }
            match g3.trade {
                None => {},
                Some(sess) => {
                    assert(g0.offer_tiles_wf(sess.proposer_offer.tiles@, sess.proposer));
                    assert(g0.offer_tiles_wf(sess.receiver_offer.tiles@, sess.receiver));
                    assert forall|j: int|
                        0 <= j < sess.proposer_offer.tiles@.len() implies (
                        #[trigger] sess.proposer_offer.tiles@[j]) < BOARD_TOTAL_NUMBER_OF_TILES
                        && g3.tile_at(sess.proposer_offer.tiles@[j] as int).owner() == Some(
                        sess.proposer,
                    ) by {
                        assert(g0.tile_at(sess.proposer_offer.tiles@[j] as int).owner() == Some(
                            sess.proposer,
                        ));
                        assert(sess.proposer_offer.tiles@[j] != tile);
                    }
                    assert forall|j: int|
                        0 <= j < sess.receiver_offer.tiles@.len() implies (
                        #[trigger] sess.receiver_offer.tiles@[j]) < BOARD_TOTAL_NUMBER_OF_TILES
                        && g3.tile_at(sess.receiver_offer.tiles@[j] as int).owner() == Some(
                        sess.receiver,
                    ) by {
                        assert(g0.tile_at(sess.receiver_offer.tiles@[j] as int).owner() == Some(
                            sess.receiver,
                        ));
                        assert(sess.receiver_offer.tiles@[j] != tile);
                    }
                },
            }
            assert(g3.wf_core());
            // rents outside the affected set are still consistent
            assert forall|u: int|
                0 <= u < BOARD_TOTAL_NUMBER_OF_TILES && g3.tile_at(u).set_id() != set_id
                    implies #[trigger] g3.rent_ok(u) by {
                assert(g0.rent_ok(u));
                assert(g3.tile_at(u) == g0.tile_at(u));
                match g0.tile_at(u).owner() {
                    Some(p0) => {
                        assert(g0.tile_wf(u));
                        assert(g3.ownership_records.row(p0 as int, g0.tile_at(u).set_id())
                            == g0.ownership_records.row(p0 as int, g0.tile_at(u).set_id()));
                    },
                    None => {},
                }
                Self::lemma_rent_ok_frame_rows(g0, g3, u);
            }
        }
        let ghost g3: Monopoly = *self;
        self.recompute_set(set_id);
        proof {
            assert forall|t: int|
                0 <= t < BOARD_TOTAL_NUMBER_OF_TILES implies #[trigger] self.rent_ok(t) by {
                if self.tile_at(t).set_id() == set_id {
                } else {
                    assert(g3.tile_at(t).set_id() != set_id);
                    assert(g3.rent_ok(t));
                }
            }
            assert forall|t: int|
                0 <= t < BOARD_TOTAL_NUMBER_OF_TILES implies tile_same_but_ownership(
                    g0.tile_at(t),
                    #[trigger] self.tile_at(t),
                ) by {
                assert(tile_same_but_ownership(g0.tile_at(t), g3.tile_at(t)));
                assert(tile_same_but_tier(g3.tile_at(t), self.tile_at(t)));
            }
            assert forall|t: int|
                0 <= t < BOARD_TOTAL_NUMBER_OF_TILES && t != tile implies (#[trigger] self.tile_at(
                t,
            )).owner() == g0.tile_at(t).owner() by {
                assert(tile_same_but_tier(g3.tile_at(t), self.tile_at(t)));
                assert(g3.tile_at(t).owner() == g0.tile_at(t).owner());
            }
            assert(tile_same_but_tier(g3.tile_at(tile as int), self.tile_at(tile as int)));
            assert(self.tile_at(tile as int).owner() == Some(buyer));
        }
        Some(tile)
    }

    /// Moves one tile from its current owner to another player.  The
    /// tile's owner field, the old owner's ledger row and the new
    /// owner's ledger row change together: funnelling every transfer
    /// through here keeps the one-owner-per-tile discipline intact.
    fn transfer_tile(&mut self, from: usize, to: usize, tile: usize)
        requires
            old(self).wf_core(),
            old(self).trade is None,
            from < old(self).n_players(),
            to < old(self).n_players(),
            tile < BOARD_TOTAL_NUMBER_OF_TILES,
            old(self).tile_at(tile as int).owner() == Some(from),
            status_bounded(old(self).tile_at(tile as int)),
        ensures
            final(self).wf_core(),
            final(self).trade is None,
            final(self).players == old(self).players,
            final(self).dice == old(self).dice,
            final(self).property_sets == old(self).property_sets,
            final(self).board.board@.len() == old(self).board.board@.len(),
            final(self).tile_at(tile as int).owner() == Some(to),
            forall|t: int|
                0 <= t < BOARD_TOTAL_NUMBER_OF_TILES && t != tile ==> #[trigger] final(self).tile_at(t) == old(self).tile_at(t),
            forall|t: int|
                0 <= t < BOARD_TOTAL_NUMBER_OF_TILES ==> tile_same_but_ownership(
                    old(self).tile_at(t),
                    #[trigger] final(self).tile_at(t),
                ),
            forall|t: int|
                0 <= t < BOARD_TOTAL_NUMBER_OF_TILES && status_bounded(old(self).tile_at(t))
                    ==> status_bounded(#[trigger] final(self).tile_at(t)),
    {
        proof {
            assert(self.tile_wf(tile as int));
        }
        let s: usize = self.board.get_tile(tile).get_set_id();
        let colour: String = clone_string(&self.players[to].colour);
        let ghost g0: Monopoly = *self;
        match self.board.get_tile_mut(tile) {
            BoardTile::Street(st) => st.acquired_by(to, &colour),
            BoardTile::Railroad(rt) => rt.acquired_by(to, &colour),
            BoardTile::Utility(ut) => ut.acquired_by(to, &colour),
            BoardTile::Event(_) => {
                proof {
                    assert(false);
                }
            },
        }
        proof {
            // the tile sits in exactly one ledger row: its owner's row
            // for its own set
            assert forall|p0: int, q: int|
                0 <= p0 < g0.n_players() && 0 <= q < g0.n_sets() && !(p0 == from && q
                    == s) implies !#[trigger] g0.ownership_records.row(p0, q).contains(tile) by {
                if g0.ownership_records.row(p0, q).contains(tile) {
                    assert(g0.ledger_row_wf(p0, q));
                    let j = choose|j: int|
                        0 <= j < g0.ownership_records.row(p0, q).len()
                            && g0.ownership_records.row(p0, q)[j] == tile;
                    assert(g0.tile_at(tile as int).owner() == Some(p0 as usize));
                    assert(g0.tile_at(tile as int).set_id() == q);
                }
            }
            assert(g0.ledger_row_wf(from as int, s as int));
            assert(g0.ownership_records.row(from as int, s as int).contains(tile));
            assert(g0.ownership_records.row(from as int, s as int).no_duplicates());
        }
        self.ownership_records.remove(from, s, tile);
        let ghost gmid: Monopoly = *self;
        self.ownership_records.record(to, s, tile);
        proof {
            let g3 = *self;
            assert(g3.tile_at(tile as int).owner() == Some(to));
            assert forall|t: int|
                0 <= t < BOARD_TOTAL_NUMBER_OF_TILES && t != tile implies #[trigger] g3.tile_at(t)
                == g0.tile_at(t) by {}
            // row shapes: the sending row lost exactly the tile, the
            // receiving row gained it at the end, the rest is as before
            assert(!gmid.ownership_records.row(to as int, s as int).contains(tile));
            assert(g3.ownership_records.row(to as int, s as int) == gmid.ownership_records.row(
                to as int,
                s as int,
            ).push(tile));
            assert forall|t: int|
                0 <= t < BOARD_TOTAL_NUMBER_OF_TILES implies #[trigger] g3.tile_wf(t) by {
                assert(g0.tile_wf(t));
            }
            assert forall|q: int| 0 <= q < g3.n_sets() implies #[trigger] g3.set_entry_wf(q) by {
                assert(g0.set_entry_wf(q));
            }
            assert forall|p0: int, q: int|
                0 <= p0 < g3.n_players() && 0 <= q < g3.n_sets()
                    implies #[trigger] g3.ledger_row_wf(p0, q) by {
                assert(g0.ledger_row_wf(p0, q));
                let row0 = g0.ownership_records.row(p0, q);
                let rowm = gmid.ownership_records.row(p0, q);
                let row3 = g3.ownership_records.row(p0, q);
                // characterize the middle row
                if p0 == from && q == s {
                    assert(rowm.no_duplicates());
                    assert(!rowm.contains(tile));
                    assert(forall|x: usize|
                        x != tile ==> #[trigger] rowm.contains(x) == row0.contains(x));
                } else {
                    assert(rowm == row0);
                }
                assert forall|j: int|
                    0 <= j < rowm.len() implies (#[trigger] rowm[j]) < BOARD_TOTAL_NUMBER_OF_TILES
                    && g3.tile_at(rowm[j] as int).set_id() == q && g3.tile_at(
                    rowm[j] as int,
                ).owner() == Some(p0 as usize) by {
                    assert(rowm.contains(rowm[j]));
                    if p0 == from && q == s {
                        assert(rowm[j] != tile);
                        assert(row0.contains(rowm[j]));
                        let j0 = choose|j0: int| 0 <= j0 < row0.len() && row0[j0] == rowm[j];
                        assert(row0[j0] == rowm[j]);
                    } else {
                        assert(rowm[j] == row0[j]);
                        assert(row0[j] != tile);
                    }
                }
                assert(rowm.no_duplicates());
                if p0 == to && q == s {
                    assert(row3 == rowm.push(tile));
                    assert forall|j: int|
                        0 <= j < row3.len() implies (#[trigger] row3[j])
                        < BOARD_TOTAL_NUMBER_OF_TILES && g3.tile_at(row3[j] as int).set_id() == q
                        && g3.tile_at(row3[j] as int).owner() == Some(p0 as usize) by {
                        if j == row3.len() - 1 {
                            assert(row3[j] == tile);
                        } else {
                            assert(row3[j] == rowm[j]);
                        }
                    }
                    assert(row3.no_duplicates()) by {
                        assert forall|x: int, y: int|
                            0 <= x < y < row3.len() implies row3[x] != row3[y] by {
                            if y == row3.len() - 1 {
                                assert(row3[y] == tile);
                                assert(row3[x] == rowm[x]);
                                assert(rowm.contains(rowm[x]));
                            } else {
                                assert(row3[x] == rowm[x] && row3[y] == rowm[y]);
                            }
                        }
                    }
                } else {
                    assert(row3 == rowm);
                }
            }
            // every owned tile is still listed in its owner's row
            assert forall|t: int|
                0 <= t < BOARD_TOTAL_NUMBER_OF_TILES implies match (#[trigger] g3.tile_at(
                t,
            )).owner() {
                Some(p0) => g3.ownership_records.row(p0 as int, g3.tile_at(t).set_id()).contains(
                    t as usize,
                ),
                None => true,
            } by {
                if t == tile {
                    let row3 = g3.ownership_records.row(to as int, s as int);
                    assert(row3[row3.len() - 1] == tile);
                    assert(row3.contains(tile));
                    assert(g3.tile_at(tile as int).set_id() == s as int);
                } else {
                    assert(g3.tile_at(t) == g0.tile_at(t));
                    match g0.tile_at(t).owner() {
                        Some(p0) => {
                            assert(g0.tile_wf(t));
                            let s0 = g0.tile_at(t).set_id();
                            let row0 = g0.ownership_records.row(p0 as int, s0);
                            let rowm = gmid.ownership_records.row(p0 as int, s0);
                            let row3 = g3.ownership_records.row(p0 as int, s0);
                            assert(row0.contains(t as usize));
                            if p0 as int == from as int && s0 == s as int {
                                assert(rowm.contains(t as usize));
                            } else {
                                assert(rowm == row0);
                            }
                            assert(rowm.contains(t as usize));
                            if p0 as int == to as int && s0 == s as int {
                                let j = choose|j: int|
                                    0 <= j < rowm.len() && rowm[j] == t as usize;
                                assert(row3[j] == t as usize);
                                assert(row3.contains(t as usize));
                            } else {
                                assert(row3 == rowm);
                            }
                        },
                        None => {},
                    }
                }
            }
            assert(g3.wf_core());
        }
    }

    /// Whether a trade session is currently open.
    pub fn trade_open(&self) -> (r: bool)
        ensures
            r == (self.trade is Some),
    {
        self.trade.is_some()
    }

    /// Opens a trade session between two distinct, existing players.
    /// Starting a second session while one is open is refused, not
    /// queued.  A rejected start changes nothing.
    pub fn trade_start(&mut self, proposer: usize, receiver: usize) -> (r: Result<(), TradeError>)
        requires
            old(self).wf(),
        ensures
            final(self).wf(),
            Self::same_except_trade(*old(self), *final(self)),
            r == (if old(self).trade is Some {
                Err::<(), TradeError>(TradeError::SessionAlreadyOpen)
            } else if proposer >= old(self).n_players() || receiver >= old(self).n_players() {
                Err::<(), TradeError>(TradeError::InvalidPlayer)
            } else if proposer == receiver {
                Err::<(), TradeError>(TradeError::SelfTrade)
            } else {
                Ok::<(), TradeError>(())
            }),
            r is Err ==> final(self).trade == old(self).trade,
            r is Ok ==> match final(self).trade {
                Some(sess) => {
                    &&& sess.proposer == proposer
                    &&& sess.receiver == receiver
                    &&& sess.proposer_offer.tiles@ == Seq::<usize>::empty()
                    &&& sess.proposer_offer.money == 0
                    &&& sess.receiver_offer.tiles@ == Seq::<usize>::empty()
                    &&& sess.receiver_offer.money == 0
                    &&& !sess.proposed
                },
                None => false,
            },
    {
        if self.trade.is_some() {
            return Err(TradeError::SessionAlreadyOpen);
        }
        if proposer >= self.players.len() || receiver >= self.players.len() {
            return Err(TradeError::InvalidPlayer);
        }
        if proposer == receiver {
            return Err(TradeError::SelfTrade);
        }
        self.trade = Some(TradeSession::new(proposer, receiver));
        proof {
            Self::lemma_wf_same_board_any_trade(*old(self), *self);
        }
        Ok(())
    }

    /// The player standing on a given side of the open session; only
    /// meaningful while a session is open.
    pub open spec fn side_player_spec(self, side: TradeSide) -> usize {
        match self.trade {
            Some(sess) => sess.side_player(side),
            None => 0,
        }
    }

    /// Adds a tile to one side's offer, exactly when that side's
    /// player currently owns it.  Offering the same tile twice leaves
    /// the offer as it was.  A rejected offer changes nothing.
    pub fn trade_offer_tile(&mut self, side: TradeSide, tile: usize) -> (r: Result<(), TradeError>)
        requires
            old(self).wf(),
        ensures
            final(self).wf(),
            Self::same_except_trade(*old(self), *final(self)),
            r == (if old(self).trade is None {
                Err::<(), TradeError>(TradeError::NoSession)
            } else if tile >= BOARD_TOTAL_NUMBER_OF_TILES {
                Err::<(), TradeError>(TradeError::InvalidTile)
            } else if old(self).tile_at(tile as int).owner() != Some(
                old(self).side_player_spec(side),
            ) {
                Err::<(), TradeError>(TradeError::NotOwned)
            } else {
                Ok::<(), TradeError>(())
            }),
            r is Err ==> final(self).trade == old(self).trade,
            r is Ok ==> match (old(self).trade, final(self).trade) {
                (Some(s0), Some(s1)) => {
                    &&& s1.proposer == s0.proposer
                    &&& s1.receiver == s0.receiver
                    &&& s1.proposed == s0.proposed
                    &&& s1.side_offer(side).tiles@ == (if s0.side_offer(side).tiles@.contains(
                        tile,
                    ) {
                        s0.side_offer(side).tiles@
                    } else {
                        s0.side_offer(side).tiles@.push(tile)
                    })
                    &&& s1.side_offer(side).money == s0.side_offer(side).money
                    &&& (side is Proposer ==> s1.receiver_offer == s0.receiver_offer)
                    &&& (side is Receiver ==> s1.proposer_offer == s0.proposer_offer)
                },
                _ => false,
            },
    {
        if self.trade.is_none() {
            return Err(TradeError::NoSession);
        }
        if tile >= BOARD_TOTAL_NUMBER_OF_TILES {
            return Err(TradeError::InvalidTile);
        }
        let who: usize = match &self.trade {
            Some(sess) => match side {
                TradeSide::Proposer => sess.proposer,
                TradeSide::Receiver => sess.receiver,
            },
            None => 0,
        };
        let owns: bool = match self.board.get_tile(tile).get_owner() {
            Some(p) => p == who,
            None => false,
        };
        if !owns {
            return Err(TradeError::NotOwned);
        }
        match &mut self.trade {
            Some(sess) => {
                match side {
                    TradeSide::Proposer => sess.proposer_offer.add_tile(tile),
                    TradeSide::Receiver => sess.receiver_offer.add_tile(tile),
                }
            },
            None => {},
        }
        proof {
            let g0 = *old(self);
            let cur = *self;
            match (g0.trade, cur.trade) {
                (Some(s0), Some(s1)) => {
                    assert(g0.offer_tiles_wf(s0.proposer_offer.tiles@, s0.proposer));
                    assert(g0.offer_tiles_wf(s0.receiver_offer.tiles@, s0.receiver));
                    let t0 = s0.side_offer(side).tiles@;
                    let t1 = s1.side_offer(side).tiles@;
                    assert forall|j: int|
                        0 <= j < t1.len() implies (#[trigger] t1[j]) < BOARD_TOTAL_NUMBER_OF_TILES
                        && self.tile_at(t1[j] as int).owner() == Some(who) by {
                        if j < t0.len() {
                            assert(t1[j] == t0[j]);
                        } else {
                            assert(t1[j] == tile);
                        }
                    }
                    assert(t1.no_duplicates());
                },
                _ => {},
            }
            Self::lemma_wf_same_board_any_trade(g0, *self);
        }
        Ok(())
    }

    /// Replaces one side's money offer, exactly when the amount is not
    /// negative and not above that side's balance.  The amount is
    /// absolute: it replaces, never accumulates.  A rejected offer
    /// changes nothing.
    pub fn trade_offer_money(&mut self, side: TradeSide, amount: i64) -> (r: Result<
        (),
        TradeError,
    >)
        requires
            old(self).wf(),
        ensures
            final(self).wf(),
            Self::same_except_trade(*old(self), *final(self)),
            r == (if old(self).trade is None {
                Err::<(), TradeError>(TradeError::NoSession)
            } else if amount < 0 {
                Err::<(), TradeError>(TradeError::NegativeAmount)
            } else if amount > old(self).players@[old(self).side_player_spec(side) as int].money {
                Err::<(), TradeError>(TradeError::InsufficientFunds)
            } else {
                Ok::<(), TradeError>(())
            }),
            r is Err ==> final(self).trade == old(self).trade,
            r is Ok ==> match (old(self).trade, final(self).trade) {
                (Some(s0), Some(s1)) => {
                    &&& s1.proposer == s0.proposer
                    &&& s1.receiver == s0.receiver
                    &&& s1.proposed == s0.proposed
                    &&& s1.side_offer(side).tiles@ == s0.side_offer(side).tiles@
                    &&& s1.side_offer(side).money == amount
                    &&& (side is Proposer ==> s1.receiver_offer == s0.receiver_offer)
                    &&& (side is Receiver ==> s1.proposer_offer == s0.proposer_offer)
                },
                _ => false,
            },
    {
        if self.trade.is_none() {
            return Err(TradeError::NoSession);
        }
        if amount < 0 {
            return Err(TradeError::NegativeAmount);
        }
        let who: usize = match &self.trade {
            Some(sess) => match side {
                TradeSide::Proposer => sess.proposer,
                TradeSide::Receiver => sess.receiver,
            },
            None => 0,
        };
        proof {
            assert(who < self.n_players());
        }
        if amount > self.players[who].get_money() {
            return Err(TradeError::InsufficientFunds);
        }
        match &mut self.trade {
            Some(sess) => {
                match side {
                    TradeSide::Proposer => sess.proposer_offer.money = amount,
                    TradeSide::Receiver => sess.receiver_offer.money = amount,
                }
            },
            None => {},
        }
        proof {
            let g0 = *old(self);
            let cur = *self;
            match (g0.trade, cur.trade) {
                (Some(s0), Some(s1)) => {
                    assert(g0.offer_tiles_wf(s0.proposer_offer.tiles@, s0.proposer));
                    assert(g0.offer_tiles_wf(s0.receiver_offer.tiles@, s0.receiver));
                    assert(self.offer_tiles_wf(s1.proposer_offer.tiles@, s1.proposer));
                    assert(self.offer_tiles_wf(s1.receiver_offer.tiles@, s1.receiver));
                },
                _ => {},
            }
            Self::lemma_wf_same_board_any_trade(g0, *self);
        }
        Ok(())
    }

    /// Withdraws an item from one side's offer: a previously offered
    /// tile by id, or the money offer via the reserved money item id.
    /// Reports whether anything was actually removed.
    pub fn trade_withdraw(&mut self, side: TradeSide, item: usize) -> (r: Result<bool, TradeError>)
        requires
            old(self).wf(),
        ensures
            final(self).wf(),
            Self::same_except_trade(*old(self), *final(self)),
            old(self).trade is None <==> r == Err::<bool, TradeError>(TradeError::NoSession),
            old(self).trade is None ==> final(self).trade == old(self).trade,
            match (old(self).trade, final(self).trade) {
                (Some(s0), Some(s1)) => {
                    &&& s1.proposer == s0.proposer
                    &&& s1.receiver == s0.receiver
                    &&& s1.proposed == s0.proposed
                    &&& (side is Proposer ==> s1.receiver_offer == s0.receiver_offer)
                    &&& (side is Receiver ==> s1.proposer_offer == s0.proposer_offer)
                    &&& (item == MONEY_ITEM_ID ==> {
                        &&& s1.side_offer(side).tiles@ == s0.side_offer(side).tiles@
                        &&& s1.side_offer(side).money == 0
                        &&& r == Ok::<bool, TradeError>(s0.side_offer(side).money != 0)
                    })
                    &&& (item != MONEY_ITEM_ID ==> {
                        &&& s1.side_offer(side).money == s0.side_offer(side).money
                        &&& r == Ok::<bool, TradeError>(s0.side_offer(side).tiles@.contains(item))
                        &&& !s1.side_offer(side).tiles@.contains(item)
                        &&& forall|x: usize|
                            x != item ==> #[trigger] s1.side_offer(side).tiles@.contains(x) == s0.side_offer(
                                side,
                            ).tiles@.contains(x)
                    })
                },
                (None, None) => true,
                _ => false,
            },
    {
        if self.trade.is_none() {
            return Err(TradeError::NoSession);
        }
        let mut removed: bool = false;
        match &mut self.trade {
            Some(sess) => {
                let offer: &mut crate::trade::TradeOffer = match side {
                    TradeSide::Proposer => &mut sess.proposer_offer,
                    TradeSide::Receiver => &mut sess.receiver_offer,
                };
                if item == MONEY_ITEM_ID {
                    removed = offer.money != 0;
                    offer.money = 0;
                } else {
                    proof {
                        let g0 = *old(self);
                        match g0.trade {
                            Some(s0) => {
                                assert(g0.offer_tiles_wf(s0.proposer_offer.tiles@, s0.proposer));
                                assert(g0.offer_tiles_wf(s0.receiver_offer.tiles@, s0.receiver));
                            },
                            None => {},
                        }
                    }
                    removed = offer.remove_tile(item);
                }
            },
            None => {},
        }
        proof {
            let g0 = *old(self);
            let cur = *self;
            match (g0.trade, cur.trade) {
                (Some(s0), Some(s1)) => {
                    assert(g0.offer_tiles_wf(s0.proposer_offer.tiles@, s0.proposer));
                    assert(g0.offer_tiles_wf(s0.receiver_offer.tiles@, s0.receiver));
                    let t0 = s0.side_offer(side).tiles@;
                    let t1 = s1.side_offer(side).tiles@;
                    if item != MONEY_ITEM_ID && t0.contains(item) {
                        let i = choose|i: int| 0 <= i < t0.len() && t0[i] == item && t1 == t0.remove(i);
                        assert forall|j: int|
                            0 <= j < t1.len() implies (#[trigger] t1[j])
                            < BOARD_TOTAL_NUMBER_OF_TILES && self.tile_at(t1[j] as int).owner()
                            == Some(s1.side_player(side)) by {
                            if j < i {
                                assert(t1[j] == t0[j]);
                            } else {
                                assert(t1[j] == t0[j + 1]);
                            }
                        }
                    }
                },
                _ => {},
            }
            Self::lemma_wf_same_board_any_trade(g0, *self);
        }
        Ok(removed)
    }

    /// Marks the open session's offer as formally presented to the
    /// other side.  The session itself does not change otherwise.
    pub fn trade_propose(&mut self) -> (r: Result<(), TradeError>)
        requires
            old(self).wf(),
        ensures
            final(self).wf(),
            Self::same_except_trade(*old(self), *final(self)),
            r == (if old(self).trade is None {
                Err::<(), TradeError>(TradeError::NoSession)
            } else {
                Ok::<(), TradeError>(())
            }),
            old(self).trade is None ==> final(self).trade == old(self).trade,
            match (old(self).trade, final(self).trade) {
                (Some(s0), Some(s1)) => {
                    &&& s1.proposer == s0.proposer
                    &&& s1.receiver == s0.receiver
                    &&& s1.proposer_offer == s0.proposer_offer
                    &&& s1.receiver_offer == s0.receiver_offer
                    &&& s1.proposed
                },
                (None, None) => true,
                _ => false,
            },
    {
        match &mut self.trade {
            Some(sess) => {
                sess.proposed = true;
            },
            None => {
                return Err(TradeError::NoSession);
            },
        }
        proof {
            let g0 = *old(self);
            let cur = *self;
            match (g0.trade, cur.trade) {
                (Some(s0), Some(s1)) => {
                    assert(g0.offer_tiles_wf(s0.proposer_offer.tiles@, s0.proposer));
                    assert(g0.offer_tiles_wf(s0.receiver_offer.tiles@, s0.receiver));
                },
                _ => {},
            }
            Self::lemma_wf_same_board_any_trade(g0, *self);
        }
        Ok(())
    }

    /// Accepts the open session, atomically: both money amounts move
    /// in both directions, every offered tile on both sides changes
    /// owner, the ledger follows for both players, and every set's
    /// rents are recomputed.  Afterwards the session is closed, so a
    /// further accept without a new start is refused.  With no open
    /// session nothing at all changes.
    ///
    /// Offers only ever hold tiles their side owns, so an event tile
    /// can never be part of the delta.
    pub fn trade_accept(&mut self) -> (r: Result<(), TradeError>)
        requires
            old(self).wf(),
            match old(self).trade {
                Some(sess) => {
                    &&& i64::MIN <= old(self).players@[sess.proposer as int].money
                        - sess.proposer_offer.money
                    &&& old(self).players@[sess.proposer as int].money - sess.proposer_offer.money
                        + sess.receiver_offer.money <= i64::MAX
                    &&& i64::MIN <= old(self).players@[sess.receiver as int].money
                        - sess.receiver_offer.money
                    &&& old(self).players@[sess.receiver as int].money - sess.receiver_offer.money
                        + sess.proposer_offer.money <= i64::MAX
                },
                None => true,
            },
        ensures
            final(self).wf(),
            old(self).trade is None <==> r == Err::<(), TradeError>(TradeError::NoSession),
            r is Err ==> *final(self) == *old(self),
            match old(self).trade {
                Some(sess) => r is Ok && {
                    &&& final(self).trade is None
                    &&& final(self).players@.len() == old(self).players@.len()
                    &&& final(self).players@[sess.proposer as int].money == old(self).players@[sess.proposer as int].money - sess.proposer_offer.money
                        + sess.receiver_offer.money
                    &&& final(self).players@[sess.receiver as int].money == old(self).players@[sess.receiver as int].money - sess.receiver_offer.money
                        + sess.proposer_offer.money
                    &&& forall|q: int|
                        0 <= q < old(self).n_players() && q != sess.proposer && q != sess.receiver
                            ==> final(self).players@[q] == old(self).players@[q]
                    &&& forall|q: int|
                        0 <= q < old(self).n_players() ==> (#[trigger] final(self).players@[q]).position == old(self).players@[q].position && final(self).players@[q].id == old(self).players@[q].id
                    &&& forall|t: int|
                        0 <= t < BOARD_TOTAL_NUMBER_OF_TILES ==> (#[trigger] final(self).tile_at(
                            t,
                        )).owner() == (if sess.proposer_offer.tiles@.contains(t as usize) {
                            Some(sess.receiver)
                        } else if sess.receiver_offer.tiles@.contains(t as usize) {
                            Some(sess.proposer)
                        } else {
                            old(self).tile_at(t).owner()
                        })
                    &&& forall|t: int|
                        0 <= t < BOARD_TOTAL_NUMBER_OF_TILES ==> tile_same_but_ownership(
                            old(self).tile_at(t),
                            #[trigger] final(self).tile_at(t),
                        )
                    &&& final(self).property_sets == old(self).property_sets
                    &&& final(self).dice == old(self).dice
                },
                None => true,
            },
    {
        let sess: TradeSession = match self.trade.take() {
            Some(s) => s,
            None => {
                return Err(TradeError::NoSession);
            },
        };
        let ghost g0: Monopoly = *old(self);
        let ghost gstart: Monopoly = *self;
        proof {
            // every tile's tier is one a transfer can hand on
            assert forall|t: int|
                0 <= t < BOARD_TOTAL_NUMBER_OF_TILES implies status_bounded(
                    #[trigger] self.tile_at(t),
                ) by {
                assert(g0.rent_ok(t));
                assert(g0.tile_wf(t));
                match g0.tile_at(t) {
                    BoardTile::Railroad(rt) => {
                        match rt.owner {
                            Some(p) => {
                                g0.lemma_owned_count_bounded(p as int, rt.set_id as int);
                                assert(g0.set_entry_wf(rt.set_id as int));
                            },
                            None => {},
                        }
                    },
                    BoardTile::Utility(ut) => {
                        match ut.owner {
                            Some(p) => {
                                g0.lemma_owned_count_bounded(p as int, ut.set_id as int);
                                assert(g0.set_entry_wf(ut.set_id as int));
                            },
                            None => {},
                        }
                    },
                    _ => {},
                }
            }
            // a tile can only sit in one side's offer
            assert forall|x: usize|
                sess.proposer_offer.tiles@.contains(x) implies !sess.receiver_offer.tiles@.contains(
                    x,
                ) by {
                if sess.receiver_offer.tiles@.contains(x) {
                    let i = choose|i: int|
                        0 <= i < sess.proposer_offer.tiles@.len() && sess.proposer_offer.tiles@[i]
                            == x;
                    let j = choose|j: int|
                        0 <= j < sess.receiver_offer.tiles@.len() && sess.receiver_offer.tiles@[j]
                            == x;
                    assert(g0.tile_at(x as int).owner() == Some(sess.proposer));
                    assert(g0.tile_at(x as int).owner() == Some(sess.receiver));
                }
            }
            // the structural invariant holds with the session closed
            Self::lemma_wf_same_board_any_trade(g0, *self);
        }
        // hand the proposer's offered tiles to the receiver
        let n_give: usize = sess.proposer_offer.tiles.len();
        let mut k: usize = 0;
        while k < n_give
            invariant
                self.wf_core(),
                self.trade is None,
                n_give == sess.proposer_offer.tiles@.len(),
                0 <= k <= n_give,
                sess.proposer < self.n_players(),
                sess.receiver < self.n_players(),
                sess.proposer != sess.receiver,
                g0.offer_tiles_wf(sess.proposer_offer.tiles@, sess.proposer),
                g0.offer_tiles_wf(sess.receiver_offer.tiles@, sess.receiver),
                self.players == gstart.players,
                self.dice == gstart.dice,
                self.property_sets == gstart.property_sets,
                self.board.board@.len() == gstart.board.board@.len(),
                self.n_players() == g0.n_players(),
                self.n_sets() == g0.n_sets(),
                forall|t: int|
                    0 <= t < BOARD_TOTAL_NUMBER_OF_TILES ==> (#[trigger] self.tile_at(t)).owner()
                        == (if sess.proposer_offer.tiles@.take(k as int).contains(t as usize) {
                        Some(sess.receiver)
                    } else {
                        g0.tile_at(t).owner()
                    }),
                forall|t: int|
                    0 <= t < BOARD_TOTAL_NUMBER_OF_TILES ==> tile_same_but_ownership(
                        g0.tile_at(t),
                        #[trigger] self.tile_at(t),
                    ),
                forall|t: int|
                    0 <= t < BOARD_TOTAL_NUMBER_OF_TILES ==> status_bounded(
                        #[trigger] self.tile_at(t),
                    ),
            decreases n_give - k,
        {
            let t: usize = sess.proposer_offer.tiles[k];
            proof {
                assert(sess.proposer_offer.tiles@[k as int] == t);
                assert(t < BOARD_TOTAL_NUMBER_OF_TILES);
                assert(g0.tile_at(t as int).owner() == Some(sess.proposer));
                assert(!sess.proposer_offer.tiles@.take(k as int).contains(t)) by {
                    if sess.proposer_offer.tiles@.take(k as int).contains(t) {
                        let j = choose|j: int|
                            0 <= j < k && sess.proposer_offer.tiles@.take(k as int)[j] == t;
                        assert(sess.proposer_offer.tiles@[j] == t);
                    }
                }
                assert(self.tile_at(t as int).owner() == Some(sess.proposer));
            }
            let ghost before: Monopoly = *self;
            self.transfer_tile(sess.proposer, sess.receiver, t);
            proof {
                assert(sess.proposer_offer.tiles@.take(k + 1) =~= sess.proposer_offer.tiles@.take(
                    k as int,
                ).push(t));
                assert forall|u: int|
                    0 <= u < BOARD_TOTAL_NUMBER_OF_TILES implies (#[trigger] self.tile_at(
                    u,
                )).owner() == (if sess.proposer_offer.tiles@.take(k + 1).contains(u as usize) {
                    Some(sess.receiver)
                } else {
                    g0.tile_at(u).owner()
                }) by {
                    if u == t {
                        assert(sess.proposer_offer.tiles@.take(k + 1).last() == t);
                        assert(sess.proposer_offer.tiles@.take(k + 1).contains(t));
                    } else {
                        assert(self.tile_at(u) == before.tile_at(u));
                        assert(sess.proposer_offer.tiles@.take(k + 1).contains(u as usize)
                            == sess.proposer_offer.tiles@.take(k as int).contains(u as usize)) by {
                            let pre = sess.proposer_offer.tiles@.take(k as int);
                            let post = sess.proposer_offer.tiles@.take(k + 1);
                            if post.contains(u as usize) {
                                let j = choose|j: int| 0 <= j < k + 1 && post[j] == u as usize;
                                assert(j < k);
                                assert(pre[j] == u as usize);
                            }
                            if pre.contains(u as usize) {
                                let j = choose|j: int| 0 <= j < k && pre[j] == u as usize;
                                assert(post[j] == u as usize);
                            }
                        }
                    }
                }
                assert forall|u: int|
                    0 <= u < BOARD_TOTAL_NUMBER_OF_TILES implies tile_same_but_ownership(
                        g0.tile_at(u),
                        #[trigger] self.tile_at(u),
                    ) by {
                    assert(tile_same_but_ownership(g0.tile_at(u), before.tile_at(u)));
                    assert(tile_same_but_ownership(before.tile_at(u), self.tile_at(u)));
                }
            }
            k = k + 1;
        }
        proof {
            assert(sess.proposer_offer.tiles@.take(n_give as int) =~= sess.proposer_offer.tiles@);
        }
        // hand the receiver's offered tiles to the proposer
        let n_take: usize = sess.receiver_offer.tiles.len();
        let mut k2: usize = 0;
        while k2 < n_take
            invariant
                self.wf_core(),
                self.trade is None,
                n_take == sess.receiver_offer.tiles@.len(),
                0 <= k2 <= n_take,
                sess.proposer < self.n_players(),
                sess.receiver < self.n_players(),
                sess.proposer != sess.receiver,
                g0.offer_tiles_wf(sess.proposer_offer.tiles@, sess.proposer),
                g0.offer_tiles_wf(sess.receiver_offer.tiles@, sess.receiver),
                forall|x: usize|
                    sess.proposer_offer.tiles@.contains(x)
                        ==> !#[trigger] sess.receiver_offer.tiles@.contains(x),
                self.players == gstart.players,
                self.dice == gstart.dice,
                self.property_sets == gstart.property_sets,
                self.board.board@.len() == gstart.board.board@.len(),
                self.n_players() == g0.n_players(),
                self.n_sets() == g0.n_sets(),
                forall|t: int|
                    0 <= t < BOARD_TOTAL_NUMBER_OF_TILES ==> (#[trigger] self.tile_at(t)).owner()
                        == (if sess.receiver_offer.tiles@.take(k2 as int).contains(t as usize) {
                        Some(sess.proposer)
                    } else if sess.proposer_offer.tiles@.contains(t as usize) {
                        Some(sess.receiver)
                    } else {
                        g0.tile_at(t).owner()
                    }),
                forall|t: int|
                    0 <= t < BOARD_TOTAL_NUMBER_OF_TILES ==> tile_same_but_ownership(
                        g0.tile_at(t),
                        #[trigger] self.tile_at(t),
                    ),
                forall|t: int|
                    0 <= t < BOARD_TOTAL_NUMBER_OF_TILES ==> status_bounded(
                        #[trigger] self.tile_at(t),
                    ),
            decreases n_take - k2,
        {
            let t: usize = sess.receiver_offer.tiles[k2];
            proof {
                assert(sess.receiver_offer.tiles@[k2 as int] == t);
                assert(sess.receiver_offer.tiles@.contains(t));
                assert(t < BOARD_TOTAL_NUMBER_OF_TILES);
                assert(g0.tile_at(t as int).owner() == Some(sess.receiver));
                assert(!sess.proposer_offer.tiles@.contains(t));
                assert(!sess.receiver_offer.tiles@.take(k2 as int).contains(t)) by {
                    if sess.receiver_offer.tiles@.take(k2 as int).contains(t) {
                        let j = choose|j: int|
                            0 <= j < k2 && sess.receiver_offer.tiles@.take(k2 as int)[j] == t;
                        assert(sess.receiver_offer.tiles@[j] == t);
                    }
                }
                assert(self.tile_at(t as int).owner() == Some(sess.receiver));
            }
            let ghost before: Monopoly = *self;
            self.transfer_tile(sess.receiver, sess.proposer, t);
            proof {
                assert(sess.receiver_offer.tiles@.take(k2 + 1) =~= sess.receiver_offer.tiles@.take(
                    k2 as int,
                ).push(t));
                assert forall|u: int|
                    0 <= u < BOARD_TOTAL_NUMBER_OF_TILES implies (#[trigger] self.tile_at(
                    u,
                )).owner() == (if sess.receiver_offer.tiles@.take(k2 + 1).contains(u as usize) {
                    Some(sess.proposer)
                } else if sess.proposer_offer.tiles@.contains(u as usize) {
                    Some(sess.receiver)
                } else {
                    g0.tile_at(u).owner()
                }) by {
                    if u == t {
                        assert(sess.receiver_offer.tiles@.take(k2 + 1).last() == t);
                        assert(sess.receiver_offer.tiles@.take(k2 + 1).contains(t));
                    } else {
                        assert(self.tile_at(u) == before.tile_at(u));
                        assert(sess.receiver_offer.tiles@.take(k2 + 1).contains(u as usize)
                            == sess.receiver_offer.tiles@.take(k2 as int).contains(u as usize)) by {
                            let pre = sess.receiver_offer.tiles@.take(k2 as int);
                            let post = sess.receiver_offer.tiles@.take(k2 + 1);
                            if post.contains(u as usize) {
                                let j = choose|j: int| 0 <= j < k2 + 1 && post[j] == u as usize;
                                assert(j < k2);
                                assert(pre[j] == u as usize);
                            }
                            if pre.contains(u as usize) {
                                let j = choose|j: int| 0 <= j < k2 && pre[j] == u as usize;
                                assert(post[j] == u as usize);
                            }
                        }
                    }
                }
                assert forall|u: int|
                    0 <= u < BOARD_TOTAL_NUMBER_OF_TILES implies tile_same_but_ownership(
                        g0.tile_at(u),
                        #[trigger] self.tile_at(u),
                    ) by {
                    assert(tile_same_but_ownership(g0.tile_at(u), before.tile_at(u)));
                    assert(tile_same_but_ownership(before.tile_at(u), self.tile_at(u)));
                }
            }
            k2 = k2 + 1;
        }
        proof {
            assert(sess.receiver_offer.tiles@.take(n_take as int) =~= sess.receiver_offer.tiles@);
        }
        // move the money both ways
        let ghost gtiles: Monopoly = *self;
        let pm: &mut Player = &mut self.players[sess.proposer];
        pm.pay(sess.proposer_offer.money);
        let pm2: &mut Player = &mut self.players[sess.proposer];
        pm2.collect(sess.receiver_offer.money);
        let rm: &mut Player = &mut self.players[sess.receiver];
        rm.pay(sess.receiver_offer.money);
        let rm2: &mut Player = &mut self.players[sess.receiver];
        rm2.collect(sess.proposer_offer.money);
        proof {
            Self::lemma_wf_same_board_any_trade(gtiles, *self);
        }
        // refresh every set's rents for the new ownership picture
        let ghost gmoney: Monopoly = *self;
        let n_sets_total: usize = self.property_sets.len();
        let mut s: usize = 0;
        while s < n_sets_total
            invariant
                self.wf_core(),
                self.trade is None,
                n_sets_total == self.n_sets(),
                0 <= s <= n_sets_total,
                self.players == gmoney.players,
                self.dice == gmoney.dice,
                self.property_sets == gmoney.property_sets,
                self.ownership_records == gmoney.ownership_records,
                self.board.board@.len() == gmoney.board.board@.len(),
                forall|t: int|
                    0 <= t < BOARD_TOTAL_NUMBER_OF_TILES ==> (#[trigger] self.tile_at(t)).owner()
                        == gmoney.tile_at(t).owner(),
                forall|t: int|
                    0 <= t < BOARD_TOTAL_NUMBER_OF_TILES ==> tile_same_but_ownership(
                        gmoney.tile_at(t),
                        #[trigger] self.tile_at(t),
                    ),
                forall|t: int|
                    0 <= t < BOARD_TOTAL_NUMBER_OF_TILES && self.tile_at(t).set_id() < s
                        ==> #[trigger] self.rent_ok(t),
            decreases n_sets_total - s,
        {
            let ghost before: Monopoly = *self;
            self.recompute_set(s);
            proof {
                assert forall|t: int|
                    0 <= t < BOARD_TOTAL_NUMBER_OF_TILES && self.tile_at(t).set_id() < s
                        + 1 implies #[trigger] self.rent_ok(t) by {
                    assert(tile_same_but_tier(before.tile_at(t), self.tile_at(t)));
                    if self.tile_at(t).set_id() == s {
                    } else {
                        assert(before.tile_at(t).set_id() == self.tile_at(t).set_id());
                        assert(before.rent_ok(t));
                    }
                }
                assert forall|t: int|
                    0 <= t < BOARD_TOTAL_NUMBER_OF_TILES implies tile_same_but_ownership(
                        gmoney.tile_at(t),
                        #[trigger] self.tile_at(t),
                    ) by {
                    assert(tile_same_but_ownership(gmoney.tile_at(t), before.tile_at(t)));
                    assert(tile_same_but_tier(before.tile_at(t), self.tile_at(t)));
                }
                assert forall|t: int|
                    0 <= t < BOARD_TOTAL_NUMBER_OF_TILES implies (#[trigger] self.tile_at(
                    t,
                )).owner() == gmoney.tile_at(t).owner() by {
                    assert(tile_same_but_tier(before.tile_at(t), self.tile_at(t)));
                }
            }
            s = s + 1;
        }
        proof {
            assert forall|t: int|
                0 <= t < BOARD_TOTAL_NUMBER_OF_TILES implies #[trigger] self.rent_ok(t) by {
                assert(self.tile_wf(t));
                assert(self.tile_at(t).set_id() < n_sets_total);
            }
            assert forall|t: int|
                0 <= t < BOARD_TOTAL_NUMBER_OF_TILES implies tile_same_but_ownership(
                    g0.tile_at(t),
                    #[trigger] self.tile_at(t),
                ) by {
                assert(tile_same_but_ownership(g0.tile_at(t), gtiles.tile_at(t)));
                assert(tile_same_but_ownership(gtiles.tile_at(t), self.tile_at(t)));
            }
            let gf = *self;
            assert(gf.players@.len() == g0.players@.len());
            assert(gf.players@[sess.proposer as int].money == g0.players@[sess.proposer as int].money
                - sess.proposer_offer.money + sess.receiver_offer.money);
            assert(gf.players@[sess.receiver as int].money == g0.players@[sess.receiver as int].money
                - sess.receiver_offer.money + sess.proposer_offer.money);
            assert forall|t: int|
                0 <= t < BOARD_TOTAL_NUMBER_OF_TILES implies (#[trigger] gf.tile_at(t)).owner()
                == (if sess.proposer_offer.tiles@.contains(t as usize) {
                Some(sess.receiver)
            } else if sess.receiver_offer.tiles@.contains(t as usize) {
                Some(sess.proposer)
            } else {
                g0.tile_at(t).owner()
            }) by {
                assert(gf.tile_at(t).owner() == gmoney.tile_at(t).owner());
                assert(gmoney.tile_at(t) == gtiles.tile_at(t));
                if sess.proposer_offer.tiles@.contains(t as usize) {
                    assert(!sess.receiver_offer.tiles@.contains(t as usize));
                }
            }
        }
        Ok(())
    }

    /// Rejects the open session: every offer is discarded, no tile or
    /// money moves, and the session closes.
    pub fn trade_reject(&mut self) -> (r: Result<(), TradeError>)
        requires
            old(self).wf(),
        ensures
            final(self).wf(),
            Self::same_except_trade(*old(self), *final(self)),
            r == (if old(self).trade is None {
                Err::<(), TradeError>(TradeError::NoSession)
            } else {
                Ok::<(), TradeError>(())
            }),
            r is Ok ==> final(self).trade is None,
            r is Err ==> final(self).trade == old(self).trade,
    {
        if self.trade.is_none() {
            return Err(TradeError::NoSession);
        }
        self.trade = None;
        proof {
            Self::lemma_wf_same_board_any_trade(*old(self), *self);
        }
        Ok(())
    }

    /// Aborts the open session; like a rejection, every offer is
    /// discarded with no balance or ownership change.
    pub fn trade_abort(&mut self) -> (r: Result<(), TradeError>)
        requires
            old(self).wf(),
        ensures
            final(self).wf(),
            Self::same_except_trade(*old(self), *final(self)),
            r == (if old(self).trade is None {
                Err::<(), TradeError>(TradeError::NoSession)
            } else {
                Ok::<(), TradeError>(())
            }),
            r is Ok ==> final(self).trade is None,
            r is Err ==> final(self).trade == old(self).trade,
    {
        if self.trade.is_none() {
            return Err(TradeError::NoSession);
        }
        self.trade = None;
        proof {
            Self::lemma_wf_same_board_any_trade(*old(self), *self);
        }
        Ok(())
    }
}

} // verus!
