use monopoly::error::TradeError;
use monopoly::ledger::OwnershipLedger;
use monopoly::game::Monopoly;
use monopoly::game::validate_tile_records;
use monopoly::error::LoadError;
use monopoly::tiles::TileKind;
use monopoly::tiles::TileRecord;
use monopoly::trade::TradeSide;
use monopoly::trade::MONEY_ITEM_ID;

fn record(name: &str, kind: TileKind, set: &str, cost: i64, schedule: Vec<i64>) -> TileRecord {
    TileRecord {
        name: name.to_string(),
        kind,
        set_name: set.to_string(),
        property_cost: cost,
        mortgage_value: cost / 2,
        rent_schedule: schedule,
        house_cost: 50,
        hotel_cost: 250,
    }
}

fn street(name: &str, set: &str, cost: i64, base: i64) -> TileRecord {
    record(
        name,
        TileKind::Street,
        set,
        cost,
        vec![base, base * 5, base * 15, base * 45, base * 62, base * 75],
    )
}

fn railroad(name: &str) -> TileRecord {
    record(name, TileKind::Railroad, "Railroad", 200, vec![25, 50, 100, 200])
}

fn utility(name: &str) -> TileRecord {
    record(name, TileKind::Utility, "Utility", 150, vec![4, 10])
}

fn event(name: &str) -> TileRecord {
    record(name, TileKind::Event, "Event", 0, vec![])
}

/// The classic 40-cell layout: streets in eight colour groups, four
/// railroads, two utilities, the rest events.
fn standard_records() -> Vec<TileRecord> {
    vec![
        event("GO"),
        street("Mediterranean Avenue", "Brown", 60, 2),
        event("Community Chest"),
        street("Baltic Avenue", "Brown", 60, 4),
        event("Income Tax"),
        railroad("Reading Railroad"),
        street("Oriental Avenue", "Cyan", 100, 6),
        event("Chance"),
        street("Vermont Avenue", "Cyan", 100, 6),
        street("Connecticut Avenue", "Cyan", 120, 8),
        event("Jail"),
        street("St. Charles Place", "Magenta", 140, 10),
        utility("Electric Company"),
        street("States Avenue", "Magenta", 140, 10),
        street("Virginia Avenue", "Magenta", 160, 12),
        railroad("Pennsylvania Railroad"),
        street("St. James Place", "Orange", 180, 14),
        event("Community Chest 2"),
        street("Tennessee Avenue", "Orange", 180, 14),
        street("New York Avenue", "Orange", 200, 16),
        event("Free Parking"),
        street("Kentucky Avenue", "Red", 220, 18),
        event("Chance 2"),
        street("Indiana Avenue", "Red", 220, 18),
        street("Illinois Avenue", "Red", 240, 20),
        railroad("B. & O. Railroad"),
        street("Atlantic Avenue", "Yellow", 260, 22),
        street("Ventnor Avenue", "Yellow", 260, 22),
        utility("Water Works"),
        street("Marvin Gardens", "Yellow", 280, 24),
        event("Go To Jail"),
        street("Pacific Avenue", "Green", 300, 26),
        street("North Carolina Avenue", "Green", 300, 26),
        event("Community Chest 3"),
        street("Pennsylvania Avenue", "Green", 320, 28),
        railroad("Short Line"),
        event("Chance 3"),
        street("Park Place", "Blue", 350, 35),
        event("Luxury Tax"),
        street("Boardwalk", "Blue", 400, 50),
    ]
}

fn new_game(players: usize) -> Monopoly {
    Monopoly::new(standard_records(), players).expect("standard board must load")
}

#[test]
fn builds_standard_board() {
    let game = new_game(4);
    assert_eq!(game.get_tile_name(1), "Mediterranean Avenue");
    assert_eq!(game.get_set_name(1), "Brown");
    assert_eq!(game.get_tile_name(39), "Boardwalk");
    assert_eq!(game.get_property_cost(39), 400);
    assert_eq!(game.get_property_cost(0), 0);
    assert_eq!(game.get_owner(1), None);
    assert_eq!(game.get_player(0).get_money(), 9000);
    assert_eq!(game.get_player(3).position, 0);
}

#[test]
fn rejects_wrong_tile_count() {
    let mut records = standard_records();
    records.pop();
    assert_eq!(Monopoly::new(records, 2).err(), Some(LoadError::WrongTileCount));
}

#[test]
fn rejects_malformed_schedule() {
    let mut records = standard_records();
    records[1] = record("Odd Street", TileKind::Street, "Brown", 60, vec![2, 10, 30]);
    assert_eq!(Monopoly::new(records, 2).err(), Some(LoadError::BadSchedule));
}

#[test]
fn rejects_out_of_range_amounts() {
    let mut records = standard_records();
    records[1].property_cost = -5;
    assert_eq!(Monopoly::new(records, 2).err(), Some(LoadError::BadAmount));
    let mut records = standard_records();
    records[1].house_cost = -1;
    assert_eq!(Monopoly::new(records, 2).err(), Some(LoadError::BadAmount));
}

#[test]
fn rejects_unknown_set_name() {
    let mut records = standard_records();
    records[1] = street("Nowhere Street", "Chartreuse", 60, 2);
    assert_eq!(Monopoly::new(records, 2).err(), Some(LoadError::UnknownSetName));
}

#[test]
fn rejects_mixed_kind_set() {
    let mut records = standard_records();
    records[5] = record("Odd Rail", TileKind::Railroad, "Brown", 200, vec![25, 50, 100, 200]);
    assert_eq!(Monopoly::new(records, 2).err(), Some(LoadError::MixedSet));
}

#[test]
fn rejects_oversized_railroad_set() {
    let mut records = standard_records();
    records[12] = railroad("Fifth Railroad");
    assert_eq!(Monopoly::new(records, 2).err(), Some(LoadError::OversizedSet));
}

#[test]
fn validate_accepts_standard_records() {
    let records = standard_records();
    assert!(validate_tile_records(&records).is_ok());
}

#[test]
fn load_error_messages() {
    assert_eq!(LoadError::WrongTileCount.message(), "the board needs exactly 40 tiles");
    assert_eq!(LoadError::BadSchedule.message(), "a rent schedule is malformed");
    assert_eq!(LoadError::BadAmount.message(), "a cost is out of range");
    assert_eq!(LoadError::MixedSet.message(), "a set mixes tile kinds");
    assert_eq!(LoadError::OversizedSet.message(), "a set has too many tiles");
    assert_eq!(LoadError::UnknownSetName.message(), "a set name has no colour");
}

#[test]
fn buying_a_street_sets_owner_rent_and_cost() {
    let mut game = new_game(2);
    assert_eq!(game.buy_tile(0, 1), Some(1));
    assert_eq!(game.get_owner(1), Some(0));
    assert_eq!(game.get_player(0).get_money(), 9000 - 60);
    // one street of the set: plain base rent
    assert_eq!(game.get_rent(1, &[2, 3]), 2);
}

#[test]
fn buying_an_owned_tile_fails_without_change() {
    let mut game = new_game(2);
    assert_eq!(game.buy_tile(0, 1), Some(1));
    assert_eq!(game.buy_tile(1, 1), None);
    assert_eq!(game.get_owner(1), Some(0));
    assert_eq!(game.get_player(1).get_money(), 9000);
}

#[test]
fn buying_an_event_tile_fails() {
    let mut game = new_game(2);
    assert_eq!(game.buy_tile(0, 0), None);
    assert_eq!(game.buy_tile(0, 20), None);
    assert_eq!(game.get_player(0).get_money(), 9000);
}

#[test]
fn completing_a_street_set_doubles_every_rent() {
    let mut game = new_game(2);
    assert_eq!(game.buy_tile(0, 1), Some(1));
    assert_eq!(game.get_rent(1, &[1, 2]), 2);
    assert_eq!(game.buy_tile(0, 3), Some(3));
    assert!(game.is_set_complete(0, 1));
    // both browns now charge double their base rent
    assert_eq!(game.get_rent(1, &[1, 2]), 4);
    assert_eq!(game.get_rent(3, &[1, 2]), 8);
}

#[test]
fn railroad_rent_follows_count_in_any_order() {
    let rails = [5usize, 15, 25, 35];
    let schedule = [25i64, 50, 100, 200];
    let mut forwards = new_game(2);
    let mut backwards = new_game(2);
    for (i, t) in rails.iter().enumerate() {
        assert_eq!(forwards.buy_tile(0, *t), Some(*t));
        let owned = i + 1;
        for t2 in rails.iter().take(owned) {
            assert_eq!(forwards.get_rent(*t2, &[1, 1]), schedule[owned - 1]);
        }
    }
    for t in rails.iter().rev() {
        assert_eq!(backwards.buy_tile(0, *t), Some(*t));
    }
    for t in rails.iter() {
        assert_eq!(forwards.get_rent(*t, &[1, 1]), 200);
        assert_eq!(backwards.get_rent(*t, &[1, 1]), 200);
    }
}

#[test]
fn utility_rent_multiplies_dice_sum() {
    let mut game = new_game(2);
    assert_eq!(game.buy_tile(0, 12), Some(12));
    // one utility owned: first multiplier
    assert_eq!(game.get_rent(12, &[3, 4]), 4 * 7);
    assert_eq!(game.buy_tile(0, 28), Some(28));
    // both utilities owned, dice [3, 4]: second multiplier times 7
    assert_eq!(game.get_rent(12, &[3, 4]), 10 * 7);
    assert_eq!(game.get_rent(28, &[1, 6]), 10 * 7);
    // events never charge
    assert_eq!(game.get_rent(0, &[3, 4]), 0);
}

#[test]
fn dice_rolls_stay_in_range() {
    let mut game = new_game(2);
    for _ in 0..100 {
        let dice = game.roll_dice();
        assert!((1..=6).contains(&dice[0]));
        assert!((1..=6).contains(&dice[1]));
    }
    assert!(game.is_doubles(&[4, 4]));
    assert!(!game.is_doubles(&[4, 5]));
}

#[test]
fn moving_wraps_around_the_board() {
    let mut game = new_game(2);
    let mut position = 0usize;
    for _ in 0..5 {
        position = game.move_player(0, &[6, 6]);
    }
    assert_eq!(position, 60 % 40);
    assert_eq!(game.get_player(0).position, 20);
    assert_eq!(game.get_player(0).last_position, 48 % 40);
}

#[test]
fn paying_rent_moves_money_between_players() {
    let mut game = new_game(2);
    game.pay_rent(1, 0, 75);
    assert_eq!(game.get_player(1).get_money(), 9000 - 75);
    assert_eq!(game.get_player(0).get_money(), 9000 + 75);
}

#[test]
fn landing_on_an_owned_tile_charges_rent_automatically() {
    let mut game = new_game(2);
    // player 0 owns both utilities; player 1 lands on one with [3, 4]
    assert_eq!(game.buy_tile(0, 12), Some(12));
    assert_eq!(game.buy_tile(0, 28), Some(28));
    let owner_money = game.get_player(0).get_money();
    assert_eq!(game.move_player(1, &[6, 6]), 12);
    let paid = game.land_on_tile(1, &[3, 4]);
    assert_eq!(paid, Some((0, 10 * 7)));
    assert_eq!(game.get_player(1).get_money(), 9000 - 70);
    assert_eq!(game.get_player(0).get_money(), owner_money + 70);
}

#[test]
fn landing_on_unowned_or_own_tiles_charges_nothing() {
    let mut game = new_game(2);
    assert_eq!(game.buy_tile(0, 1), Some(1));
    // player 0 stands on the start tile: an event, never charges
    assert_eq!(game.land_on_tile(0, &[1, 2]), None);
    // walk a full lap plus one tile to stand on the owned street
    for _ in 0..3 {
        game.move_player(0, &[6, 6]);
    }
    assert_eq!(game.move_player(0, &[2, 3]), 1);
    // one's own tile charges nothing either
    assert_eq!(game.land_on_tile(0, &[1, 2]), None);
    assert_eq!(game.get_player(0).get_money(), 9000 - 60);
}

#[test]
fn trade_without_session_is_rejected_without_change() {
    let mut game = new_game(2);
    assert_eq!(game.buy_tile(0, 5), Some(5));
    let before_money = game.get_player(0).get_money();
    let result = game.trade_offer_tile(TradeSide::Proposer, 5);
    assert_eq!(result, Err(TradeError::NoSession));
    assert_eq!(TradeError::NoSession.message(), "start a trade first");
    assert_eq!(game.get_owner(5), Some(0));
    assert_eq!(game.get_player(0).get_money(), before_money);
    assert!(!game.trade_open());
}

#[test]
fn trade_start_checks_players_and_uniqueness() {
    let mut game = new_game(2);
    assert_eq!(game.trade_start(0, 0), Err(TradeError::SelfTrade));
    assert_eq!(game.trade_start(0, 7), Err(TradeError::InvalidPlayer));
    assert_eq!(game.trade_start(0, 1), Ok(()));
    assert!(game.trade_open());
    assert_eq!(game.trade_start(0, 1), Err(TradeError::SessionAlreadyOpen));
}

#[test]
fn trade_offers_check_ownership_and_balance() {
    let mut game = new_game(2);
    assert_eq!(game.buy_tile(0, 1), Some(1));
    assert_eq!(game.trade_start(0, 1), Ok(()));
    // the receiver does not own tile 1
    assert_eq!(game.trade_offer_tile(TradeSide::Receiver, 1), Err(TradeError::NotOwned));
    // nobody owns tile 6
    assert_eq!(game.trade_offer_tile(TradeSide::Proposer, 6), Err(TradeError::NotOwned));
    assert_eq!(game.trade_offer_tile(TradeSide::Proposer, 77), Err(TradeError::InvalidTile));
    assert_eq!(game.trade_offer_tile(TradeSide::Proposer, 1), Ok(()));
    assert_eq!(game.trade_offer_money(TradeSide::Receiver, -5), Err(TradeError::NegativeAmount));
    assert_eq!(
        game.trade_offer_money(TradeSide::Receiver, 10_000),
        Err(TradeError::InsufficientFunds)
    );
    assert_eq!(game.trade_offer_money(TradeSide::Receiver, 500), Ok(()));
    // a money offer replaces the previous one, it does not accumulate
    assert_eq!(game.trade_offer_money(TradeSide::Receiver, 200), Ok(()));
    let session = game.trade.as_ref().expect("session is open");
    assert_eq!(session.receiver_offer.money, 200);
    assert_eq!(session.proposer_offer.tiles, vec![1]);
}

#[test]
fn trade_withdraw_removes_tiles_and_clears_money() {
    let mut game = new_game(2);
    assert_eq!(game.buy_tile(0, 1), Some(1));
    assert_eq!(game.trade_start(0, 1), Ok(()));
    assert_eq!(game.trade_offer_tile(TradeSide::Proposer, 1), Ok(()));
    assert_eq!(game.trade_offer_money(TradeSide::Proposer, 40), Ok(()));
    assert_eq!(game.trade_withdraw(TradeSide::Proposer, 1), Ok(true));
    assert_eq!(game.trade_withdraw(TradeSide::Proposer, 1), Ok(false));
    assert_eq!(game.trade_withdraw(TradeSide::Proposer, MONEY_ITEM_ID), Ok(true));
    assert_eq!(game.trade_withdraw(TradeSide::Proposer, MONEY_ITEM_ID), Ok(false));
    let session = game.trade.as_ref().expect("session is open");
    assert_eq!(session.proposer_offer.money, 0);
    assert!(session.proposer_offer.tiles.is_empty());
}

#[test]
fn rejected_trade_restores_ownership_and_closes() {
    let mut game = new_game(2);
    assert_eq!(game.buy_tile(0, 6), Some(6));
    let money_before = [game.get_player(0).get_money(), game.get_player(1).get_money()];
    assert_eq!(game.trade_start(0, 1), Ok(()));
    assert_eq!(game.trade_offer_tile(TradeSide::Proposer, 6), Ok(()));
    assert_eq!(game.trade_propose(), Ok(()));
    assert_eq!(game.trade_reject(), Ok(()));
    // the round trip leaves ownership and balances exactly as before
    assert_eq!(game.get_owner(6), Some(0));
    assert_eq!(game.get_player(0).get_money(), money_before[0]);
    assert_eq!(game.get_player(1).get_money(), money_before[1]);
    assert!(!game.trade_open());
    assert_eq!(game.trade_reject(), Err(TradeError::NoSession));
}

#[test]
fn aborted_trade_changes_nothing() {
    let mut game = new_game(2);
    assert_eq!(game.buy_tile(1, 8), Some(8));
    assert_eq!(game.trade_start(0, 1), Ok(()));
    assert_eq!(game.trade_offer_tile(TradeSide::Receiver, 8), Ok(()));
    assert_eq!(game.trade_abort(), Ok(()));
    assert_eq!(game.get_owner(8), Some(1));
    assert!(!game.trade_open());
}

#[test]
fn accepted_trade_applies_the_whole_delta_once() {
    let mut game = new_game(2);
    assert_eq!(game.buy_tile(0, 1), Some(1));
    assert_eq!(game.buy_tile(1, 3), Some(3));
    let money_before = [game.get_player(0).get_money(), game.get_player(1).get_money()];
    assert_eq!(game.trade_start(0, 1), Ok(()));
    assert_eq!(game.trade_offer_tile(TradeSide::Proposer, 1), Ok(()));
    assert_eq!(game.trade_offer_tile(TradeSide::Receiver, 3), Ok(()));
    assert_eq!(game.trade_offer_money(TradeSide::Proposer, 100), Ok(()));
    assert_eq!(game.trade_offer_money(TradeSide::Receiver, 30), Ok(()));
    assert_eq!(game.trade_propose(), Ok(()));
    assert_eq!(game.trade_accept(), Ok(()));
    // tiles crossed over, money crossed over, session closed
    assert_eq!(game.get_owner(1), Some(1));
    assert_eq!(game.get_owner(3), Some(0));
    assert_eq!(game.get_player(0).get_money(), money_before[0] - 100 + 30);
    assert_eq!(game.get_player(1).get_money(), money_before[1] - 30 + 100);
    assert!(!game.trade_open());
    // a further accept without a new start fails
    assert_eq!(game.trade_accept(), Err(TradeError::NoSession));
}

#[test]
fn trading_the_last_street_of_a_set_rescales_rents() {
    let mut game = new_game(2);
    assert_eq!(game.buy_tile(0, 1), Some(1));
    assert_eq!(game.buy_tile(1, 3), Some(3));
    // split ownership: plain base rents
    assert_eq!(game.get_rent(1, &[1, 1]), 2);
    assert_eq!(game.get_rent(3, &[1, 1]), 4);
    assert_eq!(game.trade_start(1, 0), Ok(()));
    assert_eq!(game.trade_offer_tile(TradeSide::Proposer, 3), Ok(()));
    assert_eq!(game.trade_accept(), Ok(()));
    // player 0 now holds the whole brown set: doubled rents everywhere
    assert_eq!(game.get_owner(3), Some(0));
    assert_eq!(game.get_rent(1, &[1, 1]), 4);
    assert_eq!(game.get_rent(3, &[1, 1]), 8);
}

#[test]
fn trading_a_railroad_rescales_both_sides() {
    let mut game = new_game(2);
    assert_eq!(game.buy_tile(0, 5), Some(5));
    assert_eq!(game.buy_tile(0, 15), Some(15));
    assert_eq!(game.buy_tile(1, 25), Some(25));
    assert_eq!(game.get_rent(5, &[1, 1]), 50);
    assert_eq!(game.get_rent(25, &[1, 1]), 25);
    assert_eq!(game.trade_start(0, 1), Ok(()));
    assert_eq!(game.trade_offer_tile(TradeSide::Proposer, 15), Ok(()));
    assert_eq!(game.trade_accept(), Ok(()));
    // player 0 fell to one railroad, player 1 climbed to two
    assert_eq!(game.get_rent(5, &[1, 1]), 25);
    assert_eq!(game.get_rent(15, &[1, 1]), 50);
    assert_eq!(game.get_rent(25, &[1, 1]), 50);
}

#[test]
fn ledger_tracks_owners_and_forgets_on_remove() {
    let mut ledger = OwnershipLedger::new(2, 3);
    assert_eq!(ledger.owned_count(0, 1), 0);
    assert!(!ledger.is_owner_of(0, 7));
    ledger.record(0, 1, 7);
    ledger.record(0, 1, 9);
    // recording is idempotent
    ledger.record(0, 1, 7);
    assert_eq!(ledger.owned_count(0, 1), 2);
    assert!(ledger.is_owner_of(0, 7));
    assert!(!ledger.is_owner_of(1, 7));
    assert!(ledger.remove(0, 1, 7));
    assert!(!ledger.remove(0, 1, 7));
    assert_eq!(ledger.owned_count(0, 1), 1);
    assert!(!ledger.is_owner_of(0, 7));
    assert!(ledger.is_owner_of(0, 9));
}

#[test]
fn ledger_counts_stay_within_set_sizes() {
    let mut game = new_game(2);
    for t in [1usize, 3, 5, 12, 15, 25, 28, 35] {
        assert_eq!(game.buy_tile(0, t), Some(t));
    }
    assert!(game.is_set_complete(0, 1));
    assert!(game.is_set_complete(0, 5));
    assert!(game.is_set_complete(0, 12));
    assert!(!game.is_set_complete(0, 6));
    assert!(!game.is_set_complete(1, 1));
}
