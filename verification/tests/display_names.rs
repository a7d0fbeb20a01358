use monopoly::board::get_actual_tiles_order;
use monopoly::board::get_visual_tiles_order;
use monopoly::board::sort_by_indices;
use monopoly::colour::Colour;
use monopoly::colours::bg_set_colour;
use monopoly::colours::colour;
use monopoly::colours::is_known_colour_name;
use monopoly::player::Avatar;
use monopoly::player::Player;
use monopoly::tiles::sort_schedule;
use monopoly::tiles::EventTile;
use monopoly::tiles::TileKind;
use monopoly::tiles::TileRecord;

#[test]
fn set_colours_resolve_to_their_codes() {
    assert_eq!(bg_set_colour("Red"), "\x1b[41m");
    assert_eq!(bg_set_colour("Orange"), "\x1b[48;5;166m");
    assert_eq!(bg_set_colour("Brown"), "\x1b[48;5;94m");
    assert_eq!(bg_set_colour("Railroad"), "\x1b[100m");
    assert_eq!(bg_set_colour("Utility"), "\x1b[47m");
}

#[test]
fn known_colour_names_are_exactly_the_ten() {
    for name in ["Red", "Orange", "Yellow", "Green", "Cyan", "Blue", "Magenta", "Brown",
        "Railroad", "Utility"] {
        assert!(is_known_colour_name(name));
    }
    assert!(!is_known_colour_name("Gray"));
    assert!(!is_known_colour_name("red"));
    assert!(!is_known_colour_name(""));
}

#[test]
fn colour_lookup_falls_back_to_default() {
    assert_eq!(colour("Red"), "\x1b[48;5;009m");
    assert_eq!(colour("Gray"), "\x1b[48;5;008m");
    assert_eq!(colour("Railroad"), "\x1b[48;5;008m");
    assert_eq!(colour("White"), "\x1b[48;5;015m");
    assert_eq!(colour("Taupe"), "\x1b[00000049m");
}

#[test]
fn background_and_foreground_codes() {
    assert_eq!(Colour::background("Blue"), "\x1b[48;5;012m");
    assert_eq!(Colour::background("Event"), "\x1b[48;5;000m");
    assert_eq!(Colour::background("Nothing"), "\x1b[00000049m");
    assert_eq!(Colour::foreground("Bright Cyan"), "\x1b[96m");
    assert_eq!(Colour::foreground("Bright Magenta"), "\x1b[95m");
    assert_eq!(Colour::foreground("Dull Mauve"), "\x1b[39m");
}

#[test]
fn avatars_carry_colour_and_marker() {
    assert_eq!(Avatar::get_character(0), 'A');
    assert_eq!(Avatar::get_character(-1), ' ');
    assert_eq!(Avatar::get_character(9), '?');
    assert_eq!(Avatar::get_colour(1), "\x1b[92m");
    assert_eq!(Avatar::get_avatar(1), "\x1b[92mB\x1b[0m");
    let avatar = Avatar::new(2);
    assert_eq!(avatar.character, 'C');
    assert_eq!(avatar.colour, "\x1b[91m");
    assert_eq!(avatar.avatar, "\x1b[91mC\x1b[0m");
}

#[test]
fn all_avatars_blank_out_missing_players() {
    let present = [true, false, true, true];
    let line = Avatar::get_all_avatars(&present);
    assert_eq!(
        line,
        "\x1b[96mA\x1b[0m \x1b[39m \x1b[0m \x1b[91mC\x1b[0m \x1b[95mD\x1b[0m"
    );
}

#[test]
fn players_start_at_go_with_the_starting_balance() {
    let player = Player::new(3);
    assert_eq!(player.id, 3);
    assert_eq!(player.position, 0);
    assert_eq!(player.get_money(), 9000);
    assert_eq!(player.colour, "\x1b[95m");
}

#[test]
fn walking_wraps_in_both_directions() {
    let mut player = Player::new(0);
    player.walk(12);
    assert_eq!(player.position, 12);
    assert_eq!(player.last_position, 0);
    player.walk(30);
    assert_eq!(player.position, 2);
    assert_eq!(player.last_position, 12);
    player.walk(-5);
    assert_eq!(player.position, 37);
}

#[test]
fn balances_move_by_pay_and_collect() {
    let mut player = Player::new(0);
    player.pay(2500);
    assert_eq!(player.get_money(), 6500);
    player.collect(300);
    assert_eq!(player.get_money(), 6800);
    player.pay(7000);
    assert_eq!(player.get_money(), -200);
}

#[test]
fn tile_orders_cover_the_whole_board() {
    let visual = get_visual_tiles_order();
    let actual = get_actual_tiles_order();
    assert_eq!(visual.len(), 40);
    assert_eq!(actual.len(), 40);
    // the start tile is drawn last; the top-row walk starts where the
    // side walks hand over
    assert_eq!(visual[0], 39);
    assert_eq!(visual[20], 0);
    assert_eq!(actual[11], 19);
    assert_eq!(actual[12], 31);
    assert_eq!(actual[39], 0);
    let mut seen_visual = [false; 40];
    let mut seen_actual = [false; 40];
    for k in 0..40 {
        seen_visual[visual[k]] = true;
        seen_actual[actual[k]] = true;
    }
    assert!(seen_visual.iter().all(|&b| b));
    assert!(seen_actual.iter().all(|&b| b));
    // the two walks invert each other
    for k in 0..40 {
        assert_eq!(actual[visual[k]], k);
        assert_eq!(visual[actual[k]], k);
    }
}

#[test]
fn sorting_by_indices_reorders_and_consumes() {
    let mut data = vec![10i64, 20, 30, 40];
    let mut indices = vec![0usize, 3, 2, 1];
    sort_by_indices(&mut data, &mut indices);
    assert_eq!(data, vec![10, 40, 30, 20]);
    // the index vector is consumed to the identity
    assert_eq!(indices, vec![0, 1, 2, 3]);
}

#[test]
fn event_card_renders_centred_name() {
    let record = TileRecord {
        name: "Free Parking".to_string(),
        kind: TileKind::Event,
        set_name: "Event".to_string(),
        property_cost: 0,
        mortgage_value: 0,
        rent_schedule: vec![],
        house_cost: 0,
        hotel_cost: 0,
    };
    let tile = EventTile::new(20, 0, &record);
    let card = tile.display_card(26, 25);
    let expected = format!(
        "\x1B[{row};{col}H \x1b[47m\x1b[47m{empty: ^37}\x1b[0m\
        \n\x1B[{col}C\x1b[47m\x1b[30m{empty: ^37}\
        \n\x1B[{col}C{name: ^37}\
        \n\x1B[{col}C{empty: ^37}\
        \x1b[0m",
        row = 25,
        col = 26,
        empty = " ",
        name = "Free Parking",
    );
    assert_eq!(card, expected);
}

#[test]
fn schedules_sort_into_ascending_order() {
    let mut schedule = vec![200i64, 25, 100, 50];
    sort_schedule(&mut schedule);
    assert_eq!(schedule, vec![25, 50, 100, 200]);
    let mut empty: Vec<i64> = vec![];
    sort_schedule(&mut empty);
    assert!(empty.is_empty());
    let mut ties = vec![7i64, 7, 3];
    sort_schedule(&mut ties);
    assert_eq!(ties, vec![3, 7, 7]);
}
