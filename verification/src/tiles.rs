use vstd::prelude::*;
use crate::colours::bg_set_colour;
use crate::colours::bg_set_colour_spec;
use crate::colours::is_colour_set_name;
use crate::text::centered_spec;
use crate::text::decimal_spec;
use crate::text::pad_center;
use crate::text::spaces;
use crate::text::spaces_spec;
use crate::text::usize_to_decimal;

verus! {

broadcast use vstd::seq_lib::group_to_multiset_ensures;

/// Upper bound on every cost, mortgage value and rent-schedule entry a
/// tile record may carry.  Keeping amounts within this bound keeps rent
/// doubling and dice multiplication far away from machine limits.
pub const AMOUNT_LIMIT: i64 = 1_000_000_000_000;

/// The four kinds of board tile.  Each kind follows its own rent and
/// tier rules; events are never ownable.
#[derive(Clone, Copy, Debug, PartialEq, Eq, Structural)]
pub enum TileKind {
    Street,
    Railroad,
    Utility,
    Event,
}

/// The rent-schedule slot a tile currently resolves against.
/// Streets use `Owned` plus house tiers (house purchase itself is out
/// of scope, the slots are kept so the schedule shape never changes);
/// railroads climb one tier per railroad owned; utilities per utility.
#[derive(Clone, Copy, Debug, PartialEq, Eq, Structural)]
pub enum PropertyStatus {
    Mortgaged,
    Unowned,
    Owned,
    Tier1,
    Tier2,
    Tier3,
    Tier4,
    Tier5,
}

/// One already-validated tile description, in board-walk order.
/// Deserialization and schema checking happen outside the game core;
/// this is the plain shape the core consumes.
pub struct TileRecord {
    pub name: String,
    pub kind: TileKind,
    pub set_name: String,
    pub property_cost: i64,
    pub mortgage_value: i64,
    /// Rent schedule: 6 entries for a street, 4 for a railroad, 2
    /// multiplier entries for a utility, none for an event.
    pub rent_schedule: Vec<i64>,
    pub house_cost: i64,
    pub hotel_cost: i64,
}

/// How many schedule entries each tile kind carries.
pub open spec fn schedule_len(kind: TileKind) -> int {
    match kind {
        TileKind::Street => 6,
        TileKind::Railroad => 4,
        TileKind::Utility => 2,
        TileKind::Event => 0,
    }
}

/// A single record is well-formed: schedule of the right length with
/// entries in range, amounts in range, and (for ownable tiles) a set
/// name that has a colour.
pub open spec fn record_valid(r: TileRecord) -> bool {
    &&& r.rent_schedule@.len() == schedule_len(r.kind)
    &&& forall|i: int|
        0 <= i < r.rent_schedule@.len() ==> 0 <= #[trigger] r.rent_schedule@[i] <= AMOUNT_LIMIT
    &&& 0 <= r.property_cost <= AMOUNT_LIMIT
    &&& 0 <= r.mortgage_value <= AMOUNT_LIMIT
    &&& (r.kind != TileKind::Event ==> is_colour_set_name(r.set_name@))
    &&& (r.kind == TileKind::Street ==> 0 <= r.house_cost <= AMOUNT_LIMIT && 0 <= r.hotel_cost
        <= AMOUNT_LIMIT)
}

/// Entries appear in non-decreasing order.
pub open spec fn schedule_sorted(s: Seq<i64>) -> bool {
    forall|a: int, b: int| 0 <= a < b < s.len() ==> s[a] <= s[b]
}

/// Sorts a rent schedule into non-decreasing order, keeping exactly the
/// same entries.
pub fn sort_schedule(v: &mut Vec<i64>)
    ensures
        final(v)@.len() == old(v)@.len(),
        final(v)@.to_multiset() == old(v)@.to_multiset(),
        schedule_sorted(final(v)@),
{
    let n: usize = v.len();
    let mut i: usize = 1;
    while i < n
        invariant
            1 <= i <= n || (n == 0 && i == 1),
            v@.len() == n,
            v@.to_multiset() == old(v)@.to_multiset(),
            forall|a: int, b: int| 0 <= a < b < i ==> v@[a] <= v@[b],
        decreases n - i,
    {
        let mut j: usize = i;
        while j > 0 && v[j - 1] > v[j]
            invariant
                0 <= j <= i < n,
                v@.len() == n,
                v@.to_multiset() == old(v)@.to_multiset(),
                forall|a: int, b: int| 0 <= a < b <= i && b != j ==> v@[a] <= v@[b],
                forall|b: int| j < b <= i ==> v@[j as int] <= v@[b],
            decreases j,
        {
            let lo: i64 = v[j - 1];
            let hi: i64 = v[j];
            v[j - 1] = hi;
            v[j] = lo;
            j = j - 1;
        }
        i = i + 1;
    }
}

/// The status that a count of owned same-set tiles resolves to:
/// one owned is the base tier, each further one climbs a tier.
pub open spec fn count_status(count: int) -> PropertyStatus {
    if count <= 0 {
        PropertyStatus::Unowned
    } else if count == 1 {
        PropertyStatus::Owned
    } else if count == 2 {
        PropertyStatus::Tier1
    } else if count == 3 {
        PropertyStatus::Tier2
    } else if count == 4 {
        PropertyStatus::Tier3
    } else {
        PropertyStatus::Tier5
    }
}

/// The rent a street resolves to from its status alone (the full-set
/// doubling is applied on top of the `Owned` case by the rent engine).
pub open spec fn street_tier_rent(status: PropertyStatus, levels: Seq<i64>) -> i64 {
    match status {
        PropertyStatus::Mortgaged => 0,
        PropertyStatus::Unowned => 0,
        PropertyStatus::Owned => levels[0],
        PropertyStatus::Tier1 => levels[1],
        PropertyStatus::Tier2 => levels[2],
        PropertyStatus::Tier3 => levels[3],
        PropertyStatus::Tier4 => levels[4],
        PropertyStatus::Tier5 => levels[5],
    }
}

/// The rent a railroad resolves to from its status.  Only statuses up
/// to `Tier3` (four railroads owned) are meaningful.
pub open spec fn railroad_tier_rent(status: PropertyStatus, levels: Seq<i64>) -> i64 {
    match status {
        PropertyStatus::Mortgaged => 0,
        PropertyStatus::Unowned => 0,
        PropertyStatus::Owned => levels[0],
        PropertyStatus::Tier1 => levels[1],
        PropertyStatus::Tier2 => levels[2],
        PropertyStatus::Tier3 => levels[3],
        _ => 0,
    }
}

/// The multiplier a utility resolves to from its status.  Only
/// statuses up to `Tier1` (both utilities owned) are meaningful.
pub open spec fn utility_tier_multiplier(status: PropertyStatus, levels: Seq<i64>) -> i64 {
    match status {
        PropertyStatus::Mortgaged => 0,
        PropertyStatus::Unowned => 0,
        PropertyStatus::Owned => levels[0],
        PropertyStatus::Tier1 => levels[1],
        _ => 0,
    }
}

/// A street: rent comes from a six-entry schedule, doubled on the base
/// tier while its owner holds the whole colour set.
pub struct StreetTile {
    pub id: usize,
    pub name: String,
    pub set_name: String,
    pub set_id: usize,
    /// Start of the ANSI background code of the tile's set.
    pub colour: String,
    pub owner: Option<usize>,
    pub owner_colour: String,
    pub property_status: PropertyStatus,
    pub property_cost: i64,
    pub mortgage_value: i64,
    /// Cached current rent; the rent engine keeps it consistent.
    pub rent: i64,
    pub rent_levels: Vec<i64>,
    pub house_cost: i64,
    pub hotel_cost: i64,
}

/// The fields of a street that no ownership change ever touches.
pub open spec fn street_static_unchanged(a: StreetTile, b: StreetTile) -> bool {
    &&& a.id == b.id
    &&& a.name == b.name
    &&& a.set_name == b.set_name
    &&& a.set_id == b.set_id
    &&& a.colour == b.colour
    &&& a.property_cost == b.property_cost
    &&& a.mortgage_value == b.mortgage_value
    &&& a.rent_levels == b.rent_levels
    &&& a.house_cost == b.house_cost
    &&& a.hotel_cost == b.hotel_cost
}

impl StreetTile {
    /// A fresh, unowned street from a validated record.  The schedule
    /// is sorted so that tiers always resolve in non-decreasing order.
    pub fn new(id: usize, set_id: usize, tile_data: &TileRecord) -> (r: StreetTile)
        requires
            tile_data.kind == TileKind::Street,
            record_valid(*tile_data),
        ensures
            r.id == id,
            r.set_id == set_id,
            r.name@ == tile_data.name@,
            r.set_name@ == tile_data.set_name@,
            r.colour@ == bg_set_colour_spec(tile_data.set_name@),
            r.owner is None,
            r.owner_colour@ == Seq::<char>::empty(),
            r.property_status == PropertyStatus::Unowned,
            r.property_cost == tile_data.property_cost,
            r.mortgage_value == tile_data.mortgage_value,
            r.rent == 0,
            r.rent_levels@.to_multiset() == tile_data.rent_schedule@.to_multiset(),
            r.rent_levels@.len() == 6,
            schedule_sorted(r.rent_levels@),
            forall|i: int| 0 <= i < 6 ==> 0 <= #[trigger] r.rent_levels@[i] <= AMOUNT_LIMIT,
            r.house_cost == tile_data.house_cost,
            r.hotel_cost == tile_data.hotel_cost,
    {
        let mut rent_levels: Vec<i64> = clone_schedule(&tile_data.rent_schedule);
        sort_schedule(&mut rent_levels);
        proof {
            assert forall|i: int| 0 <= i < 6 implies 0 <= #[trigger] rent_levels@[i]
                <= AMOUNT_LIMIT by {
                assert(rent_levels@.to_multiset().contains(rent_levels@[i]));
                assert(tile_data.rent_schedule@.contains(rent_levels@[i]));
            }
        }
        StreetTile {
            id,
            name: clone_string(&tile_data.name),
            set_name: clone_string(&tile_data.set_name),
            set_id,
            colour: bg_set_colour(tile_data.set_name.as_str()),
            owner: None,
            owner_colour: String::new(),
            property_status: PropertyStatus::Unowned,
            property_cost: tile_data.property_cost,
            mortgage_value: tile_data.mortgage_value,
            rent: 0,
            rent_levels,
            house_cost: tile_data.house_cost,
            hotel_cost: tile_data.hotel_cost,
        }
    }

    /// Hands the street to a new owner.  A purchase moves the tile out
    /// of the unowned state; a trade keeps its tier.  The cached rent is
    /// refreshed for the new status; the set-wide full-set doubling is
    /// the rent engine's job afterwards.
    pub fn acquired_by(&mut self, owner: usize, owner_colour: &String)
        requires
            old(self).rent_levels@.len() == 6,
        ensures
            street_static_unchanged(*old(self), *final(self)),
            final(self).owner == Some(owner),
            final(self).owner_colour@ == owner_colour@,
            final(self).property_status == (if old(self).property_status
                == PropertyStatus::Unowned {
                PropertyStatus::Owned
            } else {
                old(self).property_status
            }),
            final(self).rent == street_tier_rent(final(self).property_status, final(self).rent_levels@),
    {
        self.owner = Some(owner);
        self.owner_colour = owner_colour.clone();

        if self.property_status == PropertyStatus::Unowned {
            self.property_status = PropertyStatus::Owned;
        }

        self.update_rent(None);
    }

    /// Doubles the base rent.  Run only while the owner holds every
    /// tile of this street's set; the doubling applies to the plain
    /// owned tier only.
    pub fn update_rent_full_set(&mut self)
        requires
            old(self).rent_levels@.len() == 6,
            0 <= old(self).rent_levels@[0] <= AMOUNT_LIMIT,
        ensures
            street_static_unchanged(*old(self), *final(self)),
            final(self).owner == old(self).owner,
            final(self).owner_colour == old(self).owner_colour,
            final(self).property_status == old(self).property_status,
            final(self).rent == (if old(self).property_status == PropertyStatus::Owned {
                2 * old(self).rent_levels@[0]
            } else {
                old(self).rent as int
            }),
    {
        if self.property_status == PropertyStatus::Owned {
            self.rent = self.rent_levels[0] * 2;
        }
    }

    /// Refreshes the cached rent: to the given amount if one is passed,
    /// otherwise to the schedule entry of the current status.
    pub fn update_rent(&mut self, rent: Option<i64>)
        requires
            old(self).rent_levels@.len() == 6,
        ensures
            street_static_unchanged(*old(self), *final(self)),
            final(self).owner == old(self).owner,
            final(self).owner_colour == old(self).owner_colour,
            final(self).property_status == old(self).property_status,
            final(self).rent == (match rent {
                Some(amount) => amount,
                None => street_tier_rent(old(self).property_status, old(self).rent_levels@),
            }),
    {
        if let Some(amount) = rent {
            self.rent = amount;
            return ;
        }

        match self.property_status {
            PropertyStatus::Mortgaged => self.rent = 0,
            PropertyStatus::Unowned => self.rent = 0,
            PropertyStatus::Owned => self.rent = self.rent_levels[0],
            PropertyStatus::Tier1 => self.rent = self.rent_levels[1],
            PropertyStatus::Tier2 => self.rent = self.rent_levels[2],
            PropertyStatus::Tier3 => self.rent = self.rent_levels[3],
            PropertyStatus::Tier4 => self.rent = self.rent_levels[4],
            PropertyStatus::Tier5 => self.rent = self.rent_levels[5],
        }
    }
}

/// A railroad: rent is read straight from a four-entry schedule indexed
/// by how many railroads its owner holds.
pub struct RailroadTile {
    pub id: usize,
    pub name: String,
    pub set_name: String,
    pub set_id: usize,
    pub colour: String,
    pub owner: Option<usize>,
    pub owner_colour: String,
    pub property_status: PropertyStatus,
    pub property_cost: i64,
    pub mortgage_value: i64,
    pub rent: i64,
    pub rent_levels: Vec<i64>,
}

/// The fields of a railroad that no ownership change ever touches.
pub open spec fn railroad_static_unchanged(a: RailroadTile, b: RailroadTile) -> bool {
    &&& a.id == b.id
    &&& a.name == b.name
    &&& a.set_name == b.set_name
    &&& a.set_id == b.set_id
    &&& a.colour == b.colour
    &&& a.property_cost == b.property_cost
    &&& a.mortgage_value == b.mortgage_value
    &&& a.rent_levels == b.rent_levels
}

impl RailroadTile {
    /// A fresh, unowned railroad from a validated record.
    pub fn new(id: usize, set_id: usize, tile_data: &TileRecord) -> (r: RailroadTile)
        requires
            tile_data.kind == TileKind::Railroad,
            record_valid(*tile_data),
        ensures
            r.id == id,
            r.set_id == set_id,
            r.name@ == tile_data.name@,
            r.set_name@ == tile_data.set_name@,
            r.colour@ == bg_set_colour_spec(tile_data.set_name@),
            r.owner is None,
            r.owner_colour@ == Seq::<char>::empty(),
            r.property_status == PropertyStatus::Unowned,
            r.property_cost == tile_data.property_cost,
            r.mortgage_value == tile_data.mortgage_value,
            r.rent == 0,
            r.rent_levels@.to_multiset() == tile_data.rent_schedule@.to_multiset(),
            r.rent_levels@.len() == 4,
            schedule_sorted(r.rent_levels@),
            forall|i: int| 0 <= i < 4 ==> 0 <= #[trigger] r.rent_levels@[i] <= AMOUNT_LIMIT,
    {
        let mut rent_levels: Vec<i64> = clone_schedule(&tile_data.rent_schedule);
        sort_schedule(&mut rent_levels);
        proof {
            assert forall|i: int| 0 <= i < 4 implies 0 <= #[trigger] rent_levels@[i]
                <= AMOUNT_LIMIT by {
                assert(rent_levels@.to_multiset().contains(rent_levels@[i]));
                assert(tile_data.rent_schedule@.contains(rent_levels@[i]));
            }
        }
        RailroadTile {
            id,
            name: clone_string(&tile_data.name),
            set_name: clone_string(&tile_data.set_name),
            set_id,
            colour: bg_set_colour(tile_data.set_name.as_str()),
            owner: None,
            owner_colour: String::new(),
            property_status: PropertyStatus::Unowned,
            property_cost: tile_data.property_cost,
            mortgage_value: tile_data.mortgage_value,
            rent: 0,
            rent_levels,
        }
    }

    /// Hands the railroad to a new owner.  The set-wide tier rescaling
    /// is the rent engine's job afterwards.
    pub fn acquired_by(&mut self, owner: usize, owner_colour: &String)
        requires
            old(self).rent_levels@.len() == 4,
            !(old(self).property_status is Tier4),
            !(old(self).property_status is Tier5),
        ensures
            railroad_static_unchanged(*old(self), *final(self)),
            final(self).owner == Some(owner),
            final(self).owner_colour@ == owner_colour@,
            final(self).property_status == (if old(self).property_status
                == PropertyStatus::Unowned {
                PropertyStatus::Owned
            } else {
                old(self).property_status
            }),
            final(self).rent == railroad_tier_rent(
                final(self).property_status,
                final(self).rent_levels@,
            ),
    {
        self.owner = Some(owner);
        self.owner_colour = owner_colour.clone();

        if self.property_status == PropertyStatus::Unowned {
            self.property_status = PropertyStatus::Owned;
        }

        self.update_rent(None);
    }

    /// Refreshes the cached rent from the current status.
    fn update_rent(&mut self, rent: Option<i64>)
        requires
            old(self).rent_levels@.len() == 4,
            !(old(self).property_status is Tier4),
            !(old(self).property_status is Tier5),
        ensures
            railroad_static_unchanged(*old(self), *final(self)),
            final(self).owner == old(self).owner,
            final(self).owner_colour == old(self).owner_colour,
            final(self).property_status == old(self).property_status,
            final(self).rent == railroad_tier_rent(
                old(self).property_status,
                old(self).rent_levels@,
            ),
    {
        if let Some(amount) = rent {
            self.rent = amount;
        }

        match self.property_status {
            PropertyStatus::Mortgaged => self.rent = 0,
            PropertyStatus::Unowned => self.rent = 0,
            PropertyStatus::Owned => self.rent = self.rent_levels[0],
            PropertyStatus::Tier1 => self.rent = self.rent_levels[1],
            PropertyStatus::Tier2 => self.rent = self.rent_levels[2],
            PropertyStatus::Tier3 => self.rent = self.rent_levels[3],
            _ => {},
        }
    }

    /// Moves the railroad to the tier matching how many railroads its
    /// owner now holds, and refreshes the cached rent.
    pub fn update_rent_total_number_of_owned_railroads(&mut self, railroads: usize)
        requires
            old(self).rent_levels@.len() == 4,
            railroads <= 4,
        ensures
            railroad_static_unchanged(*old(self), *final(self)),
            final(self).owner == old(self).owner,
            final(self).owner_colour == old(self).owner_colour,
            final(self).property_status == count_status(railroads as int),
            final(self).rent == (if railroads == 0 {
                0
            } else {
                old(self).rent_levels@[railroads - 1]
            }),
    {
        match railroads {
            0 => self.property_status = PropertyStatus::Unowned,
            1 => self.property_status = PropertyStatus::Owned,
            2 => self.property_status = PropertyStatus::Tier1,
            3 => self.property_status = PropertyStatus::Tier2,
            _ => self.property_status = PropertyStatus::Tier3,
        }

        self.update_rent(None);
    }
}

/// A utility: the schedule holds two multipliers applied to the dice
/// sum, chosen by how many utilities the owner holds.
pub struct UtilityTile {
    pub id: usize,
    pub name: String,
    pub set_name: String,
    pub set_id: usize,
    pub colour: String,
    pub owner: Option<usize>,
    pub owner_colour: String,
    pub property_status: PropertyStatus,
    pub property_cost: i64,
    /// Cached current multiplier; rent is this times the dice sum.
    pub rent_multiplier: i64,
    pub rent_multiplier_levels: Vec<i64>,
}

/// The fields of a utility that no ownership change ever touches.
pub open spec fn utility_static_unchanged(a: UtilityTile, b: UtilityTile) -> bool {
    &&& a.id == b.id
    &&& a.name == b.name
    &&& a.set_name == b.set_name
    &&& a.set_id == b.set_id
    &&& a.colour == b.colour
    &&& a.property_cost == b.property_cost
    &&& a.rent_multiplier_levels == b.rent_multiplier_levels
}

impl UtilityTile {
    /// A fresh, unowned utility from a validated record.
    pub fn new(id: usize, set_id: usize, tile_data: &TileRecord) -> (r: UtilityTile)
        requires
            tile_data.kind == TileKind::Utility,
            record_valid(*tile_data),
        ensures
            r.id == id,
            r.set_id == set_id,
            r.name@ == tile_data.name@,
            r.set_name@ == tile_data.set_name@,
            r.colour@ == bg_set_colour_spec(tile_data.set_name@),
            r.owner is None,
            r.owner_colour@ == Seq::<char>::empty(),
            r.property_status == PropertyStatus::Unowned,
            r.property_cost == tile_data.property_cost,
            r.rent_multiplier == 0,
            r.rent_multiplier_levels@.to_multiset() == tile_data.rent_schedule@.to_multiset(),
            r.rent_multiplier_levels@.len() == 2,
            schedule_sorted(r.rent_multiplier_levels@),
            forall|i: int| 0 <= i < 2 ==> 0 <= #[trigger] r.rent_multiplier_levels@[i]
                <= AMOUNT_LIMIT,
    {
        let mut rent_multiplier_levels: Vec<i64> = clone_schedule(&tile_data.rent_schedule);
        sort_schedule(&mut rent_multiplier_levels);
        proof {
            assert forall|i: int| 0 <= i < 2 implies 0 <= #[trigger] rent_multiplier_levels@[i]
                <= AMOUNT_LIMIT by {
                assert(rent_multiplier_levels@.to_multiset().contains(rent_multiplier_levels@[i]));
                assert(tile_data.rent_schedule@.contains(rent_multiplier_levels@[i]));
            }
        }
        UtilityTile {
            id,
            name: clone_string(&tile_data.name),
            set_name: clone_string(&tile_data.set_name),
            set_id,
            colour: bg_set_colour(tile_data.set_name.as_str()),
            owner: None,
            owner_colour: String::new(),
            property_status: PropertyStatus::Unowned,
            property_cost: tile_data.property_cost,
            rent_multiplier: 0,
            rent_multiplier_levels,
        }
    }

    /// Hands the utility to a new owner.  The set-wide tier rescaling
    /// is the rent engine's job afterwards.
    pub fn acquired_by(&mut self, owner: usize, owner_colour: &String)
        requires
            old(self).rent_multiplier_levels@.len() == 2,
            old(self).property_status is Unowned || old(self).property_status is Owned || old(
                self,
            ).property_status is Tier1 || old(self).property_status is Mortgaged,
        ensures
            utility_static_unchanged(*old(self), *final(self)),
            final(self).owner == Some(owner),
            final(self).owner_colour@ == owner_colour@,
            final(self).property_status == (if old(self).property_status
                == PropertyStatus::Unowned {
                PropertyStatus::Owned
            } else {
                old(self).property_status
            }),
            final(self).rent_multiplier == utility_tier_multiplier(
                final(self).property_status,
                final(self).rent_multiplier_levels@,
            ),
    {
        self.owner = Some(owner);
        self.owner_colour = owner_colour.clone();

        if self.property_status == PropertyStatus::Unowned {
            self.property_status = PropertyStatus::Owned;
        }

        self.update_rent(None);
    }

    /// Refreshes the cached multiplier from the current status.
    fn update_rent(&mut self, multiplier: Option<i64>)
        requires
            old(self).rent_multiplier_levels@.len() == 2,
            old(self).property_status is Unowned || old(self).property_status is Owned || old(
                self,
            ).property_status is Tier1 || old(self).property_status is Mortgaged,
        ensures
            utility_static_unchanged(*old(self), *final(self)),
            final(self).owner == old(self).owner,
            final(self).owner_colour == old(self).owner_colour,
            final(self).property_status == old(self).property_status,
            final(self).rent_multiplier == utility_tier_multiplier(
                old(self).property_status,
                old(self).rent_multiplier_levels@,
            ),
    {
        if let Some(amount) = multiplier {
            self.rent_multiplier = amount;
        }

        match self.property_status {
            PropertyStatus::Mortgaged => self.rent_multiplier = 0,
            PropertyStatus::Unowned => self.rent_multiplier = 0,
            PropertyStatus::Owned => self.rent_multiplier = self.rent_multiplier_levels[0],
            PropertyStatus::Tier1 => self.rent_multiplier = self.rent_multiplier_levels[1],
            _ => {},
        }
    }

    /// Moves the utility to the tier matching how many utilities its
    /// owner now holds, and refreshes the cached multiplier.
    pub fn update_rent_total_number_of_owned_utilities(&mut self, utilities: usize)
        requires
            old(self).rent_multiplier_levels@.len() == 2,
            utilities <= 2,
        ensures
            utility_static_unchanged(*old(self), *final(self)),
            final(self).owner == old(self).owner,
            final(self).owner_colour == old(self).owner_colour,
            final(self).property_status == count_status(utilities as int),
            final(self).rent_multiplier == (if utilities == 0 {
                0
            } else {
                old(self).rent_multiplier_levels@[utilities - 1]
            }),
    {
        match utilities {
            0 => self.property_status = PropertyStatus::Unowned,
            1 => self.property_status = PropertyStatus::Owned,
            _ => self.property_status = PropertyStatus::Tier1,
        }

        self.update_rent(None);
    }
}

/// Width in characters of a property or event card.
pub const CARD_WIDTH: usize = 37;

/// The white card drawn for an event tile: cursor positioning, a
/// coloured top stripe, then the name centred on a white background.
pub open spec fn event_card_spec(name: Seq<char>, colour: Seq<char>, col: int, row: int) -> Seq<
    char,
> {
    let set_colour = if colour.len() == 0 {
        "\x1b[47m"@
    } else {
        colour
    };
    "\x1B["@ + decimal_spec(row) + ";"@ + decimal_spec(col) + "H "@ + "\x1b[47m"@ + set_colour
        + spaces_spec(CARD_WIDTH as int) + "\x1b[0m\n\x1B["@ + decimal_spec(col) + "C"@
        + "\x1b[47m\x1b[30m"@ + spaces_spec(CARD_WIDTH as int) + "\n\x1B["@ + decimal_spec(col)
        + "C"@ + centered_spec(name, CARD_WIDTH as int) + "\n\x1B["@ + decimal_spec(col) + "C"@
        + spaces_spec(CARD_WIDTH as int) + "\x1b[0m"@
}

/// An event tile: never ownable, never charges rent; the rent engine
/// leaves it alone.
pub struct EventTile {
    pub id: usize,
    pub name: String,
    pub set_name: String,
    pub set_id: usize,
    pub colour: String,
}

impl EventTile {
    /// A fresh event tile from a validated record.
    pub fn new(id: usize, set_id: usize, tile_data: &TileRecord) -> (r: EventTile)
        requires
            tile_data.kind == TileKind::Event,
        ensures
            r.id == id,
            r.set_id == set_id,
            r.name@ == tile_data.name@,
            r.set_name@ == tile_data.set_name@,
            r.colour@ == Seq::<char>::empty(),
    {
        EventTile {
            id,
            name: clone_string(&tile_data.name),
            set_name: clone_string(&tile_data.set_name),
            set_id,
            colour: String::new(),
        }
    }

    /// Renders the tile's card as one string of cursor moves, colour
    /// codes and centred text, for the display layer to print.
    pub fn display_card(&self, left_starting_col: usize, top_starting_row: usize) -> (r: String)
        ensures
            r@ == event_card_spec(
                self.name@,
                self.colour@,
                left_starting_col as int,
                top_starting_row as int,
            ),
    {
        let col_s: String = usize_to_decimal(left_starting_col);
        let row_s: String = usize_to_decimal(top_starting_row);
        let blanks: String = spaces(CARD_WIDTH);
        let centred: String = pad_center(self.name.as_str(), CARD_WIDTH);
        let mut s: String = String::from_str("\x1B[");
        s.append(row_s.as_str());
        s.append(";");
        s.append(col_s.as_str());
        s.append("H ");
        s.append("\x1b[47m");
        if self.colour.as_str().is_empty() {
            s.append("\x1b[47m");
        } else {
            s.append(self.colour.as_str());
        }
        s.append(blanks.as_str());
        s.append("\x1b[0m\n\x1B[");
        s.append(col_s.as_str());
        s.append("C");
        s.append("\x1b[47m\x1b[30m");
        s.append(blanks.as_str());
        s.append("\n\x1B[");
        s.append(col_s.as_str());
        s.append("C");
        s.append(centred.as_str());
        s.append("\n\x1B[");
        s.append(col_s.as_str());
        s.append("C");
        s.append(blanks.as_str());
        s.append("\x1b[0m");
        proof {
            assert(s@ =~= event_card_spec(
                self.name@,
                self.colour@,
                left_starting_col as int,
                top_starting_row as int,
            ));
        }
        s
    }
}

/// Clones a string, keeping its characters.
pub(crate) fn clone_string(s: &String) -> (r: String)
    ensures
        r@ == s@,
{
    s.clone()
}

/// Clones a schedule, keeping its entries.
fn clone_schedule(v: &Vec<i64>) -> (r: Vec<i64>)
    ensures
        r@ == v@,
{
    let mut r: Vec<i64> = Vec::new();
    let mut i: usize = 0;
    while i < v.len()
        invariant
            0 <= i <= v@.len(),
            r@ == v@.take(i as int),
        decreases v@.len() - i,
    {
        r.push(v[i]);
        proof {
            assert(r@ =~= v@.take(i + 1));
        }
        i = i + 1;
    }
    proof {
        assert(r@ =~= v@);
    }
    r
}

/// One cell of the board.  The kind decides the rent and tier rules;
/// dispatch is by pattern matching on this closed set of variants.
pub enum BoardTile {
    Street(StreetTile),
    Railroad(RailroadTile),
    Utility(UtilityTile),
    Event(EventTile),
}

impl BoardTile {
    /// The kind tag of this tile.
    pub open spec fn kind(self) -> TileKind {
        match self {
            BoardTile::Street(_) => TileKind::Street,
            BoardTile::Railroad(_) => TileKind::Railroad,
            BoardTile::Utility(_) => TileKind::Utility,
            BoardTile::Event(_) => TileKind::Event,
        }
    }

    /// The tile's position on the board.
    pub open spec fn id(self) -> int {
        match self {
            BoardTile::Street(t) => t.id as int,
            BoardTile::Railroad(t) => t.id as int,
            BoardTile::Utility(t) => t.id as int,
            BoardTile::Event(t) => t.id as int,
        }
    }

    /// The index of the set this tile belongs to.
    pub open spec fn set_id(self) -> int {
        match self {
            BoardTile::Street(t) => t.set_id as int,
            BoardTile::Railroad(t) => t.set_id as int,
            BoardTile::Utility(t) => t.set_id as int,
            BoardTile::Event(t) => t.set_id as int,
        }
    }

    /// The tile's display name.
    pub open spec fn name(self) -> Seq<char> {
        match self {
            BoardTile::Street(t) => t.name@,
            BoardTile::Railroad(t) => t.name@,
            BoardTile::Utility(t) => t.name@,
            BoardTile::Event(t) => t.name@,
        }
    }

    /// The name of the set this tile belongs to.
    pub open spec fn set_name(self) -> Seq<char> {
        match self {
            BoardTile::Street(t) => t.set_name@,
            BoardTile::Railroad(t) => t.set_name@,
            BoardTile::Utility(t) => t.set_name@,
            BoardTile::Event(t) => t.set_name@,
        }
    }

    /// The current owner; events never have one.
    pub open spec fn owner(self) -> Option<usize> {
        match self {
            BoardTile::Street(t) => t.owner,
            BoardTile::Railroad(t) => t.owner,
            BoardTile::Utility(t) => t.owner,
            BoardTile::Event(_) => None,
        }
    }

    /// The current tier; events always read as unowned.
    pub open spec fn status(self) -> PropertyStatus {
        match self {
            BoardTile::Street(t) => t.property_status,
            BoardTile::Railroad(t) => t.property_status,
            BoardTile::Utility(t) => t.property_status,
            BoardTile::Event(_) => PropertyStatus::Unowned,
        }
    }

    /// The purchase cost; events cost nothing and cannot be bought.
    pub open spec fn cost(self) -> i64 {
        match self {
            BoardTile::Street(t) => t.property_cost,
            BoardTile::Railroad(t) => t.property_cost,
            BoardTile::Utility(t) => t.property_cost,
            BoardTile::Event(_) => 0,
        }
    }

    /// The cached rent figure: flat rent for streets and railroads,
    /// the dice multiplier for utilities, zero for events.
    pub open spec fn cached_rent(self) -> i64 {
        match self {
            BoardTile::Street(t) => t.rent,
            BoardTile::Railroad(t) => t.rent,
            BoardTile::Utility(t) => t.rent_multiplier,
            BoardTile::Event(_) => 0,
        }
    }

    /// The tile's rent schedule; empty for events.
    pub open spec fn schedule(self) -> Seq<i64> {
        match self {
            BoardTile::Street(t) => t.rent_levels@,
            BoardTile::Railroad(t) => t.rent_levels@,
            BoardTile::Utility(t) => t.rent_multiplier_levels@,
            BoardTile::Event(_) => Seq::<i64>::empty(),
        }
    }

    /// Whether the tile can ever be owned.
    pub open spec fn is_ownable(self) -> bool {
        self.kind() != TileKind::Event
    }

    /// The background colour code of the tile's set.
    pub open spec fn colour_view(self) -> Seq<char> {
        match self {
            BoardTile::Street(t) => t.colour@,
            BoardTile::Railroad(t) => t.colour@,
            BoardTile::Utility(t) => t.colour@,
            BoardTile::Event(t) => t.colour@,
        }
    }

    /// The colour code of the tile's owner; for an event tile, the
    /// tile's own colour.
    pub open spec fn owner_colour_view(self) -> Seq<char> {
        match self {
            BoardTile::Street(t) => t.owner_colour@,
            BoardTile::Railroad(t) => t.owner_colour@,
            BoardTile::Utility(t) => t.owner_colour@,
            BoardTile::Event(t) => t.colour@,
        }
    }

    /// Reads the kind tag.
    pub fn get_kind(&self) -> (k: TileKind)
        ensures
            k == self.kind(),
    {
        match self {
            BoardTile::Street(_) => TileKind::Street,
            BoardTile::Railroad(_) => TileKind::Railroad,
            BoardTile::Utility(_) => TileKind::Utility,
            BoardTile::Event(_) => TileKind::Event,
        }
    }

    /// Reads the set index.
    pub fn get_set_id(&self) -> (s: usize)
        ensures
            s as int == self.set_id(),
    {
        match self {
            BoardTile::Street(t) => t.set_id,
            BoardTile::Railroad(t) => t.set_id,
            BoardTile::Utility(t) => t.set_id,
            BoardTile::Event(t) => t.set_id,
        }
    }

    /// Reads the owner.
    pub fn get_owner(&self) -> (o: Option<usize>)
        ensures
            o == self.owner(),
    {
        match self {
            BoardTile::Street(t) => t.owner,
            BoardTile::Railroad(t) => t.owner,
            BoardTile::Utility(t) => t.owner,
            BoardTile::Event(_) => None,
        }
    }

    /// Reads the purchase cost.
    pub fn get_cost(&self) -> (c: i64)
        ensures
            c == self.cost(),
    {
        match self {
            BoardTile::Street(t) => t.property_cost,
            BoardTile::Railroad(t) => t.property_cost,
            BoardTile::Utility(t) => t.property_cost,
            BoardTile::Event(_) => 0,
        }
    }
}

/// Two board cells that differ at most in tier and cached rent: same
/// variant, same immutable data, same owner.
pub open spec fn tile_same_but_tier(a: BoardTile, b: BoardTile) -> bool {
    match (a, b) {
        (BoardTile::Street(x), BoardTile::Street(y)) => street_static_unchanged(x, y) && x.owner
            == y.owner && x.owner_colour == y.owner_colour,
        (BoardTile::Railroad(x), BoardTile::Railroad(y)) => railroad_static_unchanged(x, y)
            && x.owner == y.owner && x.owner_colour == y.owner_colour,
        (BoardTile::Utility(x), BoardTile::Utility(y)) => utility_static_unchanged(x, y)
            && x.owner == y.owner && x.owner_colour == y.owner_colour,
        (BoardTile::Event(x), BoardTile::Event(y)) => x == y,
        _ => false,
    }
}

/// Two board cells that differ at most in ownership, tier and cached
/// rent: same variant and same immutable data.
pub open spec fn tile_same_but_ownership(a: BoardTile, b: BoardTile) -> bool {
    match (a, b) {
        (BoardTile::Street(x), BoardTile::Street(y)) => street_static_unchanged(x, y),
        (BoardTile::Railroad(x), BoardTile::Railroad(y)) => railroad_static_unchanged(x, y),
        (BoardTile::Utility(x), BoardTile::Utility(y)) => utility_static_unchanged(x, y),
        (BoardTile::Event(x), BoardTile::Event(y)) => x == y,
        _ => false,
    }
}

/// The tile's tier is one an ownership change can hand on: a railroad
/// below its top schedule slots and a utility within its two.  Streets
/// may carry any tier.
pub open spec fn status_bounded(tile: BoardTile) -> bool {
    match tile {
        BoardTile::Street(_) => true,
        BoardTile::Railroad(t) => !(t.property_status is Tier4) && !(t.property_status is Tier5),
        BoardTile::Utility(t) => t.property_status is Mortgaged || t.property_status is Unowned
            || t.property_status is Owned || t.property_status is Tier1,
        BoardTile::Event(_) => true,
    }
}

} // verus!
