use vstd::prelude::*;
use crate::colour::Colour;
use crate::colour::foreground_spec;

verus! {

/// Number of tiles on the board; positions wrap at this bound.
pub const NUMBER_OF_TILES: i8 = 40;

/// Starting balance of every player.
pub const STARTING_MONEY: i64 = 9000;

/// The character that marks a player on the board.  An id of -1 stands
/// for "no player" and resolves to a blank.
pub open spec fn character_spec(id: int) -> char {
    if id == -1 {
        ' '
    } else if id == 0 {
        'A'
    } else if id == 1 {
        'B'
    } else if id == 2 {
        'C'
    } else if id == 3 {
        'D'
    } else {
        '?'
    }
}

/// The foreground colour code that belongs to a player id.
pub open spec fn avatar_colour_spec(id: int) -> Seq<char> {
    if id == 0 {
        foreground_spec("Bright Cyan"@)
    } else if id == 1 {
        foreground_spec("Bright Green"@)
    } else if id == 2 {
        foreground_spec("Bright Red"@)
    } else if id == 3 {
        foreground_spec("Bright Magenta"@)
    } else {
        foreground_spec(""@)
    }
}

/// The coloured one-character marker of a player: colour code, marker
/// character, then the ANSI reset.
pub open spec fn avatar_string_spec(id: int) -> Seq<char> {
    avatar_colour_spec(id) + seq![character_spec(id)] + "\x1b[0m"@
}

/// A player's visual identity: marker character, colour code, and the
/// ready-made coloured marker string.
pub struct Avatar {
    pub character: char,
    pub colour: String,
    pub avatar: String,
}

impl Avatar {
    /// Builds the avatar that belongs to a player id.
    pub fn new(id: i8) -> (r: Avatar)
        ensures
            r.character == character_spec(id as int),
            r.colour@ == avatar_colour_spec(id as int),
            r.avatar@ == avatar_string_spec(id as int),
    {
        let character: char = Self::get_character(id);
        let colour: String = String::from_str(Self::get_colour(id));
        let avatar: String = Self::get_avatar(id);

        Avatar { character, colour, avatar }
    }

    /// Marker character for a player id, without building an `Avatar`.
    pub fn get_character(id: i8) -> (r: char)
        ensures
            r == character_spec(id as int),
    {
        match id {
            -1 => ' ',
            0 => 'A',
            1 => 'B',
            2 => 'C',
            3 => 'D',
            _ => '?',
        }
    }

    /// Marker character as a one-character string slice.
    fn character_str(id: i8) -> (r: &'static str)
        ensures
            r@ == seq![character_spec(id as int)],
    {
        proof {
            reveal_strlit(" ");
            reveal_strlit("A");
            reveal_strlit("B");
            reveal_strlit("C");
            reveal_strlit("D");
            reveal_strlit("?");
        }
        let r: &'static str = match id {
            -1 => " ",
            0 => "A",
            1 => "B",
            2 => "C",
            3 => "D",
            _ => "?",
        };
        proof {
            assert(r@ =~= seq![character_spec(id as int)]);
        }
        r
    }

    /// Foreground colour code for a player id, without building an
    /// `Avatar`.
    pub fn get_colour<'a>(id: i8) -> (r: &'a str)
        ensures
            r@ == avatar_colour_spec(id as int),
    {
        match id {
            -1 => Colour::foreground(""),
            0 => Colour::foreground("Bright Cyan"),
            1 => Colour::foreground("Bright Green"),
            2 => Colour::foreground("Bright Red"),
            3 => Colour::foreground("Bright Magenta"),
            _ => Colour::foreground(""),
        }
    }

    /// The coloured marker string for a player id.
    pub fn get_avatar<'a>(id: i8) -> (r: String)
        ensures
            r@ == avatar_string_spec(id as int),
    {
        let mut s: String = String::from_str(Self::get_colour(id));
        s.append(Self::character_str(id));
        s.append("\x1b[0m");
        proof {
            assert(s@ =~= avatar_string_spec(id as int));
        }
        s
    }

    /// One string showing the markers of the first four player slots,
    /// a blank for each slot that is not taken.
    pub fn get_all_avatars<'a>(players: &[bool]) -> (r: String)
        requires
            players@.len() >= 4,
        ensures
            r@ == avatar_string_spec(if players@[0] { 0int } else { -1int }) + " "@
                + avatar_string_spec(if players@[1] { 1int } else { -1int }) + " "@
                + avatar_string_spec(if players@[2] { 2int } else { -1int }) + " "@
                + avatar_string_spec(if players@[3] { 3int } else { -1int }),
    {
        let mut s: String = if players[0] {
            Avatar::get_avatar(0)
        } else {
            Avatar::get_avatar(-1)
        };
        s.append(" ");
        let a1: String = if players[1] {
            Avatar::get_avatar(1)
        } else {
            Avatar::get_avatar(-1)
        };
        s.append(a1.as_str());
        s.append(" ");
        let a2: String = if players[2] {
            Avatar::get_avatar(2)
        } else {
            Avatar::get_avatar(-1)
        };
        s.append(a2.as_str());
        s.append(" ");
        let a3: String = if players[3] {
            Avatar::get_avatar(3)
        } else {
            Avatar::get_avatar(-1)
        };
        s.append(a3.as_str());
        proof {
            assert(s@ =~= avatar_string_spec(if players@[0] { 0int } else { -1int }) + " "@
                + avatar_string_spec(if players@[1] { 1int } else { -1int }) + " "@
                + avatar_string_spec(if players@[2] { 2int } else { -1int }) + " "@
                + avatar_string_spec(if players@[3] { 3int } else { -1int }));
        }
        s
    }
}

/// One participant: identity, marker, position on the board and money.
/// The balance is signed and unconstrained; there is no bankruptcy rule.
pub struct Player {
    pub id: i8,
    pub avatar: Avatar,
    pub colour: String,
    pub position: usize,
    pub last_position: usize,
    pub money: i64,
}

impl Player {
    /// A new player at the start tile with the starting balance.
    pub fn new(id: i8) -> (r: Player)
        ensures
            r.id == id,
            r.position == 0,
            r.last_position == 0,
            r.money == STARTING_MONEY,
            r.colour@ == avatar_colour_spec(id as int),
            r.avatar.avatar@ == avatar_string_spec(id as int),
    {
        Player {
            id,
            avatar: Avatar::new(id),
            colour: String::from_str(Avatar::get_colour(id)),
            position: 0,
            last_position: 0,
            money: STARTING_MONEY,
        }
    }

    /// Reads the current balance.
    pub fn get_money(&self) -> (r: i64)
        ensures
            r == self.money,
    {
        self.money
    }

    /// Deducts an amount from the balance.  Balances may go negative.
    pub fn pay(&mut self, amount: i64)
        requires
            i64::MIN <= old(self).money - amount <= i64::MAX,
        ensures
            final(self).money == old(self).money - amount,
            final(self).id == old(self).id,
            final(self).avatar == old(self).avatar,
            final(self).colour == old(self).colour,
            final(self).position == old(self).position,
            final(self).last_position == old(self).last_position,
    {
        self.money = self.money - amount;
    }

    /// Adds an amount to the balance.
    pub fn collect(&mut self, amount: i64)
        requires
            i64::MIN <= old(self).money + amount <= i64::MAX,
        ensures
            final(self).money == old(self).money + amount,
            final(self).id == old(self).id,
            final(self).avatar == old(self).avatar,
            final(self).colour == old(self).colour,
            final(self).position == old(self).position,
            final(self).last_position == old(self).last_position,
    {
        self.money = self.money + amount;
    }

    /// Moves the player by a number of steps, wrapping around the board
    /// in either direction.
    pub fn walk(&mut self, steps: i8)
        requires
            old(self).position < NUMBER_OF_TILES,
            -NUMBER_OF_TILES <= steps <= NUMBER_OF_TILES,
        ensures
            final(self).position == (old(self).position + steps as int) % (NUMBER_OF_TILES as int),
            final(self).last_position == old(self).position,
            final(self).money == old(self).money,
            final(self).id == old(self).id,
            final(self).avatar == old(self).avatar,
            final(self).colour == old(self).colour,
    {
        let new_position: i8;
        let position: i8 = self.position as i8 + steps;
        if position >= NUMBER_OF_TILES {
            new_position = position - NUMBER_OF_TILES;
        } else if position < 0 {
            new_position = position + NUMBER_OF_TILES;
        } else {
            new_position = position;
        }

        self.last_position = self.position;
        self.position = new_position as usize;
    }
}

} // verus!
