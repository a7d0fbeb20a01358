use vstd::prelude::*;
use crate::text::str_eq;

verus! {

/// The set names that have a background colour assigned to them.
/// Callers are expected to pass only these; anything else is a sign of
/// malformed tile data and is rejected at load time.
pub open spec fn is_colour_set_name(s: Seq<char>) -> bool {
    ||| s == "Red"@
    ||| s == "Orange"@
    ||| s == "Yellow"@
    ||| s == "Green"@
    ||| s == "Cyan"@
    ||| s == "Blue"@
    ||| s == "Magenta"@
    ||| s == "Brown"@
    ||| s == "Railroad"@
    ||| s == "Utility"@
}

/// The ANSI background colour code that belongs to a set name.
pub open spec fn bg_set_colour_spec(s: Seq<char>) -> Seq<char> {
    if s == "Red"@ {
        "\x1b[41m"@
    } else if s == "Orange"@ {
        "\x1b[48;5;166m"@
    } else if s == "Yellow"@ {
        "\x1b[43m"@
    } else if s == "Green"@ {
        "\x1b[42m"@
    } else if s == "Cyan"@ {
        "\x1b[46m"@
    } else if s == "Blue"@ {
        "\x1b[44m"@
    } else if s == "Magenta"@ {
        "\x1b[45m"@
    } else if s == "Brown"@ {
        "\x1b[48;5;94m"@
    } else if s == "Railroad"@ {
        "\x1b[100m"@
    } else if s == "Utility"@ {
        "\x1b[47m"@
    } else {
        Seq::<char>::empty()
    }
}

/// ANSI background colour for a tile's set, used when drawing the board.
/// Unlike [`colour`], this mapping has no default: the set name must be
/// one of the known colour names.
pub fn bg_set_colour(colour: &str) -> (r: String)
    requires
        is_colour_set_name(colour@),
    ensures
        r@ == bg_set_colour_spec(colour@),
{
    if str_eq(colour, "Red") {
        String::from_str("\x1b[41m")
    } else if str_eq(colour, "Orange") {
        String::from_str("\x1b[48;5;166m")
    } else if str_eq(colour, "Yellow") {
        String::from_str("\x1b[43m")
    } else if str_eq(colour, "Green") {
        String::from_str("\x1b[42m")
    } else if str_eq(colour, "Cyan") {
        String::from_str("\x1b[46m")
    } else if str_eq(colour, "Blue") {
        String::from_str("\x1b[44m")
    } else if str_eq(colour, "Magenta") {
        String::from_str("\x1b[45m")
    } else if str_eq(colour, "Brown") {
        String::from_str("\x1b[48;5;94m")
    } else if str_eq(colour, "Railroad") {
        String::from_str("\x1b[100m")
    } else {
        String::from_str("\x1b[47m")
    }
}

/// Whether a set name has a background colour assigned, without
/// resolving it.
pub fn is_known_colour_name(name: &str) -> (r: bool)
    ensures
        r == is_colour_set_name(name@),
{
    str_eq(name, "Red") || str_eq(name, "Orange") || str_eq(name, "Yellow") || str_eq(
        name,
        "Green",
    ) || str_eq(name, "Cyan") || str_eq(name, "Blue") || str_eq(name, "Magenta") || str_eq(
        name,
        "Brown",
    ) || str_eq(name, "Railroad") || str_eq(name, "Utility")
}

/// The background colour that [`colour`] resolves a name to, with a
/// default for unknown names.
pub open spec fn colour_spec(s: Seq<char>) -> Seq<char> {
    if s == "Red"@ {
        "\x1b[48;5;009m"@
    } else if s == "Orange"@ {
        "\x1b[48;5;202m"@
    } else if s == "Yellow"@ {
        "\x1b[48;5;011m"@
    } else if s == "Green"@ {
        "\x1b[48;5;010m"@
    } else if s == "Cyan"@ {
        "\x1b[48;5;014m"@
    } else if s == "Blue"@ {
        "\x1b[48;5;012m"@
    } else if s == "Magenta"@ {
        "\x1b[48;5;013m"@
    } else if s == "Brown"@ {
        "\x1b[48;5;094m"@
    } else if s == "Gray"@ || s == "Railroad"@ {
        "\x1b[48;5;008m"@
    } else if s == "White"@ || s == "Utility"@ {
        "\x1b[48;5;015m"@
    } else {
        "\x1b[00000049m"@
    }
}

/// ANSI background colour for a colour or set name, falling back to the
/// terminal's default background for anything unknown.
pub fn colour(name: &str) -> (r: &str)
    ensures
        r@ == colour_spec(name@),
{
    if str_eq(name, "Red") {
        "\x1b[48;5;009m"
    } else if str_eq(name, "Orange") {
        "\x1b[48;5;202m"
    } else if str_eq(name, "Yellow") {
        "\x1b[48;5;011m"
    } else if str_eq(name, "Green") {
        "\x1b[48;5;010m"
    } else if str_eq(name, "Cyan") {
        "\x1b[48;5;014m"
    } else if str_eq(name, "Blue") {
        "\x1b[48;5;012m"
    } else if str_eq(name, "Magenta") {
        "\x1b[48;5;013m"
    } else if str_eq(name, "Brown") {
        "\x1b[48;5;094m"
    } else if str_eq(name, "Gray") || str_eq(name, "Railroad") {
        "\x1b[48;5;008m"
    } else if str_eq(name, "White") || str_eq(name, "Utility") {
        "\x1b[48;5;015m"
    } else {
        "\x1b[00000049m"
    }
}

} // verus!
