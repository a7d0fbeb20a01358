use vstd::prelude::*;
use crate::text::str_eq;

verus! {

/// Fixed-width ANSI colour codes for the board string.  Every code this
/// type hands out has the same character length, so substituting one
/// into the board string never disturbs its layout.
pub struct Colour;

/// The code [`Colour::background`] resolves a name to.
pub open spec fn background_spec(s: Seq<char>) -> Seq<char> {
    if s == "Red"@ {
        "\x1b[48;5;009m"@
    } else if s == "Orange"@ {
        "\x1b[48;5;202m"@
    } else if s == "Yellow"@ {
        "\x1b[48;5;011m"@
    } else if s == "Green"@ {
        "\x1b[48;5;010m"@
    } else if s == "Cyan"@ {
        "\x1b[48;5;014m"@
    } else if s == "Blue"@ {
        "\x1b[48;5;012m"@
    } else if s == "Magenta"@ {
        "\x1b[48;5;013m"@
    } else if s == "Brown"@ {
        "\x1b[48;5;094m"@
    } else if s == "Gray"@ || s == "Railroad"@ {
        "\x1b[48;5;008m"@
    } else if s == "White"@ || s == "Utility"@ {
        "\x1b[48;5;015m"@
    } else if s == "Black"@ || s == "Event"@ {
        "\x1b[48;5;000m"@
    } else {
        "\x1b[00000049m"@
    }
}

/// The code [`Colour::foreground`] resolves a name to.
pub open spec fn foreground_spec(s: Seq<char>) -> Seq<char> {
    if s == "Bright Cyan"@ {
        "\x1b[96m"@
    } else if s == "Bright Green"@ {
        "\x1b[92m"@
    } else if s == "Bright Red"@ {
        "\x1b[91m"@
    } else if s == "Bright Magenta"@ {
        "\x1b[95m"@
    } else {
        "\x1b[39m"@
    }
}

impl Colour {
    /// Background colour code for a colour or set name, with the
    /// terminal's default background for anything unknown.
    pub fn background<'a>(colour: &'a str) -> (r: &'a str)
        ensures
            r@ == background_spec(colour@),
    {
        if str_eq(colour, "Red") {
            "\x1b[48;5;009m"
        } else if str_eq(colour, "Orange") {
            "\x1b[48;5;202m"
        } else if str_eq(colour, "Yellow") {
            "\x1b[48;5;011m"
        } else if str_eq(colour, "Green") {
            "\x1b[48;5;010m"
        } else if str_eq(colour, "Cyan") {
            "\x1b[48;5;014m"
        } else if str_eq(colour, "Blue") {
            "\x1b[48;5;012m"
        } else if str_eq(colour, "Magenta") {
            "\x1b[48;5;013m"
        } else if str_eq(colour, "Brown") {
            "\x1b[48;5;094m"
        } else if str_eq(colour, "Gray") || str_eq(colour, "Railroad") {
            "\x1b[48;5;008m"
        } else if str_eq(colour, "White") || str_eq(colour, "Utility") {
            "\x1b[48;5;015m"
        } else if str_eq(colour, "Black") || str_eq(colour, "Event") {
            "\x1b[48;5;000m"
        } else {
            "\x1b[00000049m"
        }
    }

    /// Foreground colour code for a player colour name, with the
    /// terminal's default foreground for anything unknown.
    pub fn foreground<'a>(colour: &'a str) -> (r: &'a str)
        ensures
            r@ == foreground_spec(colour@),
    {
        if str_eq(colour, "Bright Cyan") {
            "\x1b[96m"
        } else if str_eq(colour, "Bright Green") {
            "\x1b[92m"
        } else if str_eq(colour, "Bright Red") {
            "\x1b[91m"
        } else if str_eq(colour, "Bright Magenta") {
            "\x1b[95m"
        } else {
            "\x1b[39m"
        }
    }
}

} // verus!
