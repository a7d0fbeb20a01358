use vstd::prelude::*;

verus! {

/// Relies on `str`'s `PartialEq` implementation: two string slices are
/// equal exactly when they hold the same sequence of characters.
#[verifier::external_body]
pub(crate) fn str_eq(a: &str, b: &str) -> (r: bool)
    ensures
        r == (a@ == b@),
{
    a == b
}

/// The character of one decimal digit.
pub open spec fn decimal_digit(d: int) -> char {
    if d == 0 {
        '0'
    } else if d == 1 {
        '1'
    } else if d == 2 {
        '2'
    } else if d == 3 {
        '3'
    } else if d == 4 {
        '4'
    } else if d == 5 {
        '5'
    } else if d == 6 {
        '6'
    } else if d == 7 {
        '7'
    } else if d == 8 {
        '8'
    } else {
        '9'
    }
}

/// The usual decimal notation of a non-negative number, most
/// significant digit first, without leading zeroes.
pub open spec fn decimal_spec(n: int) -> Seq<char>
    decreases n,
{
    if n < 10 {
        seq![decimal_digit(n)]
    } else {
        decimal_spec(n / 10).push(decimal_digit(n % 10))
    }
}

/// A run of spaces.
pub open spec fn spaces_spec(n: int) -> Seq<char>
    decreases n,
{
    if n <= 0 {
        Seq::<char>::empty()
    } else {
        spaces_spec(n - 1).push(' ')
    }
}

/// Text centred in a field: short text sits between two runs of
/// spaces, the wider one on the right; long text stays as it is.
pub open spec fn centered_spec(s: Seq<char>, width: int) -> Seq<char> {
    if s.len() >= width {
        s
    } else {
        spaces_spec((width - s.len()) / 2) + s + spaces_spec(
            width - s.len() - (width - s.len()) / 2,
        )
    }
}

/// One decimal digit as a string slice.
fn digit_str(d: usize) -> (r: &'static str)
    requires
        d < 10,
    ensures
        r@ == seq![decimal_digit(d as int)],
{
    proof {
        reveal_strlit("0");
        reveal_strlit("1");
        reveal_strlit("2");
        reveal_strlit("3");
        reveal_strlit("4");
        reveal_strlit("5");
        reveal_strlit("6");
        reveal_strlit("7");
        reveal_strlit("8");
        reveal_strlit("9");
    }
    let r: &'static str = match d {
        0 => "0",
        1 => "1",
        2 => "2",
        3 => "3",
        4 => "4",
        5 => "5",
        6 => "6",
        7 => "7",
        8 => "8",
        _ => "9",
    };
    proof {
        assert(r@ =~= seq![decimal_digit(d as int)]);
    }
    r
}

/// Writes a number in decimal.
pub fn usize_to_decimal(n: usize) -> (r: String)
    ensures
        r@ == decimal_spec(n as int),
    decreases n,
{
    if n < 10 {
        String::from_str(digit_str(n))
    } else {
        let mut s: String = usize_to_decimal(n / 10);
        s.append(digit_str(n % 10));
        proof {
            assert(s@ =~= decimal_spec(n as int));
        }
        s
    }
}

/// A run of spaces of the given length.
pub fn spaces(n: usize) -> (r: String)
    ensures
        r@ == spaces_spec(n as int),
{
    proof {
        reveal_strlit(" ");
    }
    let mut s: String = String::new();
    let mut i: usize = 0;
    while i < n
        invariant
            0 <= i <= n,
            s@ =~= spaces_spec(i as int),
        decreases n - i,
    {
        s.append(" ");
        proof {
            reveal_strlit(" ");
            assert(s@ =~= spaces_spec(i + 1));
        }
        i = i + 1;
    }
    s
}

/// Centres text in a field of the given width; text at least as wide
/// as the field stays as it is.
pub fn pad_center(s: &str, width: usize) -> (r: String)
    ensures
        r@ == centered_spec(s@, width as int),
{
    let len: usize = s.unicode_len();
    if len >= width {
        String::from_str(s)
    } else {
        let left: usize = (width - len) / 2;
        let mut out: String = spaces(left);
        out.append(s);
        let right: usize = width - len - left;
        let right_pad: String = spaces(right);
        out.append(right_pad.as_str());
        proof {
            assert(out@ =~= centered_spec(s@, width as int));
        }
        out
    }
}

} // verus!
