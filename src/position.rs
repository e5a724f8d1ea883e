use vstd::prelude::*;
use vstd::string::*;

verus! {

/// The letter that names column `x` of the grid.
pub open spec fn column_letter(x: int) -> char {
    seq!['A', 'B', 'C', 'D', 'E', 'F', 'G', 'H', 'I', 'J'][x]
}

/// The decimal digit for `d`.
pub open spec fn digit_char(d: int) -> char {
    seq!['0', '1', '2', '3', '4', '5', '6', '7', '8', '9'][d]
}

/// The decimal numeral of `n`, without leading zeros.
pub open spec fn decimal(n: nat) -> Seq<char>
    decreases n,
{
    if n < 10 {
        seq![digit_char(n as int)]
    } else {
        decimal(n / 10) + seq![digit_char((n % 10) as int)]
    }
}

/// The name of grid position `pos` = `x + 10 * y`: the column letter of `x`
/// followed by the row number `y`.
pub fn xy_pos(pos: u8) -> (r: String)
    ensures
        r@ == seq![column_letter(pos as int % 10)] + decimal((pos / 10) as nat),
{
    let letters = "ABCDEFGHIJ";
    let digits = "0123456789";
    proof {
        reveal_strlit("ABCDEFGHIJ");
        reveal_strlit("0123456789");
    }
    let x = (pos % 10) as usize;
    let y: u8 = pos / 10;
    let mut s = String::from_str(letters.substring_char(x, x + 1));
    assert(s@ =~= seq![column_letter(pos as int % 10)]);
    if y >= 10 {
        let t = (y / 10) as usize;
        s.append(digits.substring_char(t, t + 1));
    }
    let u = (y % 10) as usize;
    let ghost before = s@;
    s.append(digits.substring_char(u, u + 1));
    proof {
        if y >= 10 {
            assert(decimal((y / 10) as nat) =~= seq![digit_char((y / 10) as int)]);
        }
        assert(s@ =~= before + seq![digit_char((y % 10) as int)]);
    }
    s
}

} // verus!
