//! Character and string helpers shared by the record model: case folding of
//! tag keys and decimal rendering of track numbers.

use vstd::prelude::*;
use vstd::string::StringExecFns;

verus! {

/// ASCII lowercase of one character; anything outside 'A'..='Z' is unchanged.
pub open spec fn ascii_lower_char(c: char) -> char {
    if 'A' <= c && c <= 'Z' {
        ((c as u8) + 32) as char
    } else {
        c
    }
}

/// ASCII lowercase of a character sequence.
pub open spec fn ascii_lower(s: Seq<char>) -> Seq<char> {
    s.map_values(|c: char| ascii_lower_char(c))
}

/// The Unicode lowercase of a character sequence, as `str::to_lowercase`
/// computes it. It depends on the characters alone.
pub uninterp spec fn lower_of(s: Seq<char>) -> Seq<char>;

/// Relies on `str::to_lowercase`: the result is a function of the input
/// characters alone, and on all-ASCII input it is exactly the per-character
/// ASCII case fold (each of 'A'..='Z' moved to 'a'..='z', the rest kept).
#[verifier::external_body]
pub(crate) fn lowercase(s: &str) -> (r: String)
    ensures
        r@ == lower_of(s@),
        vstd::utf8::is_ascii_chars(s@) ==> r@ == ascii_lower(s@),
{
    s.to_lowercase()
}

/// A decimal digit.
pub open spec fn is_digit(c: char) -> bool {
    '0' <= c && c <= '9'
}

/// Numeric value of a decimal digit.
pub open spec fn digit_val(c: char) -> int {
    c as int - '0' as int
}

/// The digit character for a value below ten.
pub open spec fn digit_char(d: int) -> char {
    if d == 0 {
        '0'
    } else if d == 1 {
        '1'
    } else if d == 2 {
        '2'
    } else if d == 3 {
        '3'
    } else if d == 4 {
        '4'
    } else if d == 5 {
        '5'
    } else if d == 6 {
        '6'
    } else if d == 7 {
        '7'
    } else if d == 8 {
        '8'
    } else {
        '9'
    }
}

/// The decimal representation of a natural number, without leading zeros
/// (except for zero itself).
pub open spec fn dec_rep(n: nat) -> Seq<char>
    decreases n,
{
    if n < 10 {
        seq![digit_char(n as int)]
    } else {
        dec_rep(n / 10).push(digit_char((n % 10) as int))
    }
}

/// The digit characters of a value list read back to front: the list holds
/// digits least significant first, the result is most significant first.
pub open spec fn digit_seq(ds: Seq<u64>) -> Seq<char>
    decreases ds.len(),
{
    if ds.len() == 0 {
        Seq::empty()
    } else {
        seq![digit_char(ds.last() as int)] + digit_seq(ds.drop_last())
    }
}

/// A one-character string literal for each digit value.
fn digit_str(d: u64) -> (r: &'static str)
    requires
        d < 10,
    ensures
        r@ == seq![digit_char(d as int)],
{
    proof {
        reveal_strlit("0");
        reveal_strlit("1");
        reveal_strlit("2");
        reveal_strlit("3");
        reveal_strlit("4");
        reveal_strlit("5");
        reveal_strlit("6");
        reveal_strlit("7");
        reveal_strlit("8");
        reveal_strlit("9");
    }
    match d {
        0 => "0",
        1 => "1",
        2 => "2",
        3 => "3",
        4 => "4",
        5 => "5",
        6 => "6",
        7 => "7",
        8 => "8",
        _ => "9",
    }
}

/// Renders a number in decimal, as the track number is displayed.
pub(crate) fn u64_to_string(n: u64) -> (s: String)
    ensures
        s@ == dec_rep(n as nat),
{
    let mut digits: Vec<u64> = Vec::new();
    let mut m: u64 = n;
    if m == 0 {
        let s = String::from_str("0");
        proof {
            reveal_strlit("0");
            assert(s@ =~= dec_rep(0));
        }
        return s;
    }
    proof {
        assert(dec_rep(n as nat) =~= dec_rep(n as nat) + digit_seq(digits@));
    }
    while m > 0
        invariant
            m > 0 ==> dec_rep(n as nat) == dec_rep(m as nat) + digit_seq(digits@),
            m == 0 ==> digits@.len() > 0 && dec_rep(n as nat) == digit_seq(digits@),
            forall|j: int| 0 <= j < digits@.len() ==> digits@[j] < 10,
        decreases m,
    {
        let ghost m0 = m as nat;
        let ghost ds0 = digits@;
        let d = m % 10;
        digits.push(d);
        m = m / 10;
        proof {
            assert(digits@.drop_last() =~= ds0);
            assert(digits@.last() == d);
            assert(digit_seq(digits@) =~= seq![digit_char(d as int)] + digit_seq(ds0));
            if m0 < 10 {
                assert(dec_rep(m0) =~= seq![digit_char(m0 as int)]);
                assert(dec_rep(n as nat) =~= digit_seq(digits@));
            } else {
                assert(dec_rep(m0) =~= dec_rep(m0 / 10) + seq![digit_char((m0 % 10) as int)]);
                assert(dec_rep(n as nat) =~= dec_rep(m as nat) + digit_seq(digits@));
            }
        }
    }
    let mut s = String::new();
    let mut i: usize = digits.len();
    proof {
        assert(digits@.take(i as int) =~= digits@);
        assert(s@ + digit_seq(digits@.take(i as int)) =~= digit_seq(digits@));
    }
    while i > 0
        invariant
            i <= digits@.len(),
            forall|j: int| 0 <= j < digits@.len() ==> digits@[j] < 10,
            s@ + digit_seq(digits@.take(i as int)) == dec_rep(n as nat),
            digit_seq(digits@) == dec_rep(n as nat),
        decreases i,
    {
        i = i - 1;
        let ghost s0 = s@;
        s.append(digit_str(digits[i]));
        proof {
            let tk1 = digits@.take(i as int + 1);
            assert(tk1.len() > 0);
            assert(tk1.drop_last() =~= digits@.take(i as int));
            assert(tk1.last() == digits@[i as int]);
            assert(digit_seq(tk1) =~= seq![digit_char(digits@[i as int] as int)] + digit_seq(
                digits@.take(i as int),
            ));
            assert(s@ + digit_seq(digits@.take(i as int)) =~= s0 + digit_seq(tk1));
        }
    }
    proof {
        assert(digits@.take(0) =~= Seq::<u64>::empty());
        assert(s@ + digit_seq(digits@.take(0)) =~= s@);
    }
    s
}

} // verus!
