//! Small text-building blocks: string concatenation and decimal rendering,
//! with exact character-level specifications. Every composed artifact of the
//! launcher (container names, volume names, build arguments, error messages)
//! is assembled from these.

use vstd::prelude::*;

verus! {

/// The views of a sequence of strings, for stating contracts over
/// `Vec<String>` values element by element.
pub open spec fn str_views(v: Seq<String>) -> Seq<Seq<char>> {
    v.map_values(|s: String| s@)
}

/// The views of a sequence of byte vectors, for stating contracts over
/// `Vec<Vec<u8>>` values element by element.
pub open spec fn byte_views(v: Seq<Vec<u8>>) -> Seq<Seq<u8>> {
    v.map_values(|b: Vec<u8>| b@)
}

/// Concatenation of two string slices.
pub fn concat2(a: &str, b: &str) -> (r: String)
    ensures
        r@ == a@ + b@,
{
    let mut s = a.to_owned();
    s.append(b);
    s
}

/// Concatenation of three string slices.
pub fn concat3(a: &str, b: &str, c: &str) -> (r: String)
    ensures
        r@ == a@ + b@ + c@,
{
    let mut s = a.to_owned();
    s.append(b);
    s.append(c);
    s
}

/// Concatenation of four string slices.
pub fn concat4(a: &str, b: &str, c: &str, d: &str) -> (r: String)
    ensures
        r@ == a@ + b@ + c@ + d@,
{
    let mut s = a.to_owned();
    s.append(b);
    s.append(c);
    s.append(d);
    s
}

/// The character for one decimal digit.
pub open spec fn digit_char(d: nat) -> char {
    if d == 0 {
        '0'
    } else if d == 1 {
        '1'
    } else if d == 2 {
        '2'
    } else if d == 3 {
        '3'
    } else if d == 4 {
        '4'
    } else if d == 5 {
        '5'
    } else if d == 6 {
        '6'
    } else if d == 7 {
        '7'
    } else if d == 8 {
        '8'
    } else {
        '9'
    }
}

/// The decimal representation of a natural number, most significant digit
/// first, with no leading zeros (except for zero itself).
pub open spec fn dec_rep(n: nat) -> Seq<char>
    decreases n,
{
    if n < 10 {
        seq![digit_char(n)]
    } else {
        dec_rep(n / 10).push(digit_char(n % 10))
    }
}

/// `dec_rep` of a small number has the matching number of digits.
pub proof fn lemma_dec_rep_len(n: nat)
    ensures
        n < 10 ==> dec_rep(n).len() == 1,
        10 <= n < 100 ==> dec_rep(n).len() == 2,
        100 <= n < 1000 ==> dec_rep(n).len() == 3,
        1000 <= n < 10000 ==> dec_rep(n).len() == 4,
    decreases n,
{
    if n >= 10 {
        lemma_dec_rep_len(n / 10);
    }
}

/// Appends the character of one decimal digit.
fn push_digit(out: &mut String, d: u32)
    requires
        d < 10,
    ensures
        final(out)@ == old(out)@.push(digit_char(d as nat)),
{
    if d == 0 {
        out.append("0");
        proof {
            reveal_strlit("0");
            assert(old(out)@ + "0"@ =~= old(out)@.push('0'));
        }
    } else if d == 1 {
        out.append("1");
        proof {
            reveal_strlit("1");
            assert(old(out)@ + "1"@ =~= old(out)@.push('1'));
        }
    } else if d == 2 {
        out.append("2");
        proof {
            reveal_strlit("2");
            assert(old(out)@ + "2"@ =~= old(out)@.push('2'));
        }
    } else if d == 3 {
        out.append("3");
        proof {
            reveal_strlit("3");
            assert(old(out)@ + "3"@ =~= old(out)@.push('3'));
        }
    } else if d == 4 {
        out.append("4");
        proof {
            reveal_strlit("4");
            assert(old(out)@ + "4"@ =~= old(out)@.push('4'));
        }
    } else if d == 5 {
        out.append("5");
        proof {
            reveal_strlit("5");
            assert(old(out)@ + "5"@ =~= old(out)@.push('5'));
        }
    } else if d == 6 {
        out.append("6");
        proof {
            reveal_strlit("6");
            assert(old(out)@ + "6"@ =~= old(out)@.push('6'));
        }
    } else if d == 7 {
        out.append("7");
        proof {
            reveal_strlit("7");
            assert(old(out)@ + "7"@ =~= old(out)@.push('7'));
        }
    } else if d == 8 {
        out.append("8");
        proof {
            reveal_strlit("8");
            assert(old(out)@ + "8"@ =~= old(out)@.push('8'));
        }
    } else {
        out.append("9");
        proof {
            reveal_strlit("9");
            assert(old(out)@ + "9"@ =~= old(out)@.push('9'));
        }
    }
}

/// Appends the decimal representation of `n`.
pub fn push_decimal_u32(out: &mut String, n: u32)
    ensures
        final(out)@ == old(out)@ + dec_rep(n as nat),
    decreases n,
{
    if n >= 10 {
        push_decimal_u32(out, n / 10);
        push_digit(out, n % 10);
        proof {
            assert((old(out)@ + dec_rep((n / 10) as nat)).push(digit_char((n % 10) as nat))
                =~= old(out)@ + dec_rep(n as nat));
        }
    } else {
        push_digit(out, n);
        proof {
            assert(old(out)@.push(digit_char(n as nat)) =~= old(out)@ + dec_rep(n as nat));
        }
    }
}

/// The decimal representation of `n`, zero-padded on the left to two digits.
pub open spec fn pad2_rep(n: nat) -> Seq<char>
    recommends
        n < 100,
{
    if n < 10 {
        seq!['0'] + dec_rep(n)
    } else {
        dec_rep(n)
    }
}

/// The decimal representation of `n`, zero-padded on the left to four digits.
pub open spec fn pad4_rep(n: nat) -> Seq<char>
    recommends
        n < 10000,
{
    if n < 10 {
        seq!['0', '0', '0'] + dec_rep(n)
    } else if n < 100 {
        seq!['0', '0'] + dec_rep(n)
    } else if n < 1000 {
        seq!['0'] + dec_rep(n)
    } else {
        dec_rep(n)
    }
}

/// A two-digit zero-padded number is two characters long.
pub proof fn lemma_pad2_len(n: nat)
    requires
        n < 100,
    ensures
        pad2_rep(n).len() == 2,
{
    lemma_dec_rep_len(n);
}

/// A four-digit zero-padded number is four characters long.
pub proof fn lemma_pad4_len(n: nat)
    requires
        n < 10000,
    ensures
        pad4_rep(n).len() == 4,
{
    lemma_dec_rep_len(n);
}

/// Appends `n` zero-padded to two digits.
pub fn push_pad2(out: &mut String, n: u32)
    requires
        n < 100,
    ensures
        final(out)@ == old(out)@ + pad2_rep(n as nat),
{
    if n < 10 {
        out.append("0");
        push_decimal_u32(out, n);
        proof {
            reveal_strlit("0");
            assert("0"@ =~= seq!['0']);
            assert((old(out)@ + "0"@) + dec_rep(n as nat)
                =~= old(out)@ + (seq!['0'] + dec_rep(n as nat)));
        }
    } else {
        push_decimal_u32(out, n);
    }
}

/// Appends `n` zero-padded to four digits.
pub fn push_pad4(out: &mut String, n: u32)
    requires
        n < 10000,
    ensures
        final(out)@ == old(out)@ + pad4_rep(n as nat),
{
    if n < 10 {
        out.append("000");
        push_decimal_u32(out, n);
        proof {
            reveal_strlit("000");
            assert("000"@ =~= seq!['0', '0', '0']);
            assert((old(out)@ + "000"@) + dec_rep(n as nat)
                =~= old(out)@ + (seq!['0', '0', '0'] + dec_rep(n as nat)));
        }
    } else if n < 100 {
        out.append("00");
        push_decimal_u32(out, n);
        proof {
            reveal_strlit("00");
            assert("00"@ =~= seq!['0', '0']);
            assert((old(out)@ + "00"@) + dec_rep(n as nat)
                =~= old(out)@ + (seq!['0', '0'] + dec_rep(n as nat)));
        }
    } else if n < 1000 {
        out.append("0");
        push_decimal_u32(out, n);
        proof {
            reveal_strlit("0");
            assert("0"@ =~= seq!['0']);
            assert((old(out)@ + "0"@) + dec_rep(n as nat)
                =~= old(out)@ + (seq!['0'] + dec_rep(n as nat)));
        }
    } else {
        push_decimal_u32(out, n);
    }
}

/// The decimal representation of a (possibly negative) integer.
pub open spec fn dec_rep_i32(n: int) -> Seq<char> {
    if n < 0 {
        seq!['-'] + dec_rep((-n) as nat)
    } else {
        dec_rep(n as nat)
    }
}

/// Appends the decimal representation of `n`, with a leading minus sign when
/// it is negative.
pub fn push_decimal_i32(out: &mut String, n: i32)
    ensures
        final(out)@ == old(out)@ + dec_rep_i32(n as int),
{
    if n < 0 {
        out.append("-");
        let wide: i64 = -(n as i64);
        let mag: u32 = wide as u32;
        push_decimal_u32(out, mag);
        proof {
            reveal_strlit("-");
            assert("-"@ =~= seq!['-']);
            assert((old(out)@ + "-"@) + dec_rep(mag as nat)
                =~= old(out)@ + (seq!['-'] + dec_rep(mag as nat)));
        }
    } else {
        push_decimal_u32(out, n as u32);
    }
}

/// The decimal representation of `n` as a string.
pub fn u32_to_decimal(n: u32) -> (r: String)
    ensures
        r@ == dec_rep(n as nat),
{
    let mut s = String::new();
    push_decimal_u32(&mut s, n);
    proof {
        assert(s@ =~= dec_rep(n as nat));
    }
    s
}

} // verus!
