use vstd::prelude::*;

verus! {

/// The ASCII byte for a single decimal digit.
pub open spec fn dec_digit_byte(d: int) -> u8 {
    (48 + d) as u8
}

/// The decimal digits of a non-negative integer, as ASCII bytes, most
/// significant first, with no leading zeros (`0` is the one digit `"0"`).
pub open spec fn dec_bytes(n: int) -> Seq<u8>
    recommends
        n >= 0,
    decreases n,
{
    if n < 10 {
        seq![dec_digit_byte(n)]
    } else {
        dec_bytes(n / 10).push(dec_digit_byte(n % 10))
    }
}

/// The decimal rendering of a signed 32-bit value, as ASCII bytes: a minus
/// sign followed by the digits of the magnitude when negative, the digits
/// alone otherwise.
pub open spec fn i32_bytes(n: int) -> Seq<u8> {
    if n < 0 {
        seq![45u8] + dec_bytes(-n)
    } else {
        dec_bytes(n)
    }
}

/// A single decimal digit as a character.
pub open spec fn dec_digit_char(d: int) -> char {
    if d == 0 {
        '0'
    } else if d == 1 {
        '1'
    } else if d == 2 {
        '2'
    } else if d == 3 {
        '3'
    } else if d == 4 {
        '4'
    } else if d == 5 {
        '5'
    } else if d == 6 {
        '6'
    } else if d == 7 {
        '7'
    } else if d == 8 {
        '8'
    } else {
        '9'
    }
}

/// The decimal digits of a non-negative integer, as characters.
pub open spec fn dec_chars(n: int) -> Seq<char>
    recommends
        n >= 0,
    decreases n,
{
    if n < 10 {
        seq![dec_digit_char(n)]
    } else {
        dec_chars(n / 10).push(dec_digit_char(n % 10))
    }
}

/// The decimal rendering of a signed 32-bit value, as characters.
pub open spec fn i32_chars(n: int) -> Seq<char> {
    if n < 0 {
        seq!['-'] + dec_chars(-n)
    } else {
        dec_chars(n)
    }
}

/// The integer a sequence of ASCII digit bytes denotes, read left to right.
pub open spec fn dec_val(s: Seq<u8>) -> int
    decreases s.len(),
{
    if s.len() == 0 {
        0
    } else {
        dec_val(s.drop_last()) * 10 + (s.last() - 48)
    }
}

/// Reading back the decimal rendering of `n` yields `n`.
pub proof fn lemma_dec_val_of_dec_bytes(n: int)
    requires
        n >= 0,
    ensures
        dec_val(dec_bytes(n)) == n,
    decreases n,
{
    if n < 10 {
        let s = dec_bytes(n);
        assert(s.len() == 1);
        assert(s.last() == dec_digit_byte(n));
        assert(s.drop_last() =~= Seq::<u8>::empty());
        assert(dec_val(s) == dec_val(s.drop_last()) * 10 + (s.last() - 48));
        assert(s.last() - 48 == n);
    } else {
        lemma_dec_val_of_dec_bytes(n / 10);
        let s = dec_bytes(n);
        assert(s.last() == dec_digit_byte(n % 10));
        assert(s.drop_last() =~= dec_bytes(n / 10));
        assert(s.last() - 48 == n % 10);
        vstd::arithmetic::div_mod::lemma_fundamental_div_mod(n, 10);
        assert(dec_val(s) == (n / 10) * 10 + n % 10);
    }
}

/// Distinct non-negative integers have distinct decimal renderings.
pub proof fn lemma_dec_bytes_injective(a: int, b: int)
    requires
        a >= 0,
        b >= 0,
        dec_bytes(a) == dec_bytes(b),
    ensures
        a == b,
{
    lemma_dec_val_of_dec_bytes(a);
    lemma_dec_val_of_dec_bytes(b);
}

/// Every byte of a decimal rendering is an ASCII digit.
pub proof fn lemma_dec_bytes_are_digits(n: int)
    requires
        n >= 0,
    ensures
        dec_bytes(n).len() >= 1,
        forall|i: int|
            0 <= i < dec_bytes(n).len() ==> 48 <= #[trigger] dec_bytes(n)[i] <= 57,
    decreases n,
{
    if n < 10 {
    } else {
        lemma_dec_bytes_are_digits(n / 10);
        assert forall|i: int| 0 <= i < dec_bytes(n).len() implies 48 <= #[trigger] dec_bytes(
            n,
        )[i] <= 57 by {
            if i < dec_bytes(n / 10).len() {
                assert(dec_bytes(n)[i] == dec_bytes(n / 10)[i]);
            } else {
                assert(dec_bytes(n)[i] == dec_digit_byte(n % 10));
            }
        }
    }
}

/// A rendering of a positive integer never starts with the digit zero.
pub proof fn lemma_dec_bytes_no_leading_zero(n: int)
    requires
        n >= 1,
    ensures
        dec_bytes(n)[0] >= 49,
    decreases n,
{
    if n < 10 {
    } else {
        lemma_dec_bytes_no_leading_zero(n / 10);
        assert(dec_bytes(n)[0] == dec_bytes(n / 10)[0]);
    }
}

/// Reading back any non-empty prefix of the rendering of `n` yields a value
/// no greater than `n`.
pub proof fn lemma_dec_prefix_bound(n: int, k: int)
    requires
        n >= 0,
        0 <= k <= dec_bytes(n).len(),
    ensures
        dec_val(dec_bytes(n).take(k)) <= n,
    decreases n,
{
    if k == dec_bytes(n).len() {
        assert(dec_bytes(n).take(k) =~= dec_bytes(n));
        lemma_dec_val_of_dec_bytes(n);
    } else if n < 10 {
        assert(k == 0);
        assert(dec_bytes(n).take(0) =~= Seq::<u8>::empty());
    } else {
        assert(dec_bytes(n).take(k) =~= dec_bytes(n / 10).take(k));
        lemma_dec_prefix_bound(n / 10, k);
    }
}

/// The decimal digits of a 32-bit magnitude, as ASCII bytes.
pub fn dec_u32_bytes(n: u32) -> (r: Vec<u8>)
    ensures
        r@ == dec_bytes(n as int),
    decreases n,
{
    if n < 10 {
        let mut v: Vec<u8> = Vec::new();
        v.push(48 + n as u8);
        proof {
            assert(v@ =~= dec_bytes(n as int));
        }
        v
    } else {
        let mut v = dec_u32_bytes(n / 10);
        v.push(48 + (n % 10) as u8);
        v
    }
}

/// The decimal rendering of a signed 32-bit value, as ASCII bytes.
pub fn i32_dec_bytes(n: i32) -> (r: Vec<u8>)
    ensures
        r@ == i32_bytes(n as int),
{
    if n < 0 {
        let m: u32 = (-(n as i64)) as u32;
        proof {
            assert(m as int == -(n as int));
        }
        let mut v: Vec<u8> = Vec::new();
        v.push(45);
        let mut d = dec_u32_bytes(m);
        v.append(&mut d);
        proof {
            assert(v@ =~= i32_bytes(n as int));
        }
        v
    } else {
        dec_u32_bytes(n as u32)
    }
}

/// A one-character string for a single decimal digit.
pub fn dec_digit_str(d: u32) -> (s: &'static str)
    requires
        d < 10,
    ensures
        s@ == seq![dec_digit_char(d as int)],
{
    proof {
        reveal_strlit("0");
        reveal_strlit("1");
        reveal_strlit("2");
        reveal_strlit("3");
        reveal_strlit("4");
        reveal_strlit("5");
        reveal_strlit("6");
        reveal_strlit("7");
        reveal_strlit("8");
        reveal_strlit("9");
    }
    let s: &'static str = if d == 0 {
        "0"
    } else if d == 1 {
        "1"
    } else if d == 2 {
        "2"
    } else if d == 3 {
        "3"
    } else if d == 4 {
        "4"
    } else if d == 5 {
        "5"
    } else if d == 6 {
        "6"
    } else if d == 7 {
        "7"
    } else if d == 8 {
        "8"
    } else {
        "9"
    };
    proof {
        assert(s@ =~= seq![dec_digit_char(d as int)]);
    }
    s
}

/// The decimal digits of a 32-bit magnitude, as a string.
pub fn dec_u32_string(n: u32) -> (s: String)
    ensures
        s@ == dec_chars(n as int),
    decreases n,
{
    if n < 10 {
        let s = String::from_str(dec_digit_str(n));
        proof {
            assert(s@ =~= dec_chars(n as int));
        }
        s
    } else {
        let mut s = dec_u32_string(n / 10);
        s.append(dec_digit_str(n % 10));
        proof {
            assert(s@ =~= dec_chars(n as int));
        }
        s
    }
}

/// The decimal rendering of a signed 32-bit value, as a string.
pub fn i32_dec_string(n: i32) -> (s: String)
    ensures
        s@ == i32_chars(n as int),
{
    if n < 0 {
        let m: u32 = (-(n as i64)) as u32;
        proof {
            assert(m as int == -(n as int));
        }
        let mut s = String::from_str("-");
        let d = dec_u32_string(m);
        s.append(d.as_str());
        proof {
            reveal_strlit("-");
            assert(s@ =~= i32_chars(n as int));
        }
        s
    } else {
        let s = dec_u32_string(n as u32);
        s
    }
}

} // verus!
