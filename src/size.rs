//! File sizes written for people: bytes, or KB, MB, GB (powers of 1024)
//! with one decimal.

use vstd::prelude::*;
use vstd::string::*;

verus! {

pub const KB: u64 = 1024;

pub const MB: u64 = 1048576;

pub const GB: u64 = 1073741824;

/// The decimal digit for `d`, when `d` is below ten.
pub open spec fn digit_char(d: nat) -> char {
    if d == 0 {
        '0'
    } else if d == 1 {
        '1'
    } else if d == 2 {
        '2'
    } else if d == 3 {
        '3'
    } else if d == 4 {
        '4'
    } else if d == 5 {
        '5'
    } else if d == 6 {
        '6'
    } else if d == 7 {
        '7'
    } else if d == 8 {
        '8'
    } else {
        '9'
    }
}

/// `n` in decimal, without leading zeros.
pub open spec fn decimal(n: nat) -> Seq<char>
    decreases n,
{
    if n < 10 {
        seq![digit_char(n)]
    } else {
        decimal(n / 10).push(digit_char(n % 10))
    }
}

/// `bytes / unit` in tenths, rounded to the nearest tenth, ties to even.
pub open spec fn tenths(bytes: nat, unit: nat) -> nat {
    let q = bytes * 10 / unit;
    let r = bytes * 10 % unit;
    if 2 * r > unit || (2 * r == unit && q % 2 == 1) {
        q + 1
    } else {
        q
    }
}

/// A count of tenths written with one decimal, followed by `suffix`.
pub open spec fn with_one_decimal(t: nat, suffix: Seq<char>) -> Seq<char> {
    decimal(t / 10) + seq!['.', digit_char(t % 10)] + suffix
}

/// The text for a size of `bytes`: in the largest unit it reaches, with one
/// decimal, or in bytes below one KB.
pub open spec fn size_text(bytes: u64) -> Seq<char> {
    if bytes >= GB {
        with_one_decimal(tenths(bytes as nat, GB as nat), seq![' ', 'G', 'B'])
    } else if bytes >= MB {
        with_one_decimal(tenths(bytes as nat, MB as nat), seq![' ', 'M', 'B'])
    } else if bytes >= KB {
        with_one_decimal(tenths(bytes as nat, KB as nat), seq![' ', 'K', 'B'])
    } else {
        decimal(bytes as nat) + seq![' ', 'B']
    }
}

fn digit_str(d: u64) -> (r: &'static str)
    requires
        d < 10,
    ensures
        r@ == seq![digit_char(d as nat)],
{
    proof {
        reveal_strlit("0");
        reveal_strlit("1");
        reveal_strlit("2");
        reveal_strlit("3");
        reveal_strlit("4");
        reveal_strlit("5");
        reveal_strlit("6");
        reveal_strlit("7");
        reveal_strlit("8");
        reveal_strlit("9");
    }
    if d == 0 {
        "0"
    } else if d == 1 {
        "1"
    } else if d == 2 {
        "2"
    } else if d == 3 {
        "3"
    } else if d == 4 {
        "4"
    } else if d == 5 {
        "5"
    } else if d == 6 {
        "6"
    } else if d == 7 {
        "7"
    } else if d == 8 {
        "8"
    } else {
        "9"
    }
}

/// `n` in decimal.
pub fn decimal_string(n: u64) -> (r: String)
    ensures
        r@ == decimal(n as nat),
    decreases n,
{
    if n < 10 {
        String::from_str(digit_str(n))
    } else {
        let r = decimal_string(n / 10).concat(digit_str(n % 10));
        assert(r@ =~= decimal(n as nat));
        r
    }
}

fn tenths_exec(bytes: u64, unit: u64) -> (r: u64)
    requires
        unit == KB || unit == MB || unit == GB,
    ensures
        r == tenths(bytes as nat, unit as nat),
{
    let num: u128 = bytes as u128 * 10;
    let q: u128 = num / unit as u128;
    let rem: u128 = num % unit as u128;
    assert(q <= num / 1024) by (nonlinear_arith)
        requires
            unit >= 1024,
            q == num / unit as u128,
    {
        vstd::arithmetic::div_mod::lemma_div_is_ordered_by_denominator(num as int, 1024, unit as int);
    }
    let r: u128 = if 2 * rem > unit as u128 || (2 * rem == unit as u128 && q % 2 == 1) {
        q + 1
    } else {
        q
    };
    r as u64
}

fn scaled(bytes: u64, unit: u64, suffix: &str) -> (r: String)
    requires
        unit == KB || unit == MB || unit == GB,
    ensures
        r@ == with_one_decimal(tenths(bytes as nat, unit as nat), suffix@),
{
    let t = tenths_exec(bytes, unit);
    let r = decimal_string(t / 10).concat(".").concat(digit_str(t % 10)).concat(suffix);
    proof {
        reveal_strlit(".");
    }
    assert(r@ =~= with_one_decimal(t as nat, suffix@));
    r
}

/// The size `bytes` written for people, such as `512 B`, `1.5 KB` or
/// `2.0 GB`.
pub fn human_readable_file_size(bytes: u64) -> (r: String)
    ensures
        r@ == size_text(bytes),
{
    proof {
        reveal_strlit(" GB");
        reveal_strlit(" MB");
        reveal_strlit(" KB");
        reveal_strlit(" B");
    }
    if bytes >= GB {
        scaled(bytes, GB, " GB")
    } else if bytes >= MB {
        scaled(bytes, MB, " MB")
    } else if bytes >= KB {
        scaled(bytes, KB, " KB")
    } else {
        let r = decimal_string(bytes).concat(" B");
        assert(r@ =~= size_text(bytes));
        r
    }
}

} // verus!
