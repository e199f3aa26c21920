//! Decimal rendering of integers, with proofs that the rendering is
//! injective. Alarm identities are strings built from decimal numbers, so the
//! identity proofs of the alarm engine rest on these lemmas.

use vstd::prelude::*;

verus! {

use vstd::string::StringExecFns;

/// The decimal digit character for `d`, meaningful for `d < 10`.
pub open spec fn digit_char(d: nat) -> char {
    if d == 0 {
        '0'
    } else if d == 1 {
        '1'
    } else if d == 2 {
        '2'
    } else if d == 3 {
        '3'
    } else if d == 4 {
        '4'
    } else if d == 5 {
        '5'
    } else if d == 6 {
        '6'
    } else if d == 7 {
        '7'
    } else if d == 8 {
        '8'
    } else {
        '9'
    }
}

/// Decimal rendering of a natural number, most significant digit first,
/// without sign or leading zeros (except for the single digit of zero itself).
pub open spec fn dec_nat(n: nat) -> Seq<char>
    decreases n,
{
    if n < 10 {
        seq![digit_char(n)]
    } else {
        dec_nat(n / 10) + seq![digit_char(n % 10)]
    }
}

/// Decimal rendering of an integer: a leading '-' for negative values.
pub open spec fn dec_int(n: int) -> Seq<char> {
    if n < 0 {
        seq!['-'] + dec_nat((-n) as nat)
    } else {
        dec_nat(n as nat)
    }
}

pub open spec fn is_dec_digit(c: char) -> bool {
    c == '0' || c == '1' || c == '2' || c == '3' || c == '4' || c == '5' || c == '6' || c == '7'
        || c == '8' || c == '9'
}

pub proof fn lemma_dec_nat_len(n: nat)
    ensures
        dec_nat(n).len() >= 1,
        n >= 10 ==> dec_nat(n).len() >= 2,
    decreases n,
{
    if n >= 10 {
        lemma_dec_nat_len(n / 10);
    }
}

pub proof fn lemma_dec_nat_digits(n: nat)
    ensures
        forall|i: int| 0 <= i < dec_nat(n).len() ==> is_dec_digit(#[trigger] dec_nat(n)[i]),
    decreases n,
{
    if n >= 10 {
        lemma_dec_nat_digits(n / 10);
        let p = dec_nat(n / 10);
        assert forall|i: int| 0 <= i < dec_nat(n).len() implies is_dec_digit(
            #[trigger] dec_nat(n)[i],
        ) by {
            if i < p.len() {
                assert(dec_nat(n)[i] == p[i]);
            } else {
                assert(dec_nat(n)[i] == digit_char(n % 10));
            }
        }
    }
}

/// Every character of a decimal rendering is a digit or the sign; in
/// particular, no separator such as ':' ever appears in one.
pub proof fn lemma_dec_int_chars(n: int)
    ensures
        forall|i: int|
            0 <= i < dec_int(n).len() ==> is_dec_digit(#[trigger] dec_int(n)[i]) || dec_int(
                n,
            )[i] == '-',
{
    if n < 0 {
        lemma_dec_nat_digits((-n) as nat);
        assert forall|i: int| 0 <= i < dec_int(n).len() implies is_dec_digit(
            #[trigger] dec_int(n)[i],
        ) || dec_int(n)[i] == '-' by {
            if i > 0 {
                assert(dec_int(n)[i] == dec_nat((-n) as nat)[i - 1]);
            }
        }
    } else {
        lemma_dec_nat_digits(n as nat);
    }
}

pub proof fn lemma_dec_nat_injective(a: nat, b: nat)
    requires
        dec_nat(a) == dec_nat(b),
    ensures
        a == b,
    decreases a,
{
    lemma_dec_nat_len(a);
    lemma_dec_nat_len(b);
    if a < 10 && b < 10 {
        assert(dec_nat(a)[0] == digit_char(a));
        assert(dec_nat(b)[0] == digit_char(b));
    } else if a >= 10 && b >= 10 {
        let pa = dec_nat(a / 10);
        let pb = dec_nat(b / 10);
        assert(dec_nat(a).last() == digit_char(a % 10));
        assert(dec_nat(b).last() == digit_char(b % 10));
        assert(a % 10 == b % 10);
        assert(pa =~= dec_nat(a).drop_last());
        assert(pb =~= dec_nat(b).drop_last());
        lemma_dec_nat_injective(a / 10, b / 10);
        assert(a == 10 * (a / 10) + a % 10);
        assert(b == 10 * (b / 10) + b % 10);
    } else if a < 10 {
        assert(dec_nat(a).len() == 1);
        assert(dec_nat(b).len() >= 2);
    } else {
        assert(dec_nat(b).len() == 1);
        assert(dec_nat(a).len() >= 2);
    }
}

pub proof fn lemma_dec_int_injective(a: int, b: int)
    requires
        dec_int(a) == dec_int(b),
    ensures
        a == b,
{
    if a < 0 && b < 0 {
        assert(dec_nat((-a) as nat) =~= dec_int(a).drop_first());
        assert(dec_nat((-b) as nat) =~= dec_int(b).drop_first());
        lemma_dec_nat_injective((-a) as nat, (-b) as nat);
    } else if a >= 0 && b >= 0 {
        lemma_dec_nat_injective(a as nat, b as nat);
    } else if a < 0 {
        assert(dec_int(a)[0] == '-');
        lemma_dec_nat_digits(b as nat);
        assert(is_dec_digit(dec_int(b)[0]));
    } else {
        assert(dec_int(b)[0] == '-');
        lemma_dec_nat_digits(a as nat);
        assert(is_dec_digit(dec_int(a)[0]));
    }
}

fn digit_str(d: u64) -> (r: &'static str)
    requires
        d < 10,
    ensures
        r@ == seq![digit_char(d as nat)],
{
    proof {
        reveal_strlit("0");
        reveal_strlit("1");
        reveal_strlit("2");
        reveal_strlit("3");
        reveal_strlit("4");
        reveal_strlit("5");
        reveal_strlit("6");
        reveal_strlit("7");
        reveal_strlit("8");
        reveal_strlit("9");
    }
    let r = if d == 0 {
        "0"
    } else if d == 1 {
        "1"
    } else if d == 2 {
        "2"
    } else if d == 3 {
        "3"
    } else if d == 4 {
        "4"
    } else if d == 5 {
        "5"
    } else if d == 6 {
        "6"
    } else if d == 7 {
        "7"
    } else if d == 8 {
        "8"
    } else {
        "9"
    };
    proof {
        assert(r@ =~= seq![digit_char(d as nat)]);
    }
    r
}

pub fn u64_to_string(n: u64) -> (r: String)
    ensures
        r@ == dec_nat(n as nat),
    decreases n,
{
    if n < 10 {
        let s = digit_str(n);
        s.to_owned()
    } else {
        let mut prefix = u64_to_string(n / 10);
        let d = digit_str(n % 10);
        prefix.append(d);
        proof {
            assert(prefix@ =~= dec_nat((n / 10) as nat) + seq![digit_char((n % 10) as nat)]);
        }
        prefix
    }
}

pub fn i64_to_string(n: i64) -> (r: String)
    ensures
        r@ == dec_int(n as int),
{
    if n >= 0 {
        u64_to_string(n as u64)
    } else {
        let mag: u64 = ((-(n + 1)) as u64) + 1;
        let mut s = String::from_str("-");
        proof {
            reveal_strlit("-");
            assert(s@ =~= seq!['-']);
            assert(mag as nat == (-(n as int)) as nat);
        }
        let rest = u64_to_string(mag);
        s.append(rest.as_str());
        proof {
            assert(s@ =~= seq!['-'] + dec_nat((-(n as int)) as nat));
        }
        s
    }
}

} // verus!
