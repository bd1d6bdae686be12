use vstd::prelude::*;

use crate::amount::{Amount, BASE64};

verus! {

/// One wei-to-ether scaling step: the chain's base unit is 10^-18 of the
/// display unit.
pub const POW10_18: u64 = 1_000_000_000_000_000_000;

/// The decimal digit character for `d < 10`.
pub open spec fn digit_char(d: nat) -> char {
    if d == 0 {
        '0'
    } else if d == 1 {
        '1'
    } else if d == 2 {
        '2'
    } else if d == 3 {
        '3'
    } else if d == 4 {
        '4'
    } else if d == 5 {
        '5'
    } else if d == 6 {
        '6'
    } else if d == 7 {
        '7'
    } else if d == 8 {
        '8'
    } else {
        '9'
    }
}

/// The decimal digits of `n`, most significant first, with no leading
/// zeroes (a single `'0'` for zero).
pub open spec fn dec_digits(n: nat) -> Seq<char>
    decreases n,
{
    if n < 10 {
        seq![digit_char(n)]
    } else {
        dec_digits(n / 10).push(digit_char(n % 10))
    }
}

/// Exactly `w` decimal digits of `n`, zero-padded at the front.
pub open spec fn fixed_digits(n: nat, w: nat) -> Seq<char>
    decreases w,
{
    if w == 0 {
        Seq::empty()
    } else {
        fixed_digits(n / 10, (w - 1) as nat).push(digit_char(n % 10))
    }
}

/// Quotient and remainder of a 256-bit amount by a small divisor, computed
/// limb by limb from the top.
pub fn div_rem_u64(a: Amount, d: u64) -> (qr: (Amount, u64))
    requires
        d >= 1,
    ensures
        qr.0.value() * d + qr.1 == a.value(),
        qr.1 < d,
{
    let l3: u64 = (a.hi / BASE64) as u64;
    let l2: u64 = (a.hi % BASE64) as u64;
    let l1: u64 = (a.lo / BASE64) as u64;
    let l0: u64 = (a.lo % BASE64) as u64;
    let (q3, r3) = div_step(0, l3, d);
    let (q2, r2) = div_step(r3, l2, d);
    let (q1, r1) = div_step(r2, l1, d);
    let (q0, r0) = div_step(r1, l0, d);
    let q = Amount { hi: (q3 as u128) * BASE64 + (q2 as u128), lo: (q1 as u128) * BASE64 + (q0 as u128) };
    proof {
        let b: int = 0x1_0000_0000_0000_0000;
        assert(q.value() * d + r0 == a.value()) by (nonlinear_arith)
            requires
                b == 0x1_0000_0000_0000_0000,
                (a.hi as int) == (l3 as int) * b + (l2 as int),
                (a.lo as int) == (l1 as int) * b + (l0 as int),
                (l3 as int) == (q3 as int) * d + (r3 as int),
                (r3 as int) * b + (l2 as int) == (q2 as int) * d + (r2 as int),
                (r2 as int) * b + (l1 as int) == (q1 as int) * d + (r1 as int),
                (r1 as int) * b + (l0 as int) == (q0 as int) * d + (r0 as int),
                (q.hi as int) == (q3 as int) * b + (q2 as int),
                (q.lo as int) == (q1 as int) * b + (q0 as int),
                q.value() == (q.hi as int) * (b * b) + (q.lo as int),
                a.value() == (a.hi as int) * (b * b) + (a.lo as int),
        ;
    }
    (q, r0)
}

/// One limb of schoolbook division: divides `r * 2^64 + limb` by `d`,
/// where the carried remainder `r` is already reduced.
fn div_step(r: u64, limb: u64, d: u64) -> (qr: (u64, u64))
    requires
        d >= 1,
        r < d,
    ensures
        (qr.0 as nat) * d + qr.1 == (r as nat) * 0x1_0000_0000_0000_0000 + limb,
        qr.1 < d,
{
    proof {
        assert((r as int) * 0x1_0000_0000_0000_0000int + limb < 0x100000000000000000000000000000000int)
            by (nonlinear_arith)
            requires
                r < 0x1_0000_0000_0000_0000,
                limb < 0x1_0000_0000_0000_0000,
        ;
    }
    let cur: u128 = (r as u128) * BASE64 + (limb as u128);
    let q: u128 = cur / (d as u128);
    let rem: u128 = cur % (d as u128);
    proof {
        vstd::arithmetic::div_mod::lemma_fundamental_div_mod(cur as int, d as int);
        assert(q < 0x1_0000_0000_0000_0000) by (nonlinear_arith)
            requires
                (q as int) * d + rem == cur,
                rem >= 0,
                d >= 1,
                (cur as int) < (d as int) * 0x1_0000_0000_0000_0000int,
        ;
    }
    ((q as u64), (rem as u64))
}

/// The single-character string for a digit.
fn digit_string(d: u64) -> (r: String)
    requires
        d < 10,
    ensures
        r@ == seq![digit_char(d as nat)],
{
    if d == 0 {
        proof {
            reveal_strlit("0");
            assert("0"@ =~= seq![digit_char(d as nat)]);
        }
        "0".to_owned()
    } else if d == 1 {
        proof {
            reveal_strlit("1");
            assert("1"@ =~= seq![digit_char(d as nat)]);
        }
        "1".to_owned()
    } else if d == 2 {
        proof {
            reveal_strlit("2");
            assert("2"@ =~= seq![digit_char(d as nat)]);
        }
        "2".to_owned()
    } else if d == 3 {
        proof {
            reveal_strlit("3");
            assert("3"@ =~= seq![digit_char(d as nat)]);
        }
        "3".to_owned()
    } else if d == 4 {
        proof {
            reveal_strlit("4");
            assert("4"@ =~= seq![digit_char(d as nat)]);
        }
        "4".to_owned()
    } else if d == 5 {
        proof {
            reveal_strlit("5");
            assert("5"@ =~= seq![digit_char(d as nat)]);
        }
        "5".to_owned()
    } else if d == 6 {
        proof {
            reveal_strlit("6");
            assert("6"@ =~= seq![digit_char(d as nat)]);
        }
        "6".to_owned()
    } else if d == 7 {
        proof {
            reveal_strlit("7");
            assert("7"@ =~= seq![digit_char(d as nat)]);
        }
        "7".to_owned()
    } else if d == 8 {
        proof {
            reveal_strlit("8");
            assert("8"@ =~= seq![digit_char(d as nat)]);
        }
        "8".to_owned()
    } else {
        proof {
            reveal_strlit("9");
            assert("9"@ =~= seq![digit_char(d as nat)]);
        }
        "9".to_owned()
    }
}

/// The exact decimal rendering of an amount.
pub fn decimal_string(a: Amount) -> (r: String)
    ensures
        r@ == dec_digits(a.value()),
    decreases a.value(),
{
    if a.hi == 0 && a.lo < 10 {
        digit_string(a.lo as u64)
    } else {
        let (q, rem) = div_rem_u64(a, 10);
        proof {
            vstd::arithmetic::div_mod::lemma_fundamental_div_mod_converse(
                a.value() as int,
                10,
                q.value() as int,
                rem as int,
            );
            assert(q.value() < a.value()) by (nonlinear_arith)
                requires
                    q.value() * 10 + rem == a.value(),
                    rem >= 0,
                    a.value() >= 10,
            ;
        }
        let mut s = decimal_string(q);
        let ds = digit_string(rem);
        s.append(ds.as_str());
        s
    }
}

/// Exactly `w` decimal digits of `n`, zero-padded at the front.
fn fixed_string(n: u64, w: u64) -> (r: String)
    ensures
        r@ == fixed_digits(n as nat, w as nat),
    decreases w,
{
    if w == 0 {
        String::new()
    } else {
        let mut s = fixed_string(n / 10, w - 1);
        let ds = digit_string(n % 10);
        s.append(ds.as_str());
        s
    }
}

/// The display rendering of an amount: the exact integer wei value, and the
/// same value scaled to ether shown with eighteen decimal places.
pub open spec fn wei_eth_display(v: nat) -> Seq<char> {
    dec_digits(v) + " wei (~"@ + dec_digits(v / 1000000000000000000) + "."@ + fixed_digits(
        v % 1000000000000000000,
        18,
    ) + " ETH)"@
}

/// Renders an amount for the console, as raw wei and as approximate ether.
pub fn format_wei_eth(value: &Amount) -> (r: String)
    ensures
        r@ == wei_eth_display(value.value()),
{
    let (eth, frac) = div_rem_u64(*value, POW10_18);
    proof {
        vstd::arithmetic::div_mod::lemma_fundamental_div_mod_converse(
            value.value() as int,
            1000000000000000000,
            eth.value() as int,
            frac as int,
        );
    }
    let mut s = decimal_string(*value);
    s.append(" wei (~");
    let eth_s = decimal_string(eth);
    s.append(eth_s.as_str());
    s.append(".");
    let frac_s = fixed_string(frac, 18);
    s.append(frac_s.as_str());
    s.append(" ETH)");
    s
}

} // verus!
