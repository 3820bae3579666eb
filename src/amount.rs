//! Fixed-point decimal rendering of 256-bit amounts.
use vstd::prelude::*;

use crate::felt::FieldElement;

verus! {

/// The decimal digits of `v`, least significant first; zero has the single
/// digit 0.
pub open spec fn dec_digits(v: nat) -> Seq<u8>
    decreases v,
{
    if v < 10 {
        seq![v as u8]
    } else {
        seq![(v % 10) as u8] + dec_digits(v / 10)
    }
}

/// The decimal digits of `v` (least significant first), extended with zeros
/// on the high side to at least `d + 1` digits.
pub open spec fn padded_digits(v: nat, d: nat) -> Seq<u8> {
    let ds = dec_digits(v);
    if ds.len() > d {
        ds
    } else {
        ds + Seq::new((d + 1 - ds.len()) as nat, |i: int| 0u8)
    }
}

/// The text of `v` with the decimal point `d` digits from the right: ASCII
/// digits, most significant first, with a `.` before the last `d` digits
/// when `d > 0`.
pub open spec fn amount_text(v: nat, d: nat) -> Seq<u8> {
    let p = padded_digits(v, d);
    let n = p.len();
    if d == 0 {
        Seq::new(n, |i: int| (p[n - 1 - i] + 48) as u8)
    } else {
        Seq::new(
            n + 1,
            |i: int|
                if i < n - d {
                    (p[n - 1 - i] + 48) as u8
                } else if i == n - d {
                    46u8
                } else {
                    (p[n - i] + 48) as u8
                },
        )
    }
}

/// Every decimal digit is below ten, and there is at least one.
pub proof fn lemma_dec_digits_bounded(v: nat)
    ensures
        dec_digits(v).len() >= 1,
        forall|i: int| 0 <= i < dec_digits(v).len() ==> dec_digits(v)[i] < 10,
    decreases v,
{
    if v >= 10 {
        lemma_dec_digits_bounded(v / 10);
        let ds = dec_digits(v);
        assert forall|i: int| 0 <= i < ds.len() implies ds[i] < 10 by {
            if i > 0 {
                assert(ds[i] == dec_digits(v / 10)[i - 1]);
            }
        }
    }
}

/// The decimal digits of `v`, least significant first, by repeated
/// division by ten.
fn decimal_digits(v: &FieldElement) -> (r: Vec<u8>)
    ensures
        r@ == dec_digits(v.val()),
{
    let mut out: Vec<u8> = Vec::new();
    let mut cur: FieldElement = *v;
    assert(out@ + dec_digits(cur.val()) =~= dec_digits(v.val()));
    loop
        invariant_except_break
            out@ + dec_digits(cur.val()) == dec_digits(v.val()),
        ensures
            out@ == dec_digits(v.val()),
        decreases cur.val(),
    {
        let (q, r) = cur.div_rem(10);
        proof {
            assert(q.val() == cur.val() / 10 && r == cur.val() % 10);
        }
        if q.is_zero() {
            proof {
                assert(dec_digits(cur.val()) == seq![r]);
            }
            out.push(r);
            assert(out@ =~= dec_digits(v.val()));
            break;
        }
        proof {
            assert(dec_digits(cur.val()) == seq![r] + dec_digits(q.val()));
            assert(out@.push(r) + dec_digits(q.val()) =~= out@ + (seq![r] + dec_digits(q.val())));
        }
        out.push(r);
        cur = q;
    }
    out
}

/// Renders `amount` as a decimal number with the point placed `decimals`
/// digits from the right, padding with leading zeros so that at least one
/// digit stands before the point.
pub fn format_amount(amount: &FieldElement, decimals: u8) -> (r: Vec<u8>)
    ensures
        r@ == amount_text(amount.val(), decimals as nat),
{
    let ghost v = amount.val();
    let ghost d = decimals as nat;
    let mut ds = decimal_digits(amount);
    proof {
        lemma_dec_digits_bounded(v);
    }
    let ghost len0 = ds.len();
    while ds.len() <= decimals as usize
        invariant
            len0 == dec_digits(v).len(),
            d == decimals as nat,
            len0 >= 1,
            ds.len() >= len0,
            ds.len() <= len0 || ds.len() <= d + 1,
            ds@.take(len0 as int) == dec_digits(v),
            forall|j: int| len0 <= j < ds.len() ==> ds@[j] == 0,
        decreases decimals as usize + 1 - ds.len(),
    {
        let ghost before = ds@;
        ds.push(0u8);
        assert(ds@.take(len0 as int) =~= before.take(len0 as int));
    }
    proof {
        if len0 > d {
            assert(ds@ =~= ds@.take(len0 as int));
        } else {
            assert(ds@ =~= dec_digits(v) + Seq::new((d + 1 - len0) as nat, |i: int| 0u8));
        }
        assert(ds@ == padded_digits(v, d));
        assert forall|i: int| 0 <= i < ds.len() implies ds@[i] < 10 by {
            if i < len0 {
                assert(ds@[i] == ds@.take(len0 as int)[i]);
            }
        }
    }
    let ghost text = amount_text(v, d);
    let n = ds.len();
    let whole = n - decimals as usize;
    let mut out: Vec<u8> = Vec::new();
    let mut i: usize = 0;
    while i < whole
        invariant
            ds@ == padded_digits(v, d),
            forall|j: int| 0 <= j < ds.len() ==> ds@[j] < 10,
            n == ds.len(),
            whole == n - d,
            0 <= i <= whole,
            text == amount_text(v, d),
            out@ == text.take(i as int),
        decreases whole - i,
    {
        let c: u8 = ds[n - 1 - i] + 48;
        out.push(c);
        assert(out@ =~= text.take(i + 1));
        i += 1;
    }
    if decimals > 0 {
        out.push(46u8);
        assert(out@ =~= text.take(whole + 1));
        let mut k: usize = whole;
        while k < n
            invariant
                ds@ == padded_digits(v, d),
                forall|j: int| 0 <= j < ds.len() ==> ds@[j] < 10,
                n == ds.len(),
                whole == n - d,
                d > 0,
                whole <= k <= n,
                text == amount_text(v, d),
                out@ == text.take(k + 1),
            decreases n - k,
        {
            let c: u8 = ds[n - 1 - k] + 48;
            out.push(c);
            assert(out@ =~= text.take(k + 2));
            k += 1;
        }
        assert(out@ =~= text);
    } else {
        assert(out@ =~= text);
    }
    out
}

} // verus!
