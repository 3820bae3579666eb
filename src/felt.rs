//! 256-bit unsigned big-endian integers and exact small-divisor division.
use vstd::prelude::*;

verus! {

/// The number that a big-endian byte string denotes.
pub open spec fn be_value(s: Seq<u8>) -> nat
    decreases s.len(),
{
    if s.len() == 0 {
        0
    } else {
        (be_value(s.drop_last()) * 256 + s.last()) as nat
    }
}

/// Appending a byte shifts the value one byte up.
pub proof fn lemma_be_push(s: Seq<u8>, b: u8)
    ensures
        be_value(s.push(b)) == be_value(s) * 256 + b,
{
    assert(s.push(b).drop_last() =~= s);
}

/// A byte string denotes zero exactly when all of its bytes are zero.
pub proof fn lemma_be_zero(s: Seq<u8>)
    ensures
        (be_value(s) == 0) <==> (forall|i: int| 0 <= i < s.len() ==> s[i] == 0),
    decreases s.len(),
{
    if s.len() > 0 {
        lemma_be_zero(s.drop_last());
        if be_value(s) == 0 {
            assert forall|i: int| 0 <= i < s.len() implies s[i] == 0 by {
                if i < s.len() - 1 {
                    assert(s[i] == s.drop_last()[i]);
                }
            }
        } else {
            if be_value(s.drop_last()) != 0 {
                let j = choose|j: int| 0 <= j < s.drop_last().len() && s.drop_last()[j] != 0;
                assert(s[j] == s.drop_last()[j]);
            }
        }
    }
}

/// Byte strings of one length compare as numbers the way they compare
/// lexicographically: the first byte that differs decides.
pub proof fn lemma_be_first_difference(s: Seq<u8>, t: Seq<u8>, i: int)
    requires
        s.len() == t.len(),
        0 <= i < s.len(),
        s.take(i) == t.take(i),
        s[i] < t[i],
    ensures
        be_value(s) < be_value(t),
    decreases s.len(),
{
    let n = s.len() as int;
    if i == n - 1 {
        assert(s.drop_last() =~= s.take(i));
        assert(t.drop_last() =~= t.take(i));
    } else {
        assert(s.drop_last().take(i) =~= s.take(i));
        assert(t.drop_last().take(i) =~= t.take(i));
        lemma_be_first_difference(s.drop_last(), t.drop_last(), i);
    }
}

/// One step of byte-wise long division.
proof fn lemma_div_step(q: int, rem: int, v: int, d: int, b: int, dq: int, r: int)
    by (nonlinear_arith)
    requires
        q * d + rem == v,
        0 <= rem < d,
        0 <= b < 256,
        dq * d + r == rem * 256 + b,
        0 <= r < d,
        0 <= dq,
    ensures
        (q * 256 + dq) * d + r == v * 256 + b,
        dq < 256,
{
}

/// The base-38 digits of `v`, least significant first; zero has none.
/// Each digit is the remainder of one division by 38 of what the previous
/// divisions left.
pub open spec fn digits38(v: nat) -> Seq<u8>
    decreases v,
{
    if v == 0 {
        Seq::empty()
    } else {
        seq![(v % 38) as u8] + digits38(v / 38)
    }
}

/// The number that base-38 digits (least significant first) denote:
/// the sum of `ds[i] * 38^i`, written as `ds[0] + 38 * (ds[1] + 38 * (...))`.
pub open spec fn recombine38(ds: Seq<u8>) -> nat
    decreases ds.len(),
{
    if ds.len() == 0 {
        0
    } else {
        (ds[0] + 38 * recombine38(ds.drop_first())) as nat
    }
}

/// Dividing a value by 38 until nothing is left and recombining the
/// remainders as `sum(digit_i * 38^i)` gives the value back exactly.
pub proof fn lemma_base38_round_trip(v: nat)
    ensures
        recombine38(digits38(v)) == v,
        forall|i: int| 0 <= i < digits38(v).len() ==> digits38(v)[i] < 38,
    decreases v,
{
    if v > 0 {
        lemma_base38_round_trip(v / 38);
        let ds = digits38(v);
        assert(ds.drop_first() =~= digits38(v / 38));
        assert forall|i: int| 0 <= i < ds.len() implies ds[i] < 38 by {
            if i > 0 {
                assert(ds[i] == digits38(v / 38)[i - 1]);
            }
        }
    }
}

/// A field element: a 256-bit unsigned integer stored as 32 big-endian bytes.
/// It is never read as signed, and no modular reduction is applied to it.
#[derive(Clone, Copy, Debug, PartialEq, Eq)]
pub struct FieldElement {
    pub value: [u8; 32],
}

impl FieldElement {
    /// The integer this element denotes.
    pub open spec fn val(&self) -> nat {
        be_value(self.value@)
    }

    /// The element holding exactly these big-endian bytes.
    pub fn from_bytes(value: [u8; 32]) -> (r: FieldElement)
        ensures
            r.value@ == value@,
    {
        FieldElement { value }
    }

    /// The zero element.
    pub fn zero() -> (r: FieldElement)
        ensures
            r.val() == 0,
    {
        let r = FieldElement { value: [0u8; 32] };
        proof {
            lemma_be_zero(r.value@);
        }
        r
    }

    /// Whether the element is zero.
    pub fn is_zero(&self) -> (r: bool)
        ensures
            r == (self.val() == 0),
    {
        proof {
            lemma_be_zero(self.value@);
        }
        let mut i: usize = 0;
        while i < 32
            invariant
                0 <= i <= 32,
                forall|j: int| 0 <= j < i ==> self.value@[j] == 0,
            decreases 32 - i,
        {
            if self.value[i] != 0 {
                proof {
                    lemma_be_zero(self.value@);
                    assert(self.value@[i as int] != 0);
                }
                return false;
            }
            i += 1;
        }
        true
    }

    /// The element's value when it fits in one byte.
    pub fn low_byte(&self) -> (r: Option<u8>)
        ensures
            r == (if self.val() < 256 {
                Some(self.val() as u8)
            } else {
                None::<u8>
            }),
    {
        let ghost high = self.value@.drop_last();
        proof {
            lemma_be_zero(high);
            assert(self.val() == be_value(high) * 256 + self.value@[31]);
        }
        let mut i: usize = 0;
        while i < 31
            invariant
                0 <= i <= 31,
                high == self.value@.drop_last(),
                forall|j: int| 0 <= j < i ==> high[j] == 0,
            decreases 31 - i,
        {
            if self.value[i] != 0 {
                proof {
                    lemma_be_zero(high);
                    assert(high[i as int] != 0);
                }
                return None;
            }
            i += 1;
        }
        Some(self.value[31])
    }

    /// Whether this element is below `other`, as unsigned integers: the
    /// bytes are compared from the most significant one down.
    pub fn less_than(&self, other: &FieldElement) -> (r: bool)
        ensures
            r == (self.val() < other.val()),
    {
        let mut i: usize = 0;
        while i < 32
            invariant
                0 <= i <= 32,
                self.value@.take(i as int) == other.value@.take(i as int),
            decreases 32 - i,
        {
            let a = self.value[i];
            let b = other.value[i];
            if a != b {
                proof {
                    if a < b {
                        lemma_be_first_difference(self.value@, other.value@, i as int);
                    } else {
                        lemma_be_first_difference(other.value@, self.value@, i as int);
                    }
                }
                return a < b;
            }
            assert(self.value@.take(i + 1) =~= self.value@.take(i as int).push(a));
            assert(other.value@.take(i + 1) =~= other.value@.take(i as int).push(b));
            i += 1;
        }
        assert(self.value@ =~= self.value@.take(32));
        assert(other.value@ =~= other.value@.take(32));
        false
    }

    /// Exact division by a small divisor: scans the bytes from the most
    /// significant one down, carrying the running remainder.
    pub fn div_rem(&self, divisor: u8) -> (res: (FieldElement, u8))
        requires
            divisor > 0,
        ensures
            res.0.val() * divisor + res.1 == self.val(),
            res.1 < divisor,
    {
        let mut q: [u8; 32] = [0u8; 32];
        let mut rem: u8 = 0;
        let mut i: usize = 0;
        assert(q@.take(0) =~= Seq::<u8>::empty());
        assert(self.value@.take(0) =~= Seq::<u8>::empty());
        assert(be_value(Seq::<u8>::empty()) == 0);
        while i < 32
            invariant
                0 <= i <= 32,
                divisor > 0,
                rem < divisor,
                be_value(q@.take(i as int)) * divisor + rem == be_value(self.value@.take(i as int)),
            decreases 32 - i,
        {
            let b: u8 = self.value[i];
            let cur: u16 = (rem as u16) * 256 + (b as u16);
            let dq: u16 = cur / (divisor as u16);
            let r: u16 = cur % (divisor as u16);
            proof {
                vstd::arithmetic::div_mod::lemma_fundamental_div_mod(cur as int, divisor as int);
                assert(dq * divisor + r == cur) by (nonlinear_arith)
                    requires
                        cur == divisor * dq + r;
                lemma_div_step(
                    be_value(q@.take(i as int)) as int,
                    rem as int,
                    be_value(self.value@.take(i as int)) as int,
                    divisor as int,
                    b as int,
                    dq as int,
                    r as int,
                );
            }
            let ghost old_q = q@;
            q[i] = dq as u8;
            rem = r as u8;
            proof {
                assert(q@.take(i + 1) =~= old_q.take(i as int).push(dq as u8));
                assert(self.value@.take(i + 1) =~= self.value@.take(i as int).push(b));
                lemma_be_push(old_q.take(i as int), dq as u8);
                lemma_be_push(self.value@.take(i as int), b);
            }
            i += 1;
        }
        assert(q@.take(32) =~= q@);
        assert(self.value@.take(32) =~= self.value@);
        (FieldElement { value: q }, rem)
    }

    /// The base-38 digits of the element, least significant first, as
    /// produced by repeated `div_rem(38)`.
    pub fn base38_digits(&self) -> (r: Vec<u8>)
        ensures
            r@ == digits38(self.val()),
    {
        let mut out: Vec<u8> = Vec::new();
        let mut cur: FieldElement = *self;
        assert(out@ + digits38(cur.val()) =~= digits38(self.val()));
        while !cur.is_zero()
            invariant
                out@ + digits38(cur.val()) == digits38(self.val()),
            decreases cur.val(),
        {
            let (q, r) = cur.div_rem(38);
            proof {
                assert(q.val() == cur.val() / 38 && r == cur.val() % 38);
                assert(digits38(cur.val()) == seq![r] + digits38(q.val()));
                assert(out@.push(r) + digits38(q.val()) =~= out@ + (seq![r] + digits38(q.val())));
            }
            out.push(r);
            cur = q;
        }
        assert(out@ + digits38(cur.val()) =~= out@);
        out
    }
}

} // verus!
