//! Decoding of a Starknet domain name from field elements.
//!
//! Each element carries one label written in base 38, least significant digit
//! first. Digits 0 to 25 are the letters `a` to `z`; digits 26 to 36 map to
//! `digit + 97 + 22`; digit 37 is an escape that is only accepted as the most
//! significant digit of an element (the division that yields it leaves
//! quotient zero), where it stands for `a`. Labels are joined by `.` and
//! followed by the suffix `stark`; the whole name holds at most 64 bytes.
use vstd::prelude::*;

use crate::felt::{digits38, lemma_base38_round_trip, FieldElement};

verus! {

/// Why a domain name could not be decoded.
#[derive(Clone, Copy, Debug, PartialEq, Eq, Structural)]
pub enum DecodeError {
    /// The escape digit stands where it is not allowed.
    UnsupportedAlphabet,
    /// The decoded name would exceed its capacity.
    OutOfCapacity,
}

/// Capacity of a decoded domain name, in bytes.
pub const DOMAIN_CAPACITY: usize = 64;

/// Number of base-38 digits that stand for letters.
pub const LETTER_COUNT: u8 = 26;

/// The escape digit.
pub const ESCAPE_DIGIT: u8 = 37;

/// The byte that one base-38 digit decodes to.
pub open spec fn digit_char(d: u8) -> u8 {
    if d < 26 {
        (d + 97) as u8
    } else if d == 37 {
        97
    } else {
        (d + 97 + 22) as u8
    }
}

/// The escape digit occurs in the element's digits at most as the most
/// significant one.
pub open spec fn label_valid(v: nat) -> bool {
    let ds = digits38(v);
    forall|i: int| 0 <= i < ds.len() - 1 ==> ds[i] != 37
}

/// The label of one element, in reading order (most significant digit first).
pub open spec fn label_bytes(v: nat) -> Seq<u8> {
    let ds = digits38(v);
    Seq::new(ds.len(), |i: int| digit_char(ds[ds.len() - 1 - i]))
}

/// The suffix `stark`.
pub open spec fn stark_suffix() -> Seq<u8> {
    seq![115u8, 116u8, 97u8, 114u8, 107u8]
}

/// Decoding `vals` after `out` has already been written: each label is
/// checked, then appended with its `.` separator if it fits, and the suffix
/// closes the name.
pub open spec fn decode_labels(out: Seq<u8>, vals: Seq<nat>) -> Result<Seq<u8>, DecodeError>
    decreases vals.len(),
{
    if vals.len() == 0 {
        if out.len() + 5 > 64 {
            Err(DecodeError::OutOfCapacity)
        } else {
            Ok(out + stark_suffix())
        }
    } else if !label_valid(vals[0]) {
        Err(DecodeError::UnsupportedAlphabet)
    } else if out.len() + label_bytes(vals[0]).len() + 1 > 64 {
        Err(DecodeError::OutOfCapacity)
    } else {
        decode_labels(out + label_bytes(vals[0]) + seq![46u8], vals.drop_first())
    }
}

/// The domain name that a run of element values decodes to.
pub open spec fn decode_domain(vals: Seq<nat>) -> Result<Seq<u8>, DecodeError> {
    decode_labels(Seq::empty(), vals)
}

/// The values of a run of elements.
pub open spec fn felt_values(s: Seq<FieldElement>) -> Seq<nat> {
    s.map_values(|f: FieldElement| f.val())
}

/// A decoded byte string seen as a sequence.
pub open spec fn bytes_result(r: Result<Vec<u8>, DecodeError>) -> Result<Seq<u8>, DecodeError> {
    match r {
        Ok(v) => Ok(v@),
        Err(e) => Err(e),
    }
}

/// Bytes that the labels of `vals` take with their separators.
pub open spec fn labels_len(vals: Seq<nat>) -> nat
    decreases vals.len(),
{
    if vals.len() == 0 {
        0
    } else {
        label_bytes(vals[0]).len() + 1 + labels_len(vals.drop_first())
    }
}

/// Whether every element's label is in the alphabet.
pub open spec fn all_labels_valid(vals: Seq<nat>) -> bool {
    forall|i: int| 0 <= i < vals.len() ==> label_valid(#[trigger] vals[i])
}

/// When every label is in the alphabet, decoding after `out` succeeds
/// exactly when the whole name, suffix included, fits in 64 bytes, and then
/// the name has exactly that length; one byte more gives `OutOfCapacity`.
pub proof fn lemma_decode_labels_capacity(out: Seq<u8>, vals: Seq<nat>)
    requires
        all_labels_valid(vals),
    ensures
        out.len() + labels_len(vals) + 5 <= 64 ==> (decode_labels(out, vals) matches Ok(name)
            && name.len() == out.len() + labels_len(vals) + 5 && name.take(out.len() as int)
            == out),
        out.len() + labels_len(vals) + 5 > 64 ==> decode_labels(out, vals) == Err::<
            Seq<u8>,
            DecodeError,
        >(DecodeError::OutOfCapacity),
    decreases vals.len(),
{
    if vals.len() == 0 {
        assert((out + stark_suffix()).take(out.len() as int) =~= out);
    } else {
        let next = out + label_bytes(vals[0]) + seq![46u8];
        assert(label_valid(vals[0]));
        assert forall|i: int| 0 <= i < vals.drop_first().len() implies label_valid(
            #[trigger] vals.drop_first()[i],
        ) by {
            assert(vals.drop_first()[i] == vals[i + 1]);
        }
        lemma_decode_labels_capacity(next, vals.drop_first());
        if out.len() + labels_len(vals) + 5 <= 64 {
            let name = decode_labels(next, vals.drop_first())->Ok_0;
            assert(name.take(out.len() as int) =~= name.take(next.len() as int).take(
                out.len() as int,
            ));
            assert(next.take(out.len() as int) =~= out);
        }
    }
}

/// A run of labels in the alphabet decodes to a name exactly when the name,
/// labels, separators and suffix together, takes at most 64 bytes; a name
/// one byte longer or more is refused with `OutOfCapacity`.
pub proof fn lemma_domain_capacity(vals: Seq<nat>)
    requires
        all_labels_valid(vals),
    ensures
        labels_len(vals) + 5 <= 64 ==> (decode_domain(vals) matches Ok(name) && name.len()
            == labels_len(vals) + 5),
        labels_len(vals) + 5 > 64 ==> decode_domain(vals) == Err::<Seq<u8>, DecodeError>(
            DecodeError::OutOfCapacity,
        ),
{
    lemma_decode_labels_capacity(Seq::empty(), vals);
}

/// Appends the label of `felt` to `output`. On failure `output` is left as
/// it was: nothing of the label is written.
pub fn append_decoded(felt: &FieldElement, output: &mut Vec<u8>) -> (r: Result<(), DecodeError>)
    requires
        old(output).len() <= DOMAIN_CAPACITY,
    ensures
        match r {
            Ok(()) => {
                &&& label_valid(felt.val())
                &&& old(output).len() + label_bytes(felt.val()).len() <= DOMAIN_CAPACITY
                &&& final(output)@ == old(output)@ + label_bytes(felt.val())
            },
            Err(DecodeError::UnsupportedAlphabet) => {
                &&& !label_valid(felt.val())
                &&& final(output)@ == old(output)@
            },
            Err(DecodeError::OutOfCapacity) => {
                &&& label_valid(felt.val())
                &&& old(output).len() + label_bytes(felt.val()).len() > DOMAIN_CAPACITY
                &&& final(output)@ == old(output)@
            },
        },
{
    let ds = felt.base38_digits();
    let n = ds.len();
    let mut i: usize = 0;
    while i < n
        invariant
            ds@ == digits38(felt.val()),
            n == ds.len(),
            0 <= i <= n,
            forall|j: int| 0 <= j < i && j < n - 1 ==> ds@[j] != ESCAPE_DIGIT,
        decreases n - i,
    {
        if ds[i] == ESCAPE_DIGIT && i < n - 1 {
            return Err(DecodeError::UnsupportedAlphabet);
        }
        i += 1;
    }
    if n > DOMAIN_CAPACITY - output.len() {
        return Err(DecodeError::OutOfCapacity);
    }
    let ghost start = output@;
    let mut k: usize = 0;
    while k < n
        invariant
            ds@ == digits38(felt.val()),
            n == ds.len(),
            0 <= k <= n,
            output@ == start + label_bytes(felt.val()).take(k as int),
        decreases n - k,
    {
        let d = ds[n - 1 - k];
        proof {
            lemma_base38_round_trip(felt.val());
            assert(d == ds@[n - 1 - k]);
        }
        let c: u8 = if d < LETTER_COUNT {
            d + 97
        } else if d == ESCAPE_DIGIT {
            97
        } else {
            d + 97 + 22
        };
        output.push(c);
        proof {
            assert(label_bytes(felt.val()).take(k + 1) =~= label_bytes(felt.val()).take(k as int).push(c));
        }
        k += 1;
    }
    assert(label_bytes(felt.val()).take(n as int) =~= label_bytes(felt.val()));
    Ok(())
}

/// Decodes a run of elements into a domain name: one label per element, each
/// followed by `.`, then the suffix `stark`. Every write is preceded by a
/// capacity check, and on failure no name is produced.
pub fn domain_as_str(elems: &[FieldElement]) -> (r: Result<Vec<u8>, DecodeError>)
    ensures
        bytes_result(r) == decode_domain(felt_values(elems@)),
{
    let ghost vals = felt_values(elems@);
    let mut output: Vec<u8> = Vec::new();
    let mut i: usize = 0;
    assert(vals.subrange(0, vals.len() as int) =~= vals);
    while i < elems.len()
        invariant
            vals == felt_values(elems@),
            0 <= i <= elems.len(),
            output.len() <= DOMAIN_CAPACITY,
            decode_labels(output@, vals.subrange(i as int, vals.len() as int)) == decode_domain(vals),
        decreases elems.len() - i,
    {
        let ghost rest = vals.subrange(i as int, vals.len() as int);
        assert(rest[0] == elems@[i as int].val());
        assert(rest.drop_first() =~= vals.subrange(i + 1, vals.len() as int));
        let ghost before = output@;
        match append_decoded(&elems[i], &mut output) {
            Ok(()) => {},
            Err(e) => {
                return Err(e);
            },
        }
        if output.len() == DOMAIN_CAPACITY {
            return Err(DecodeError::OutOfCapacity);
        }
        output.push(46u8);
        assert(output@ =~= before + label_bytes(rest[0]) + seq![46u8]);
        i += 1;
    }
    if output.len() > DOMAIN_CAPACITY - 5 {
        return Err(DecodeError::OutOfCapacity);
    }
    let ghost before = output@;
    output.push(115u8);
    output.push(116u8);
    output.push(97u8);
    output.push(114u8);
    output.push(107u8);
    assert(output@ =~= before + stark_suffix());
    Ok(output)
}

} // verus!
