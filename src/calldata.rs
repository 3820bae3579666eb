//! Interpretation of tagged call arguments.
//!
//! Transfer and approve calls: entry 0 is the destination, either a
//! reference into the side string table (copied verbatim) or a literal
//! (rendered as 64 lowercase hexadecimal digits, without prefix); entry 1 is
//! the amount, which must be a literal when present and is zero when the
//! calldata has no second entry.
//!
//! Domain lookups: entry 0 is a literal count `N`, and entries `1..N+1` are
//! the literal elements of the domain name.
use vstd::prelude::*;

use crate::domain::{bytes_result, decode_domain, domain_as_str, DecodeError};
use crate::error::{decode_error_spec, from_decode_error, StageError};
use crate::felt::FieldElement;

verus! {

/// Most entries that one Feed may carry.
pub const MAX_CALLDATA: usize = 8;

/// Most strings that the side table of one Feed may carry.
pub const MAX_STRINGS: usize = 16;

/// Capacity of a destination, in bytes.
pub const DESTINATION_CAPACITY: usize = 64;

/// One argument of a call.
#[derive(Clone, Copy, Debug, PartialEq, Eq)]
pub enum CalldataEntry {
    /// A literal value.
    Literal(FieldElement),
    /// A reference to a string of the side table: its index, and a shift
    /// that the destination does not use (the string is copied whole).
    Reference(usize, usize),
    /// An entry whose tag is not recognized.
    Other,
}

/// The fields of a transfer or approve call.
#[derive(Debug)]
pub struct TransferFields {
    pub destination: Vec<u8>,
    pub amount: FieldElement,
}

/// The ASCII character of a hexadecimal digit, lower case.
pub open spec fn hex_char(n: u8) -> u8 {
    if n < 10 {
        (n + 48) as u8
    } else {
        (n + 87) as u8
    }
}

/// Two lowercase hexadecimal digits per byte, high nibble first.
pub open spec fn hex_text(bytes: Seq<u8>) -> Seq<u8> {
    Seq::new(
        2 * bytes.len(),
        |i: int|
            if i % 2 == 0 {
                hex_char(bytes[i / 2] / 16)
            } else {
                hex_char(bytes[i / 2] % 16)
            },
    )
}

/// The destination that a transfer's calldata names.
pub open spec fn destination_of(calldata: Seq<CalldataEntry>, strings: Seq<Vec<u8>>) -> Result<
    Seq<u8>,
    StageError,
> {
    if calldata.len() == 0 {
        Err(StageError::MalformedCalldata)
    } else {
        match calldata[0] {
            CalldataEntry::Reference(index, _) => {
                if index >= strings.len() {
                    Err(StageError::MalformedCalldata)
                } else if strings[index as int].len() > 64 {
                    Err(StageError::OutOfCapacity)
                } else {
                    Ok(strings[index as int]@)
                }
            },
            CalldataEntry::Literal(f) => Ok(hex_text(f.value@)),
            CalldataEntry::Other => Err(StageError::MalformedCalldata),
        }
    }
}

/// The amount that a transfer's calldata names.
pub open spec fn amount_of(calldata: Seq<CalldataEntry>) -> Result<nat, StageError> {
    if calldata.len() < 2 {
        Ok(0)
    } else {
        match calldata[1] {
            CalldataEntry::Literal(f) => Ok(f.val()),
            _ => Err(StageError::MalformedCalldata),
        }
    }
}

/// Renders bytes as lowercase hexadecimal text.
pub fn to_hex(bytes: &[u8; 32]) -> (r: Vec<u8>)
    ensures
        r@ == hex_text(bytes@),
{
    let ghost text = hex_text(bytes@);
    let mut out: Vec<u8> = Vec::new();
    let mut i: usize = 0;
    while i < 32
        invariant
            0 <= i <= 32,
            text == hex_text(bytes@),
            out@ == text.take(2 * i),
        decreases 32 - i,
    {
        let b = bytes[i];
        let hi = b / 16;
        let lo = b % 16;
        let c_hi: u8 = if hi < 10 { hi + 48 } else { hi + 87 };
        let c_lo: u8 = if lo < 10 { lo + 48 } else { lo + 87 };
        out.push(c_hi);
        out.push(c_lo);
        assert(out@ =~= text.take(2 * i + 2));
        i += 1;
    }
    assert(out@ =~= text);
    out
}

/// The destination and the amount that a transfer's calldata names: the
/// destination's failure comes first.
pub open spec fn transfer_of(calldata: Seq<CalldataEntry>, strings: Seq<Vec<u8>>) -> Result<
    (Seq<u8>, nat),
    StageError,
> {
    match destination_of(calldata, strings) {
        Err(e) => Err(e),
        Ok(destination) => match amount_of(calldata) {
            Err(e) => Err(e),
            Ok(amount) => Ok((destination, amount)),
        },
    }
}

/// Extracts the destination and the amount of a transfer or approve call.
pub fn decode_transfer(calldata: &[CalldataEntry], strings: &[Vec<u8>]) -> (r: Result<
    TransferFields,
    StageError,
>)
    ensures
        match r {
            Ok(fields) => transfer_of(calldata@, strings@) == Ok::<(Seq<u8>, nat), StageError>(
                (fields.destination@, fields.amount.val()),
            ),
            Err(e) => transfer_of(calldata@, strings@) == Err::<(Seq<u8>, nat), StageError>(e),
        },
{
    if calldata.len() == 0 {
        return Err(StageError::MalformedCalldata);
    }
    let destination = match calldata[0] {
        CalldataEntry::Reference(index, _) => {
            if index >= strings.len() {
                return Err(StageError::MalformedCalldata);
            }
            if strings[index].len() > DESTINATION_CAPACITY {
                return Err(StageError::OutOfCapacity);
            }
            strings[index].clone()
        },
        CalldataEntry::Literal(f) => to_hex(&f.value),
        CalldataEntry::Other => {
            return Err(StageError::MalformedCalldata);
        },
    };
    let amount = if calldata.len() < 2 {
        FieldElement::zero()
    } else {
        match calldata[1] {
            CalldataEntry::Literal(f) => f,
            _ => {
                return Err(StageError::MalformedCalldata);
            },
        }
    };
    Ok(TransferFields { destination, amount })
}

/// Whether every entry is a literal.
pub open spec fn all_literal(s: Seq<CalldataEntry>) -> bool {
    forall|i: int| 0 <= i < s.len() ==> s[i] is Literal
}

/// The values of literal entries.
pub open spec fn literal_values(s: Seq<CalldataEntry>) -> Seq<nat> {
    s.map_values(
        |e: CalldataEntry|
            match e {
                CalldataEntry::Literal(f) => f.val(),
                _ => 0,
            },
    )
}

/// The domain name that a domain lookup's calldata carries: entry 0 counts
/// the elements, which follow it.
pub open spec fn domain_of(calldata: Seq<CalldataEntry>) -> Result<Seq<u8>, StageError> {
    if calldata.len() == 0 || calldata.len() > 8 {
        Err(StageError::MalformedCalldata)
    } else {
        match calldata[0] {
            CalldataEntry::Literal(count) => {
                if count.val() + 1 > calldata.len() {
                    Err(StageError::MalformedCalldata)
                } else {
                    let run = calldata.subrange(1, (count.val() + 1) as int);
                    if !all_literal(run) {
                        Err(StageError::MalformedCalldata)
                    } else {
                        match decode_domain(literal_values(run)) {
                            Ok(name) => Ok(name),
                            Err(e) => Err(decode_error_spec(e)),
                        }
                    }
                }
            },
            _ => Err(StageError::MalformedCalldata),
        }
    }
}

/// Decodes the domain name of a domain lookup's calldata.
pub fn decode_domain_call(calldata: &[CalldataEntry]) -> (r: Result<Vec<u8>, StageError>)
    ensures
        match r {
            Ok(name) => domain_of(calldata@) == Ok::<Seq<u8>, StageError>(name@),
            Err(e) => domain_of(calldata@) == Err::<Seq<u8>, StageError>(e),
        },
{
    if calldata.len() == 0 || calldata.len() > MAX_CALLDATA {
        return Err(StageError::MalformedCalldata);
    }
    let count = match calldata[0] {
        CalldataEntry::Literal(f) => f,
        _ => {
            return Err(StageError::MalformedCalldata);
        },
    };
    let n: usize = match count.low_byte() {
        Some(b) => b as usize,
        None => {
            return Err(StageError::MalformedCalldata);
        },
    };
    if n >= calldata.len() {
        return Err(StageError::MalformedCalldata);
    }
    let ghost run = calldata@.subrange(1, n + 1);
    let mut elems: Vec<FieldElement> = Vec::new();
    let mut i: usize = 1;
    while i <= n
        invariant
            n < calldata.len(),
            calldata.len() <= MAX_CALLDATA,
            n == count.val(),
            calldata@[0] == CalldataEntry::Literal(count),
            run == calldata@.subrange(1, n + 1),
            1 <= i <= n + 1,
            elems.len() == i - 1,
            forall|j: int| 0 <= j < i - 1 ==> run[j] is Literal,
            forall|j: int|
                0 <= j < i - 1 ==> (#[trigger] elems@[j]).val() == literal_values(run)[j],
        decreases n + 1 - i,
    {
        match calldata[i] {
            CalldataEntry::Literal(f) => {
                elems.push(f);
            },
            _ => {
                assert(run[i - 1] == calldata@[i as int]);
                assert(!(run[i - 1] is Literal));
                assert(!all_literal(run));
                return Err(StageError::MalformedCalldata);
            },
        }
        i += 1;
    }
    proof {
        assert(all_literal(run));
        assert(crate::domain::felt_values(elems@) =~= literal_values(run));
    }
    match domain_as_str(elems.as_slice()) {
        Ok(name) => Ok(name),
        Err(e) => Err(from_decode_error(e)),
    }
}

} // verus!
