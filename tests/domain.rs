use starknet_plugin::calldata::{decode_domain_call, CalldataEntry};
use starknet_plugin::domain::{append_decoded, domain_as_str, DecodeError};
use starknet_plugin::error::StageError;
use starknet_plugin::felt::FieldElement;

fn fe(v: u128) -> FieldElement {
    let mut bytes = [0u8; 32];
    bytes[16..].copy_from_slice(&v.to_be_bytes());
    FieldElement::from_bytes(bytes)
}

/// The element whose base-38 digits, least significant first, are `digits`.
fn from_digits(digits: &[u8]) -> FieldElement {
    let mut bytes = [0u8; 32];
    for &d in digits.iter().rev() {
        let mut carry: u32 = d as u32;
        for b in bytes.iter_mut().rev() {
            let x = (*b as u32) * 38 + carry;
            *b = (x % 256) as u8;
            carry = x / 256;
        }
        assert_eq!(carry, 0);
    }
    FieldElement::from_bytes(bytes)
}

/// An element whose label is `n` letters `b`.
fn label_of_b(n: usize) -> FieldElement {
    from_digits(&vec![1u8; n])
}

#[test]
fn zero_element_gives_empty_label() {
    assert_eq!(domain_as_str(&[fe(0)]), Ok(b".stark".to_vec()));
}

#[test]
fn no_element_gives_suffix_only() {
    assert_eq!(domain_as_str(&[]), Ok(b"stark".to_vec()));
}

#[test]
fn letters_read_most_significant_first() {
    // digits 0 ('a') then 1 ('b'), least significant first: the label is "ba"
    let v = from_digits(&[0, 1]);
    assert_eq!(domain_as_str(&[v]), Ok(b"ba.stark".to_vec()));
    let v = from_digits(&[25]);
    assert_eq!(domain_as_str(&[v]), Ok(b"z.stark".to_vec()));
}

#[test]
fn two_labels_joined() {
    let first = from_digits(&[2, 1]); // "bc"
    let second = from_digits(&[3]); // "d"
    assert_eq!(domain_as_str(&[first, second]), Ok(b"bc.d.stark".to_vec()));
}

#[test]
fn alternate_alphabet_bytes() {
    let v = from_digits(&[26, 36]);
    let out = domain_as_str(&[v]).unwrap();
    assert_eq!(out, vec![36 + 97 + 22, 26 + 97 + 22, b'.', b's', b't', b'a', b'r', b'k']);
}

#[test]
fn escape_as_most_significant_digit() {
    assert_eq!(domain_as_str(&[fe(37)]), Ok(b"a.stark".to_vec()));
    let v = from_digits(&[1, 37]);
    assert_eq!(domain_as_str(&[v]), Ok(b"ab.stark".to_vec()));
}

#[test]
fn escape_elsewhere_is_refused() {
    let v = from_digits(&[37, 1]);
    assert_eq!(domain_as_str(&[v]), Err(DecodeError::UnsupportedAlphabet));
    let mut out = b"xy".to_vec();
    assert_eq!(append_decoded(&v, &mut out), Err(DecodeError::UnsupportedAlphabet));
    assert_eq!(out, b"xy".to_vec());
}

#[test]
fn name_of_exactly_capacity() {
    // 29 + 1 + 28 + 1 + 5 = 64 bytes
    let out = domain_as_str(&[label_of_b(29), label_of_b(28)]).unwrap();
    assert_eq!(out.len(), 64);
    assert!(out.ends_with(b".stark"));
}

#[test]
fn name_one_byte_over_capacity() {
    // 29 + 1 + 29 + 1 + 5 = 65 bytes
    assert_eq!(
        domain_as_str(&[label_of_b(29), label_of_b(29)]),
        Err(DecodeError::OutOfCapacity)
    );
}

#[test]
fn append_leaves_output_on_overflow() {
    let mut out = vec![b'x'; 40];
    assert_eq!(append_decoded(&label_of_b(25), &mut out), Err(DecodeError::OutOfCapacity));
    assert_eq!(out.len(), 40);
    assert_eq!(append_decoded(&label_of_b(24), &mut out), Ok(()));
    assert_eq!(out.len(), 64);
}

#[test]
fn domain_call_decoding() {
    let calldata = [CalldataEntry::Literal(fe(1)), CalldataEntry::Literal(from_digits(&[2, 1]))];
    assert_eq!(decode_domain_call(&calldata), Ok(b"bc.stark".to_vec()));
    let empty_run = [CalldataEntry::Literal(fe(0))];
    assert_eq!(decode_domain_call(&empty_run), Ok(b"stark".to_vec()));
}

#[test]
fn domain_call_errors() {
    assert_eq!(decode_domain_call(&[]), Err(StageError::MalformedCalldata));
    assert_eq!(
        decode_domain_call(&[CalldataEntry::Reference(0, 0)]),
        Err(StageError::MalformedCalldata)
    );
    // the count names more elements than there are
    assert_eq!(
        decode_domain_call(&[CalldataEntry::Literal(fe(2)), CalldataEntry::Literal(fe(1))]),
        Err(StageError::MalformedCalldata)
    );
    // an element of the run is not a literal
    assert_eq!(
        decode_domain_call(&[CalldataEntry::Literal(fe(1)), CalldataEntry::Other]),
        Err(StageError::MalformedCalldata)
    );
    assert_eq!(
        decode_domain_call(&[CalldataEntry::Literal(fe(1)), CalldataEntry::Literal(from_digits(&[37, 1]))]),
        Err(StageError::UnsupportedAlphabet)
    );
    assert_eq!(
        decode_domain_call(&[
            CalldataEntry::Literal(fe(2)),
            CalldataEntry::Literal(label_of_b(29)),
            CalldataEntry::Literal(label_of_b(29)),
        ]),
        Err(StageError::OutOfCapacity)
    );
}
