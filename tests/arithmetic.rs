use starknet_plugin::amount::format_amount;
use starknet_plugin::calldata::to_hex;
use starknet_plugin::felt::FieldElement;

fn fe(v: u128) -> FieldElement {
    let mut bytes = [0u8; 32];
    bytes[16..].copy_from_slice(&v.to_be_bytes());
    FieldElement::from_bytes(bytes)
}

fn recombine(digits: &[u8]) -> FieldElement {
    // value = sum(d_i * 38^i), evaluated from the most significant digit down
    let mut bytes = [0u8; 32];
    for &d in digits.iter().rev() {
        let mut carry: u32 = d as u32;
        for b in bytes.iter_mut().rev() {
            let x = (*b as u32) * 38 + carry;
            *b = (x % 256) as u8;
            carry = x / 256;
        }
        assert_eq!(carry, 0);
    }
    FieldElement::from_bytes(bytes)
}

#[test]
fn div_rem_small_values() {
    let (q, r) = fe(1_000_000).div_rem(38);
    assert_eq!(q, fe(26_315));
    assert_eq!(r, 30);
    let (q, r) = fe(37).div_rem(38);
    assert_eq!(q, fe(0));
    assert_eq!(r, 37);
    let (q, r) = fe(0).div_rem(10);
    assert_eq!(q, fe(0));
    assert_eq!(r, 0);
}

#[test]
fn div_rem_full_width() {
    let max = FieldElement::from_bytes([0xff; 32]);
    let (q, r) = max.div_rem(38);
    // 2^256 is 16 modulo 38, so 2^256 - 1 leaves 15
    assert_eq!(r, 15);
    let (q2, r2) = q.div_rem(1);
    assert_eq!(q2, q);
    assert_eq!(r2, 0);
    let digits = max.base38_digits();
    assert!(digits.iter().all(|&d| d < 38));
    assert_eq!(digits[0], 15);
}

#[test]
fn base38_digits_recombine() {
    let values = [
        fe(0),
        fe(1),
        fe(37),
        fe(38),
        fe(1_000_000),
        fe(u128::MAX),
        FieldElement::from_bytes([0xff; 32]),
        FieldElement::from_bytes([0x5a; 32]),
    ];
    for v in values.iter() {
        let digits = v.base38_digits();
        assert_eq!(recombine(&digits), *v);
    }
    assert!(fe(0).base38_digits().is_empty());
    assert_eq!(fe(38).base38_digits(), vec![0, 1]);
}

#[test]
fn zero_and_low_byte() {
    assert!(FieldElement::zero().is_zero());
    assert!(!fe(1).is_zero());
    assert_eq!(fe(0).low_byte(), Some(0));
    assert_eq!(fe(255).low_byte(), Some(255));
    assert_eq!(fe(256).low_byte(), None);
    let mut high = [0u8; 32];
    high[0] = 1;
    high[31] = 3;
    assert_eq!(FieldElement::from_bytes(high).low_byte(), None);
}

#[test]
fn amount_with_decimals() {
    assert_eq!(format_amount(&fe(1_000_000), 6), b"1.000000".to_vec());
    assert_eq!(format_amount(&fe(1_234_567), 2), b"12345.67".to_vec());
    assert_eq!(format_amount(&fe(5), 2), b"0.05".to_vec());
    assert_eq!(format_amount(&fe(0), 6), b"0.000000".to_vec());
    assert_eq!(format_amount(&fe(42), 2), b"0.42".to_vec());
}

#[test]
fn amount_without_decimals() {
    assert_eq!(format_amount(&fe(0), 0), b"0".to_vec());
    assert_eq!(format_amount(&fe(1_000_000), 0), b"1000000".to_vec());
}

#[test]
fn amount_full_width() {
    let max = FieldElement::from_bytes([0xff; 32]);
    let text = format_amount(&max, 18);
    let expected = b"115792089237316195423570985008687907853269984665640564039457.584007913129639935";
    assert_eq!(text, expected.to_vec());
}

#[test]
fn hex_rendering() {
    let mut bytes = [0u8; 32];
    bytes[0] = 0xab;
    bytes[31] = 0x0f;
    let text = to_hex(&bytes);
    assert_eq!(text.len(), 64);
    let mut expected = String::from("ab");
    expected.push_str(&"0".repeat(60));
    expected.push_str("0f");
    assert_eq!(text, expected.into_bytes());
}

#[test]
fn unsigned_ordering() {
    assert!(fe(1).less_than(&fe(2)));
    assert!(!fe(2).less_than(&fe(1)));
    assert!(!fe(7).less_than(&fe(7)));
    // the most significant byte decides, never read as a sign
    let mut high = [0u8; 32];
    high[0] = 0x80;
    let high = FieldElement::from_bytes(high);
    assert!(fe(u128::MAX).less_than(&high));
    assert!(!high.less_than(&fe(u128::MAX)));
    assert!(high.less_than(&FieldElement::from_bytes([0xff; 32])));
}
