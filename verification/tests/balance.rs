use purple_core::balance::Balance;

#[test]
fn parses_and_prints_canonically() {
    let b = Balance::from_bytes(b"100.0").unwrap();
    assert_eq!(b.to_bytes(), b"100.0".to_vec());
    let b = Balance::from_bytes(b"0.0").unwrap();
    assert_eq!(b.to_bytes(), b"0.0".to_vec());
    let b = Balance::from_bytes(b"-12.345").unwrap();
    assert_eq!(b.to_bytes(), b"-12.345".to_vec());
    // Leading zeros parse and print away; the scale is kept.
    let b = Balance::from_bytes(b"007.10").unwrap();
    assert_eq!(b.to_bytes(), b"7.10".to_vec());
}

#[test]
fn rejects_malformed_decimals() {
    assert!(Balance::from_bytes(b"").is_none());
    assert!(Balance::from_bytes(b"100").is_none());
    assert!(Balance::from_bytes(b"100.").is_none());
    assert!(Balance::from_bytes(b".5").is_none());
    assert!(Balance::from_bytes(b"1..5").is_none());
    assert!(Balance::from_bytes(b"a.5").is_none());
    assert!(Balance::from_bytes(b"1.5a").is_none());
    assert!(Balance::from_bytes(b"--1.5").is_none());
    // More than nine fractional digits.
    assert!(Balance::from_bytes(b"1.0123456789").is_none());
    // More than twenty-seven integer digits.
    assert!(Balance::from_bytes(b"1000000000000000000000000000.0").is_none());
}

#[test]
fn subtraction_is_exact() {
    let a = Balance::from_bytes(b"100.0").unwrap();
    let b = Balance::from_bytes(b"10.0").unwrap();
    assert_eq!(a.sub(&b).to_bytes(), b"90.0".to_vec());
    let c = Balance::from_bytes(b"0.25").unwrap();
    assert_eq!(a.sub(&c).to_bytes(), b"99.75".to_vec());
    assert_eq!(b.sub(&a).to_bytes(), b"-90.0".to_vec());
    assert_eq!(a.sub(&a).to_bytes(), b"0.0".to_vec());
}

#[test]
fn addition_is_exact() {
    let a = Balance::from_bytes(b"1.5").unwrap();
    let b = Balance::from_bytes(b"2.25").unwrap();
    assert_eq!(a.add(&b).to_bytes(), b"3.75".to_vec());
    let n = Balance::from_bytes(b"-1.5").unwrap();
    assert_eq!(a.add(&n).to_bytes(), b"0.0".to_vec());
}

#[test]
fn ordering_against_zero() {
    let zero = Balance::zero();
    assert_eq!(zero.to_bytes(), b"0.0".to_vec());
    let pos = Balance::from_bytes(b"0.001").unwrap();
    let neg = Balance::from_bytes(b"-0.001").unwrap();
    assert!(pos.ge(&zero));
    assert!(!neg.ge(&zero));
    assert!(zero.ge(&zero));
    assert!(!pos.is_negative());
    assert!(neg.is_negative());
}

#[test]
fn comparison_crosses_scales() {
    let a = Balance::from_bytes(b"1.5").unwrap();
    let b = Balance::from_bytes(b"1.50").unwrap();
    assert!(a.ge(&b) && b.ge(&a));
    let c = Balance::from_bytes(b"1.501").unwrap();
    assert!(c.ge(&a) && !a.ge(&c));
}

#[test]
fn from_u64_is_whole_units() {
    assert_eq!(Balance::from_u64(500000000).to_bytes(), b"500000000.0".to_vec());
    assert_eq!(Balance::from_u64(0).to_bytes(), b"0.0".to_vec());
}
