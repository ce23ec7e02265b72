use brands::Number;

#[test]
fn numbers_are_read_least_significant_byte_first() {
    let n = Number::from_bytes_le(&[101, 4]);
    assert_eq!(n, Number::from_bytes_le(&1125u64.to_le_bytes()));
    assert!(n != Number::from_bytes_le(&[4, 101]));
}

#[test]
fn to_bytes_le_is_the_shortest_form() {
    assert_eq!(Number::from_bytes_le(&[5, 0, 0]).to_bytes_le(), vec![5]);
    assert_eq!(Number::from_bytes_le(&[0, 1, 0]).to_bytes_le(), vec![0, 1]);
    assert_eq!(Number::from_bytes_le(&[]).to_bytes_le(), vec![0]);
    assert_eq!(Number::from_bytes_le(&[0, 0]).to_bytes_le(), vec![0]);
    assert_eq!(Number::from_bytes_le(&[1, 2, 3]).to_bytes_le(), vec![1, 2, 3]);
}

#[test]
fn equal_values_are_equal_numbers() {
    assert_eq!(Number::from_bytes_le(&[7]), Number::from_bytes_le(&[7, 0, 0, 0]));
    assert!(Number::from_bytes_le(&[7]).same(&Number::from_bytes_le(&[7, 0])));
    assert!(!Number::from_bytes_le(&[7]).same(&Number::from_bytes_le(&[0, 7])));
    assert_eq!(Number::from_bytes_le(&[9, 1]).clone(), Number::from_bytes_le(&[9, 1]));
}

#[test]
fn zero_is_recognised() {
    assert!(Number::from_bytes_le(&[]).is_zero());
    assert!(Number::from_bytes_le(&[0, 0, 0]).is_zero());
    assert!(!Number::from_bytes_le(&[0, 1]).is_zero());
}

#[test]
fn from_u64_has_the_value() {
    assert!(Number::from_u64(0).is_zero());
    assert_eq!(Number::from_u64(0).to_bytes_le(), vec![0]);
    assert_eq!(Number::from_u64(1125).to_bytes_le(), vec![101, 4]);
    assert_eq!(Number::from_u64(256).to_bytes_le(), vec![0, 1]);
    assert_eq!(Number::from_u64(u64::MAX).to_bytes_le(), vec![255; 8]);
    assert_eq!(Number::from_u64(0x0102_0304_0506_0708), Number::from_bytes_le(&[8, 7, 6, 5, 4, 3, 2, 1]));
}

#[test]
fn minus_mod_is_the_difference_in_the_residues() {
    let n = Number::from_u64;
    assert_eq!(n(7).minus_mod(&n(3), &n(11)), n(4));
    assert_eq!(n(3).minus_mod(&n(7), &n(11)), n(7));
    assert_eq!(n(5).minus_mod(&n(5), &n(11)), n(0));
    assert_eq!(n(25).minus_mod(&n(1), &n(11)), n(2));
    assert_eq!(n(1).minus_mod(&n(25), &n(11)), n(9));
    assert_eq!(n(4).minus_mod(&n(9), &n(1)), n(0));
}
