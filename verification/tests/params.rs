use brands::{BrandsError, Number, Params};

fn n(value: u64) -> Number {
    Number::from_bytes_le(&value.to_le_bytes())
}

#[test]
fn from_str_reads_decimal_numbers() {
    let params = Params::from_str("key".to_string(), "23", "11", "2", "3", "4").unwrap();
    assert_eq!(params.scheme_key, "key");
    assert_eq!(params.p, n(23));
    assert_eq!(params.q, n(11));
    assert_eq!(params.g, n(2));
    assert_eq!(params.g1, n(3));
    assert_eq!(params.g2, n(4));
}

#[test]
fn from_str_reads_numbers_beyond_64_bits() {
    let params =
        Params::from_str(String::new(), "18446744073709551617", "0", "007", "1", "1").unwrap();
    // 2^64 + 1
    assert_eq!(params.p, Number::from_bytes_le(&[1, 0, 0, 0, 0, 0, 0, 0, 1]));
    assert_eq!(params.q, n(0));
    assert_eq!(params.g, n(7));
}

#[test]
fn from_str_takes_a_plus_and_underscores() {
    let params = Params::from_str(String::new(), "+23", "1_1", "2_", "3", "+4_0").unwrap();
    assert_eq!(params.p, n(23));
    assert_eq!(params.q, n(11));
    assert_eq!(params.g, n(2));
    assert_eq!(params.g2, n(40));
}

#[test]
fn from_str_does_not_validate_the_group() {
    let params = Params::from_str(String::new(), "10", "10", "1", "1", "1").unwrap();
    assert!(params.usable());
    let params = Params::from_str(String::new(), "0", "11", "2", "3", "4").unwrap();
    assert!(!params.usable());
    let params = Params::from_str(String::new(), "23", "0", "2", "3", "4").unwrap();
    assert!(!params.usable());
}

#[test]
fn from_str_refuses_what_is_no_number() {
    for bad in ["", "+", "-1", "12a", "0x10", " 1", "1 ", "_1", "+_1", "++1", "1.5", "١"] {
        for position in 0..5 {
            let mut fields = ["23", "11", "2", "3", "4"];
            fields[position] = bad;
            let result = Params::from_str(
                "key".to_string(),
                fields[0],
                fields[1],
                fields[2],
                fields[3],
                fields[4],
            );
            match result {
                Err(e) => assert_eq!(e, BrandsError::Parse),
                Ok(_) => panic!("{:?} was read as a number", bad),
            }
        }
    }
}

#[test]
fn from_dh_group_takes_distinct_generators() {
    let params =
        Params::from_dh_group("key".to_string(), n(23), n(11), n(2), n(3), n(4)).unwrap();
    assert_eq!(params.scheme_key, "key");
    assert_eq!(params.p, n(23));
    assert_eq!(params.q, n(11));
    assert_eq!(params.g, n(2));
    assert_eq!(params.g1, n(3));
    assert_eq!(params.g2, n(4));
}

#[test]
fn from_dh_group_refuses_colliding_generators() {
    let key = || "key".to_string();
    assert!(Params::from_dh_group(key(), n(23), n(11), n(2), n(2), n(4)).is_none());
    assert!(Params::from_dh_group(key(), n(23), n(11), n(2), n(3), n(2)).is_none());
    assert!(Params::from_dh_group(key(), n(23), n(11), n(2), n(3), n(3)).is_none());
    assert!(Params::from_dh_group(key(), n(23), n(11), n(3), n(3), n(3)).is_none());
}

#[test]
fn generator_bits_lie_below_the_bits_of_p() {
    // 23 has five bits
    for _ in 0..50 {
        let bits = Params::generator_bits(&n(23)).unwrap();
        assert!(2 <= bits && bits < 5);
    }
    // 4 has three bits: only the length 2 is left
    assert_eq!(Params::generator_bits(&n(4)), Some(2));
    let p = Number::from_bytes_le(&[0xff; 128]);
    for _ in 0..50 {
        let bits = Params::generator_bits(&p).unwrap();
        assert!(2 <= bits && bits < 1024);
    }
}

#[test]
fn generator_bits_need_a_modulus_of_three_bits() {
    assert_eq!(Params::generator_bits(&n(0)), None);
    assert_eq!(Params::generator_bits(&n(1)), None);
    assert_eq!(Params::generator_bits(&n(3)), None);
}

#[test]
fn clone_keeps_the_parameters() {
    let params = Params::from_str("key".to_string(), "23", "11", "2", "3", "4").unwrap();
    let copy = params.clone();
    assert_eq!(copy.scheme_key, params.scheme_key);
    assert_eq!(copy.p, params.p);
    assert_eq!(copy.q, params.q);
    assert_eq!(copy.g, params.g);
    assert_eq!(copy.g1, params.g1);
    assert_eq!(copy.g2, params.g2);
}

#[test]
fn digests_are_reduced_modulo_p() {
    let params = Params::from_str("key".to_string(), "23", "11", "2", "3", "4").unwrap();
    // 100 = 8 modulo 23, and 1 modulo 11
    assert_eq!(params.digest_of(&n(100)), n(8));
    assert_eq!(params.digest_of(&n(22)), n(22));
    assert_eq!(params.digest_of(&n(23)), n(0));
}
