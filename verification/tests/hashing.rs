use brands::cryptographics::{concat_chunks, hash_to_number};
use brands::{Coin, CoinChallenge, Number};
use hmac::{Hmac, Mac};
use sha2::Sha256;

#[test]
fn hash_wire_format_is_stable() {
    // HMAC-SHA256("k", 01 02 03)
    let tag: [u8; 32] = [
        44, 15, 156, 253, 74, 58, 240, 149, 115, 78, 213, 108, 156, 8, 30, 98, 104, 181, 139, 91,
        148, 71, 94, 153, 122, 181, 72, 140, 145, 17, 165, 172,
    ];
    let hashed = hash_to_number(b"k", &[vec![0x01, 0x02], vec![0x03]]);
    assert_eq!(hashed, Number::from_bytes_le(&tag));
    assert_eq!(hashed.to_bytes_le(), tag.to_vec());
    let mut reversed = tag;
    reversed.reverse();
    assert!(hashed != Number::from_bytes_le(&reversed));
}

#[test]
fn hash_agrees_with_hmac_sha256() {
    let mac = Hmac::<Sha256>::new_from_slice(b"brandskey").unwrap();
    let tag = mac.chain_update(b"abcdef").finalize().into_bytes().to_vec();
    let hashed = hash_to_number(b"brandskey", &[b"abc".to_vec(), b"def".to_vec()]);
    assert_eq!(hashed, Number::from_bytes_le(&tag));
}

#[test]
fn hash_is_deterministic() {
    let data = vec![vec![1u8, 2, 3], vec![], vec![4]];
    assert_eq!(hash_to_number(b"key", &data), hash_to_number(b"key", &data));
    assert!(hash_to_number(b"key", &data) != hash_to_number(b"kez", &data));
    assert!(hash_to_number(b"key", &data) != hash_to_number(b"key", &[vec![1u8, 2, 3, 5]]));
}

#[test]
fn hash_joins_chunks_without_separator() {
    let split = hash_to_number(b"k", &[vec![1], vec![2, 3]]);
    let other = hash_to_number(b"k", &[vec![1, 2], vec![3]]);
    let joined = hash_to_number(b"k", &[vec![1, 2, 3]]);
    assert_eq!(split, other);
    assert_eq!(split, joined);
    assert_eq!(hash_to_number(b"k", &[]), hash_to_number(b"k", &[vec![]]));
}

#[test]
fn concat_chunks_keeps_the_order() {
    assert_eq!(concat_chunks(&[vec![3, 1], vec![], vec![2], vec![0, 9]]), vec![3, 1, 2, 0, 9]);
    assert_eq!(concat_chunks(&[]), Vec::<u8>::new());
}

#[test]
fn coin_challenge_hashes_the_first_two_components() {
    let n = |v: u64| Number::from_bytes_le(&v.to_le_bytes());
    let coin = Coin { c1: n(13), c2: n(1), c3: n(9), c4: n(18), c5: n(6), c6: n(7), cd: n(19) };
    let challenge = CoinChallenge::new(b"m", &coin);
    assert_eq!(challenge.0, hash_to_number(b"m", &[vec![13], vec![1]]));
    // the challenge is the whole 256-bit number, not reduced
    let expected = "48398909434066110310403491357728235822036445090162292203391081986689626233612";
    let value = num_bigint::BigUint::from_bytes_le(&challenge.0.to_bytes_le());
    assert_eq!(value.to_string(), expected);
    // the other components do not enter
    let mut other = coin.clone();
    other.c3 = n(2);
    other.c6 = n(0);
    assert_eq!(CoinChallenge::new(b"m", &other).0, challenge.0);
    // components are hashed in their shortest little-endian form
    let wide = Coin { c1: n(0x0102), c2: n(0), ..coin };
    assert_eq!(CoinChallenge::new(b"m", &wide).0, hash_to_number(b"m", &[vec![2, 1, 0]]));
}
