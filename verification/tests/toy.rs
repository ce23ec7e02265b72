use brands::{
    BrandsError, Coin, CoinChallenge, Issuer, Number, Params, PartialCoin, SpentCoin, Spender,
    WithdrawalChallenge, WithdrawalResponse,
};
use num_bigint::BigUint;

// The toy group q = 11, p = 23 with g = 2, g1 = 3, g2 = 4, and fixed secrets
// u1 = 5, x = 7, w = 3, s = 2, x1 = 4, x2 = 6, u = 9, v = 1.

fn num(value: u64) -> Number {
    Number::from_bytes_le(&value.to_le_bytes())
}

fn toy_params() -> Params {
    Params::toy("toy".to_string(), 23, 11, 2, 3, 4).unwrap()
}

fn toy_partial_coin() -> PartialCoin {
    PartialCoin { s: num(2), x1: num(4), x2: num(6), u: num(9), v: num(1) }
}

fn toy_parties() -> (Issuer, Spender) {
    let issuer = Issuer::with_secret(toy_params(), num(7));
    let mut spender = Spender::with_secret(toy_params(), num(5));
    spender.set_registration_id(issuer.register(&spender.i));
    (issuer, spender)
}

fn toy_coin(issuer: &Issuer, spender: &Spender) -> Coin {
    let (wp, wr) = issuer.commit(&spender.i, num(3));
    let (withdrawal, challenge) = spender.withdraw_with(wp, toy_partial_coin()).unwrap();
    let response = issuer.withdrawal_response(wr, &challenge);
    spender.make_coin(&withdrawal, response)
}

#[test]
fn toy_identities_are_powers_of_the_generators() {
    let (issuer, spender) = toy_parties();
    // h = 2^7 mod 23, i = 3^5 mod 23
    assert_eq!(issuer.h, num(13));
    assert_eq!(spender.i, num(13));
    // z = (13 * 4)^7 mod 23
    assert_eq!(issuer.register(&spender.i), num(3));
}

#[test]
fn toy_commitments() {
    let (issuer, spender) = toy_parties();
    let (wp, wr) = issuer.commit(&spender.i, num(3));
    // a = 2^3 mod 23, b = (13 * 4)^3 mod 23
    assert_eq!(wp.a, num(8));
    assert_eq!(wp.b, num(9));
    assert_eq!(wr.w, num(3));
}

#[test]
fn toy_withdrawal_values() {
    let (issuer, spender) = toy_parties();
    let (wp, _) = issuer.commit(&spender.i, num(3));
    let (withdrawal, challenge) = spender.withdraw_with(wp, toy_partial_coin()).unwrap();
    assert_eq!(withdrawal.a_by_issuer, num(8));
    assert_eq!(withdrawal.b_by_issuer, num(9));
    assert_eq!(withdrawal.a, num(13));
    assert_eq!(withdrawal.b, num(1));
    assert_eq!(withdrawal.zd, num(9));
    assert_eq!(withdrawal.ad, num(18));
    assert_eq!(withdrawal.bd, num(6));
    assert_eq!(withdrawal.challenge_d, num(19));
    // c = 19 / 9 mod 11 = 19 * 5 mod 11
    assert_eq!(challenge.c, num(7));
    assert_eq!(withdrawal.partial_coin.u, num(9));
}

#[test]
fn toy_response_is_w_plus_cx() {
    let (issuer, spender) = toy_parties();
    let (wp, wr) = issuer.commit(&spender.i, num(3));
    let (withdrawal, challenge) = spender.withdraw_with(wp, toy_partial_coin()).unwrap();
    // r = 3 + 7 * 7 mod 11
    let response = issuer.withdrawal_response(wr, &challenge);
    assert_eq!(response.r, num(8));
    assert_eq!(
        spender.verify_withdrawal_response(&issuer.h, &withdrawal, &challenge, &response),
        Ok(true)
    );
}

#[test]
fn toy_happy_path() {
    let (issuer, spender) = toy_parties();
    let coin = toy_coin(&issuer, &spender);
    assert_eq!(coin.c1, num(13));
    assert_eq!(coin.c2, num(1));
    assert_eq!(coin.c3, num(9));
    assert_eq!(coin.c4, num(18));
    assert_eq!(coin.c5, num(6));
    // c6 = 8 * 9 + 1 mod 11
    assert_eq!(coin.c6, num(7));
    assert_eq!(coin.cd, num(19));
    assert!(coin.verify(&issuer.h, &toy_params()));

    let challenge = CoinChallenge::new(b"m", &coin);
    let spent = spender.spend(coin.clone(), toy_partial_coin(), &challenge);
    // d = 3 mod 11: r1 = 3 * 5 * 2 + 4 mod 11, r2 = 3 * 2 + 6 mod 11
    assert_eq!(spent.r1, num(1));
    assert_eq!(spent.r2, num(1));
    assert!(spent.coin == coin);
    assert!(spent.verify(&challenge, &toy_params()));
}

#[test]
fn toy_double_spend_reveals_the_spender() {
    let (issuer, spender) = toy_parties();
    let coin = toy_coin(&issuer, &spender);
    let first = spender.spend(coin.clone(), toy_partial_coin(), &CoinChallenge::new(b"m", &coin));
    let second = spender.spend(coin.clone(), toy_partial_coin(), &CoinChallenge::new(b"n", &coin));
    assert_eq!(second.r1, num(7));
    assert_eq!(second.r2, num(0));
    assert!(first == second);
    assert_eq!(first.try_reveal_identity(&second, &toy_params()), Ok(num(13)));
    assert_eq!(first.reveal_identity(&second, &toy_params()), spender.i);
    assert_eq!(second.reveal_identity(&first, &toy_params()), spender.i);
}

#[test]
fn answers_with_out_of_range_responses_are_reduced() {
    // r1 - r1' = 12 - 7 = 5 and r2 - r2' = 1 - 11 = 1 modulo 11
    let (issuer, spender) = toy_parties();
    let coin = toy_coin(&issuer, &spender);
    let first = SpentCoin { coin: coin.clone(), r1: num(12), r2: num(1) };
    let second = SpentCoin { coin, r1: num(7), r2: num(11) };
    // g1^(5 / 1) = 3^5 mod 23
    assert_eq!(first.try_reveal_identity(&second, &toy_params()), Ok(num(13)));
}

#[test]
fn coin_with_first_component_one_is_refused() {
    let (issuer, spender) = toy_parties();
    let mut coin = toy_coin(&issuer, &spender);
    assert!(coin.verify(&issuer.h, &toy_params()));
    coin.c1 = num(1);
    assert!(!coin.verify(&issuer.h, &toy_params()));
    let digest = coin.cd.clone();
    assert!(!coin.verify_with_digest(&digest, &issuer.h, &toy_params()));
}

#[test]
fn coin_with_a_changed_component_is_refused() {
    let (issuer, spender) = toy_parties();
    let coin = toy_coin(&issuer, &spender);
    let mut other = coin.clone();
    other.c6 = num(8);
    assert!(!other.verify(&issuer.h, &toy_params()));
    let mut other = coin.clone();
    other.c2 = num(2);
    assert!(!other.verify(&issuer.h, &toy_params()));
    // under another issuer's identity the coin is not valid
    assert!(!coin.verify(&num(2), &toy_params()));
}

#[test]
fn verify_with_digest_checks_the_digest_and_both_equations() {
    let (issuer, _) = toy_parties();
    let coin = Coin {
        c1: num(13),
        c2: num(1),
        c3: num(9),
        c4: num(18),
        c5: num(6),
        c6: num(7),
        cd: num(19),
    };
    assert!(coin.verify_with_digest(&num(19), &issuer.h, &toy_params()));
    assert!(!coin.verify_with_digest(&num(18), &issuer.h, &toy_params()));
    let mut bad = coin.clone();
    bad.c4 = num(17);
    assert!(!bad.verify_with_digest(&num(19), &issuer.h, &toy_params()));
    let mut bad = coin.clone();
    bad.c5 = num(5);
    assert!(!bad.verify_with_digest(&num(19), &issuer.h, &toy_params()));
}

#[test]
fn corrupted_response_fails() {
    let (issuer, spender) = toy_parties();
    let (wp, wr) = issuer.commit(&spender.i, num(3));
    let (withdrawal, challenge) = spender.withdraw_with(wp, toy_partial_coin()).unwrap();
    let response = issuer.withdrawal_response(wr, &challenge);
    let bumped = BigUint::from_bytes_le(&response.r.to_bytes_le()) + 1u32;
    let corrupted = WithdrawalResponse { r: Number::from_bytes_le(&bumped.to_bytes_le()) };
    assert_eq!(corrupted.r, num(9));
    assert_eq!(
        spender.verify_withdrawal_response(&issuer.h, &withdrawal, &challenge, &corrupted),
        Ok(false)
    );
}

#[test]
fn response_to_another_challenge_fails() {
    let (issuer, spender) = toy_parties();
    let (wp, wr) = issuer.commit(&spender.i, num(3));
    let (withdrawal, challenge) = spender.withdraw_with(wp, toy_partial_coin()).unwrap();
    let response = issuer.withdrawal_response(wr, &WithdrawalChallenge { c: num(6) });
    assert_eq!(
        spender.verify_withdrawal_response(&issuer.h, &withdrawal, &challenge, &response),
        Ok(false)
    );
}

#[test]
fn single_spend_is_non_attributing() {
    let (issuer, spender) = toy_parties();
    let coin = toy_coin(&issuer, &spender);
    let challenge = CoinChallenge::new(b"m", &coin);
    let spent = spender.spend(coin.clone(), toy_partial_coin(), &challenge);
    let again = spender.spend(coin, toy_partial_coin(), &challenge);
    assert_eq!(spent.try_reveal_identity(&again, &toy_params()), Err(BrandsError::NonInvertible));
    assert_eq!(spent.try_reveal_identity(&spent, &toy_params()), Err(BrandsError::NonInvertible));
}

#[test]
fn spent_coins_of_different_coins_are_not_linked() {
    let (issuer, spender) = toy_parties();
    let coin = toy_coin(&issuer, &spender);
    let (wp, wr) = issuer.commit(&spender.i, num(4));
    let other_partial = PartialCoin { s: num(3), x1: num(5), x2: num(7), u: num(2), v: num(8) };
    let (withdrawal, challenge) = spender.withdraw_with(wp, other_partial.clone()).unwrap();
    let other_coin = spender.make_coin(&withdrawal, issuer.withdrawal_response(wr, &challenge));
    assert!(other_coin.verify(&issuer.h, &toy_params()));
    assert!(coin != other_coin);

    let spent = spender.spend(coin.clone(), toy_partial_coin(), &CoinChallenge::new(b"m", &coin));
    let other_spent = spender.spend(
        other_coin.clone(),
        other_partial,
        &CoinChallenge::new(b"m", &other_coin),
    );
    assert!(other_spent.verify(&CoinChallenge::new(b"m", &other_coin), &toy_params()));
    assert!(spent != other_spent);
    assert_eq!(
        spent.try_reveal_identity(&other_spent, &toy_params()),
        Err(BrandsError::CoinMismatch)
    );
}

#[test]
fn spent_coins_are_equal_by_their_coin_alone() {
    let (issuer, spender) = toy_parties();
    let coin = toy_coin(&issuer, &spender);
    let first = SpentCoin { coin: coin.clone(), r1: num(1), r2: num(2) };
    let second = SpentCoin { coin: coin.clone(), r1: num(3), r2: num(4) };
    assert!(first == second);
    let mut changed = coin;
    changed.c6 = num(0);
    let third = SpentCoin { coin: changed, r1: num(1), r2: num(2) };
    assert!(first != third);
}

#[test]
fn answer_to_another_challenge_fails() {
    let (issuer, spender) = toy_parties();
    let coin = toy_coin(&issuer, &spender);
    let spent = spender.spend(coin.clone(), toy_partial_coin(), &CoinChallenge::new(b"m", &coin));
    assert!(!spent.verify(&CoinChallenge::new(b"n", &coin), &toy_params()));
    assert!(!spent.verify(&CoinChallenge(num(4)), &toy_params()));
    // only the challenge modulo q counts in the group: 3 + 11
    assert!(spent.verify(&CoinChallenge(num(14)), &toy_params()));
}

#[test]
fn withdraw_before_registration_fails() {
    let issuer = Issuer::with_secret(toy_params(), num(7));
    let spender = Spender::with_secret(toy_params(), num(5));
    let (wp, _) = issuer.commit(&spender.i, num(3));
    match spender.withdraw_with(wp, toy_partial_coin()) {
        Err(e) => assert_eq!(e, BrandsError::NotRegistered),
        Ok(_) => panic!("a spender without a registration id withdrew"),
    }
    let (wp, _) = issuer.commit(&spender.i, num(3));
    match spender.withdraw(wp) {
        Err(e) => assert_eq!(e, BrandsError::NotRegistered),
        Ok(_) => panic!("a spender without a registration id withdrew"),
    }
}

#[test]
fn verify_response_before_registration_fails() {
    let (issuer, registered) = toy_parties();
    let (wp, wr) = issuer.commit(&registered.i, num(3));
    let (withdrawal, challenge) = registered.withdraw_with(wp, toy_partial_coin()).unwrap();
    let response = issuer.withdrawal_response(wr, &challenge);
    let fresh = Spender::with_secret(toy_params(), num(5));
    assert_eq!(
        fresh.verify_withdrawal_response(&issuer.h, &withdrawal, &challenge, &response),
        Err(BrandsError::NotRegistered)
    );
}

#[test]
fn withdraw_with_a_scalar_without_inverse_fails() {
    let (issuer, spender) = toy_parties();
    for u in [0u64, 11, 22] {
        let (wp, _) = issuer.commit(&spender.i, num(3));
        let partial = PartialCoin { s: num(2), x1: num(4), x2: num(6), u: num(u), v: num(1) };
        match spender.withdraw_with(wp, partial) {
            Err(e) => assert_eq!(e, BrandsError::NonInvertible),
            Ok(_) => panic!("withdrew with u = {}", u),
        }
    }
}

#[test]
fn withdrawal_challenge_divides_by_u() {
    let params = toy_params();
    // 19 / 9 = 19 * 5 = 7 modulo 11
    assert_eq!(WithdrawalChallenge::new(&num(19), &num(9), &params).unwrap().c, num(7));
    // 5 / 1
    assert_eq!(WithdrawalChallenge::new(&num(5), &num(1), &params).unwrap().c, num(5));
    // 1 / 10 = -1 = 10 modulo 11
    assert_eq!(WithdrawalChallenge::new(&num(1), &num(10), &params).unwrap().c, num(10));
    match WithdrawalChallenge::new(&num(19), &num(0), &params) {
        Err(e) => assert_eq!(e, BrandsError::NonInvertible),
        Ok(_) => panic!("divided by zero"),
    }
}

#[test]
fn random_withdrawals_stay_below_q_and_verify() {
    let params = toy_params();
    let eleven = BigUint::from(11u32);
    for _ in 0..40 {
        let issuer = Issuer::new(params.clone());
        let mut spender = Spender::new(params.clone());
        spender.set_registration_id(issuer.register(&spender.i));
        let (wp, wr) = issuer.setup_withdrawal_params(&spender.i);
        assert!(BigUint::from_bytes_le(&wr.w.to_bytes_le()) < eleven);
        match spender.withdraw(wp) {
            Ok((withdrawal, challenge)) => {
                let pc = &withdrawal.partial_coin;
                for scalar in [&pc.s, &pc.x1, &pc.x2, &pc.u, &pc.v, &challenge.c] {
                    assert!(BigUint::from_bytes_le(&scalar.to_bytes_le()) < eleven);
                }
                let response = issuer.withdrawal_response(wr, &challenge);
                assert_eq!(
                    spender.verify_withdrawal_response(
                        &issuer.h,
                        &withdrawal,
                        &challenge,
                        &response
                    ),
                    Ok(true)
                );
                let coin = spender.make_coin(&withdrawal, response);
                // the check refuses a coin whose first component is one
                assert_eq!(coin.verify(&issuer.h, &params), coin.c1 != num(1));
                let d = CoinChallenge::new(b"shop", &coin);
                let spent = spender.spend(coin, PartialCoin::from(withdrawal), &d);
                assert!(spent.verify(&d, &params));
            }
            // u = 0 was drawn
            Err(e) => assert_eq!(e, BrandsError::NonInvertible),
        }
    }
}
