use brands::{CoinChallenge, Issuer, Params, PartialCoin, Spender};

// A 1024-bit group: p = 2q + 1 with p and q prime, and three elements of order q.
const P: &str = "170635838606142236835668582024526088839118584923917947104881361096573663241835425726334688227245750988284470206339098086628427330905070264154820140913414479495481939755079707182465802484020944276739164978360438985178968038653749024959908959885446602817557541340750337331201115159158715982367397805202392369959";
const Q: &str = "85317919303071118417834291012263044419559292461958973552440680548286831620917712863167344113622875494142235103169549043314213665452535132077410070456707239747740969877539853591232901242010472138369582489180219492589484019326874512479954479942723301408778770670375168665600557579579357991183698902601196184979";
const G: &str = "78905550771707176472046196448658658754654071756606341285020444888851221712001014402581392171061103428557663126791572695604498371123013626618548119268438831780941305546724071040612015830836639524139258909464724634581470073606830394285772846821881118677913790493744652978276338707019197283548145299345563445342";
const G1: &str = "144213202463066458950689095305115948799436864106778035179311009761777898846700415257265179855055640783875383274707858827879036088093691306491953244054442062637113833957623609837630797581860524549453053884680615629934658560796659252072641537163117203253862736053101508959059343335640009185013786003173143740486";
const G2: &str = "103961858063657931242220807914123164620648299315033976046547900569904472805027212131284033634769267152657588195583605493290002050604375954536172541064476442340046198608255280588784539677337268545146088599238052090050779330669947961063002552055764161954608835115838286817546073467543570323501842149742495540876";

#[test]
fn test_double_spent_coin_lifecycle() {
    let group = Params::from_str(String::new(), P, Q, G, G1, G2).unwrap();
    let params = Params::from_dh_group(
        "brandskey".to_string(),
        group.p,
        group.q,
        group.g,
        group.g1,
        group.g2,
    )
    .unwrap();
    assert!(params.usable());

    let issuer = Issuer::new(params.clone());
    let mut spender = Spender::new(params.clone());
    println!("Spender Identity: {:?}", spender.i);

    // Account Setup
    spender.set_registration_id(issuer.register(&spender.i));

    // Withdraw a coin
    // 1. Issuer setup parameters
    let (withdrawal_params, withdrawal_response_params) =
        issuer.setup_withdrawal_params(&spender.i);
    // 2. Spender creates a challenge for issuer
    let (withdrawal, withdrawal_challenge) = spender.withdraw(withdrawal_params).unwrap();
    // 3. Issuer responses
    let withdrawal_response =
        issuer.withdrawal_response(withdrawal_response_params, &withdrawal_challenge);
    // 4. (Optional) Spender verifies the response
    assert!(spender
        .verify_withdrawal_response(
            &issuer.h,
            &withdrawal,
            &withdrawal_challenge,
            &withdrawal_response
        )
        .unwrap());
    // 5. Spender makes a coin from the response
    let coin = spender.make_coin(&withdrawal, withdrawal_response);

    // Spend a coin
    // 1. Receiver verifies the coin
    assert!(coin.verify(&issuer.h, &params));
    // 2. Receiver challenges the spender
    let challenge = CoinChallenge::new("shopA-payment-item-1718193570".as_bytes(), &coin);
    // 3. Spender responds
    let partial_coin = PartialCoin::from(withdrawal);
    let spent_coin = spender.spend(coin.clone(), partial_coin.clone(), &challenge);
    // 4. Receiver verifies the spent coin
    assert!(spent_coin.verify(&challenge, &params));

    // !! Spender double spending !!
    let challenge_2 = CoinChallenge::new("shopB-payment-item-1718193571".as_bytes(), &coin);
    let spent_coin_2 = spender.spend(coin.clone(), partial_coin, &challenge_2);
    assert!(spent_coin_2.verify(&challenge_2, &params));

    // !! Issuer found same coin has been spent !!
    assert!(spent_coin == spent_coin_2);

    // Recover the identity of the spender
    let i = spent_coin.try_reveal_identity(&spent_coin_2, &params).unwrap();
    println!("Double spender is: {:?}", i);
    assert_eq!(i, spender.i);
    assert_eq!(spent_coin.reveal_identity(&spent_coin_2, &params), spender.i);
}
