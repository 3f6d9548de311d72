use neariot::contract::must_pay_funds;
use neariot::state::Coin;
use neariot::utils::generate_id;
use neariot::ContractError;

#[test]
fn generate_id_encodes_identity_and_time() {
    assert_eq!(generate_id(&"a".to_string(), 1), "YV8x".to_string());
    assert_eq!(generate_id(&"ciuz".to_string(), 1000), "Y2l1el8xMDAw".to_string());
    assert_eq!(
        generate_id(&"creator".to_string(), 1_571_797_419),
        "Y3JlYXRvcl8xNTcxNzk3NDE5".to_string()
    );
}

#[test]
fn generate_id_collides_for_same_actor_and_time() {
    let a = generate_id(&"ciuz".to_string(), 42);
    let b = generate_id(&"ciuz".to_string(), 42);
    assert_eq!(a, b);
    let c = generate_id(&"ciuz".to_string(), 43);
    assert_ne!(a, c);
}

#[test]
fn must_pay_funds_accepts_single_matching_coin() {
    let funds = vec![Coin { denom: "orai".to_string(), amount: 77 }];
    assert_eq!(must_pay_funds(&funds, &"orai".to_string()).unwrap(), 77u128);
}

#[test]
fn must_pay_funds_rejects_bad_attachments() {
    let none: Vec<Coin> = vec![];
    assert_eq!(
        must_pay_funds(&none, &"orai".to_string()).unwrap_err(),
        ContractError::NoFunds {}
    );
    let wrong = vec![Coin { denom: "atom".to_string(), amount: 5 }];
    assert_eq!(
        must_pay_funds(&wrong, &"orai".to_string()).unwrap_err(),
        ContractError::MissingDenom("orai".to_string())
    );
    let two = vec![
        Coin { denom: "orai".to_string(), amount: 5 },
        Coin { denom: "atom".to_string(), amount: 5 },
    ];
    assert_eq!(
        must_pay_funds(&two, &"orai".to_string()).unwrap_err(),
        ContractError::ExtraDenoms("orai".to_string())
    );
}
