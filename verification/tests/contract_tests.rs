use neariot::contract::{execute, instantiate, query};
use neariot::msg::{ExecuteMsg, InstantiateMsg, QueryAnswer, QueryMsg};
use neariot::state::{Coin, Project, State, User};
use neariot::ContractError;

fn s(x: &str) -> String {
    x.to_string()
}

fn coins(amount: u128, denom: &str) -> Vec<Coin> {
    vec![Coin { denom: s(denom), amount }]
}

fn time() -> u64 {
    1_571_797_419
}

fn setup() -> State {
    let (state, _res) = instantiate(&s("creator"), InstantiateMsg {});
    state
}

fn run(state: &mut State, sender: &str, funds: Vec<Coin>, msg: ExecuteMsg) -> Result<neariot::msg::Response, ContractError> {
    execute(state, &s(sender), time(), &funds, &s("orai"), msg)
}

fn get_user(state: &State, id: &str) -> Result<User, ContractError> {
    match query(state, QueryMsg::GetUser { id: s(id) })? {
        QueryAnswer::User(u) => Ok(u),
        _ => panic!("unexpected answer"),
    }
}

fn get_project(state: &State, id: &str) -> Result<Project, ContractError> {
    match query(state, QueryMsg::GetProject { id: s(id) })? {
        QueryAnswer::Project(p) => Ok(p),
        _ => panic!("unexpected answer"),
    }
}

fn make_project(state: &mut State, sender: &str, metadata: &str) -> String {
    let res = run(state, sender, coins(1000, "orai"), ExecuteMsg::CreateProject { metadata: s(metadata) }).unwrap();
    res.attributes[1].value.clone()
}

fn make_offer(state: &mut State, sender: &str, project_id: &str, min_price: u128) -> String {
    run(
        state,
        sender,
        coins(1000, "orai"),
        ExecuteMsg::CreateOffer { id: s(project_id), min_price, metadata: s("offer"), expire_at: 0 },
    )
    .unwrap();
    let project = get_project(state, project_id).unwrap();
    project.offers.last().unwrap().id.clone()
}

#[test]
fn proper_initialization() {
    let msg = InstantiateMsg {};
    let _info_funds = coins(1000, "orai");
    let (state, res) = instantiate(&s("creator"), msg);
    assert_eq!(0, res.attributes.len());
    assert_eq!(state.admin, s("creator"));
}

#[test]
fn register_user() {
    let mut state = setup();

    let res = run(&mut state, "ciuz", coins(1000, "orai"), ExecuteMsg::RegisterUser {}).unwrap();
    assert_eq!(0, res.attributes.len());

    let user = get_user(&state, "ciuz").unwrap();
    assert_eq!(user.total_spent, 0u128);
    assert_eq!(user.project_funded.len(), 0);
    assert_eq!(user.project_watched.len(), 0);
    assert_eq!(user.project_owned.len(), 0);
}

#[test]
fn create_project() {
    let mut state = setup();

    let _res = run(&mut state, "ciuz", coins(1000, "orai"), ExecuteMsg::RegisterUser {}).unwrap();

    let res = run(
        &mut state,
        "ciuz",
        coins(1000, "orai"),
        ExecuteMsg::CreateProject { metadata: s("example") },
    )
    .unwrap();
    let project_id = res.attributes[1].value.clone();

    let project = get_project(&state, &project_id).unwrap();
    assert_eq!(project.metadata, s("example"));
}

#[test]
fn create_project_defaults() {
    let mut state = setup();
    let pid = make_project(&mut state, "ciuz", "m");

    let project = get_project(&state, &pid).unwrap();
    assert_eq!(project.metadata, s("m"));
    assert_eq!(project.avg_rate, 0u128);
    assert_eq!(project.offers.len(), 0);
    assert_eq!(project.watchers.len(), 0);
    assert_eq!(project.bougth_offers.len(), 0);
    assert_eq!(project.owner, s("ciuz"));
    assert_eq!(project.create_at, time());
    assert_eq!(project.milestone, time());
}

#[test]
fn create_project_updates_owned_list() {
    let mut state = setup();
    run(&mut state, "ciuz", coins(1000, "orai"), ExecuteMsg::RegisterUser {}).unwrap();
    let pid = make_project(&mut state, "ciuz", "m");

    let user = get_user(&state, "ciuz").unwrap();
    assert_eq!(user.project_owned, vec![pid]);
}

#[test]
fn non_owner_is_unauthorized() {
    let mut state = setup();
    let pid = make_project(&mut state, "owner", "m");
    let oid = make_offer(&mut state, "owner", &pid, 100);

    let update = ExecuteMsg::UpdateProject { id: pid.clone(), metadata: s("x") };
    assert_eq!(
        run(&mut state, "mallory", coins(1, "orai"), update).unwrap_err(),
        ContractError::Unauthorized {}
    );
    let stamp = ExecuteMsg::UpdateTimestamp { id: pid.clone(), timestamp: 7 };
    assert_eq!(
        run(&mut state, "mallory", coins(1, "orai"), stamp).unwrap_err(),
        ContractError::Unauthorized {}
    );
    let offer = ExecuteMsg::CreateOffer { id: pid.clone(), min_price: 5, metadata: s("o"), expire_at: 9 };
    assert_eq!(
        run(&mut state, "mallory", coins(1, "orai"), offer).unwrap_err(),
        ContractError::Unauthorized {}
    );
    let upd_offer = ExecuteMsg::UpdateOffer {
        id: pid.clone(),
        offer_id: oid.clone(),
        min_price: 5,
        metadata: s("o"),
        expire_at: 9,
    };
    assert_eq!(
        run(&mut state, "mallory", coins(1, "orai"), upd_offer).unwrap_err(),
        ContractError::Unauthorized {}
    );
    let del_offer = ExecuteMsg::DeleteOffer { id: pid.clone(), offer_id: oid.clone() };
    assert_eq!(
        run(&mut state, "mallory", coins(1, "orai"), del_offer).unwrap_err(),
        ContractError::Unauthorized {}
    );

    // the owner succeeds
    let update = ExecuteMsg::UpdateProject { id: pid.clone(), metadata: s("x") };
    run(&mut state, "owner", coins(1, "orai"), update).unwrap();
    let project = get_project(&state, &pid).unwrap();
    assert_eq!(project.metadata, s("x"));
}

#[test]
fn update_timestamp_sets_milestone() {
    let mut state = setup();
    let pid = make_project(&mut state, "owner", "m");
    run(
        &mut state,
        "owner",
        coins(1, "orai"),
        ExecuteMsg::UpdateTimestamp { id: pid.clone(), timestamp: 424_242 },
    )
    .unwrap();
    let project = get_project(&state, &pid).unwrap();
    assert_eq!(project.milestone, 424_242u64);
    assert_eq!(project.create_at, time());
}

#[test]
fn update_offer_changes_fields() {
    let mut state = setup();
    let pid = make_project(&mut state, "owner", "m");
    let oid = make_offer(&mut state, "owner", &pid, 100);
    run(
        &mut state,
        "owner",
        coins(1, "orai"),
        ExecuteMsg::UpdateOffer {
            id: pid.clone(),
            offer_id: oid.clone(),
            min_price: 250,
            metadata: s("better"),
            expire_at: 33,
        },
    )
    .unwrap();
    let project = get_project(&state, &pid).unwrap();
    assert_eq!(project.offers.len(), 1);
    assert_eq!(project.offers[0].id, oid);
    assert_eq!(project.offers[0].min_price, 250u128);
    assert_eq!(project.offers[0].metadata, s("better"));
    assert_eq!(project.offers[0].expire_at, 33u64);
}

#[test]
fn update_missing_offer_is_not_found() {
    let mut state = setup();
    let pid = make_project(&mut state, "owner", "m");
    let err = run(
        &mut state,
        "owner",
        coins(1, "orai"),
        ExecuteMsg::UpdateOffer {
            id: pid.clone(),
            offer_id: s("nothing"),
            min_price: 1,
            metadata: s("o"),
            expire_at: 0,
        },
    )
    .unwrap_err();
    assert_eq!(err, ContractError::NotFound {});
}

#[test]
fn buy_offer_insufficient_funds() {
    let mut state = setup();
    let pid = make_project(&mut state, "owner", "m");
    let oid = make_offer(&mut state, "owner", &pid, 1000);

    let err = run(
        &mut state,
        "buyer",
        coins(999, "orai"),
        ExecuteMsg::BuyOffer { project_id: pid.clone(), offer_id: oid.clone(), metadata: s("b"), rate: 4 },
    )
    .unwrap_err();
    assert_eq!(err, ContractError::InsufficientFunds {});
    let project = get_project(&state, &pid).unwrap();
    assert_eq!(project.bougth_offers.len(), 0);
}

#[test]
fn buy_offer_records_purchase() {
    let mut state = setup();
    run(&mut state, "buyer", coins(1, "orai"), ExecuteMsg::RegisterUser {}).unwrap();
    let pid = make_project(&mut state, "owner", "m");
    let oid = make_offer(&mut state, "owner", &pid, 1000);

    run(
        &mut state,
        "buyer",
        coins(1500, "orai"),
        ExecuteMsg::BuyOffer { project_id: pid.clone(), offer_id: oid.clone(), metadata: s("b"), rate: 4 },
    )
    .unwrap();

    let project = get_project(&state, &pid).unwrap();
    assert_eq!(project.bougth_offers.len(), 1);
    assert_eq!(project.bougth_offers[0].price, 1500u128);
    assert_eq!(project.bougth_offers[0].buyer, s("buyer"));
    assert_eq!(project.bougth_offers[0].rate, 4u128);

    let user = get_user(&state, "buyer").unwrap();
    assert_eq!(user.total_spent, 1500u128);
    assert_eq!(user.project_funded, vec![pid.clone()]);
    assert_eq!(user.project_watched, vec![pid.clone()]);
}

#[test]
fn buy_offer_bad_funds() {
    let mut state = setup();
    let pid = make_project(&mut state, "owner", "m");
    let oid = make_offer(&mut state, "owner", &pid, 10);

    let buy = |funds: Vec<Coin>, state: &mut State| {
        run(
            state,
            "buyer",
            funds,
            ExecuteMsg::BuyOffer { project_id: pid.clone(), offer_id: oid.clone(), metadata: s("b"), rate: 1 },
        )
        .unwrap_err()
    };
    assert_eq!(buy(vec![], &mut state), ContractError::NoFunds {});
    assert_eq!(buy(coins(50, "atom"), &mut state), ContractError::MissingDenom(s("orai")));
    let two = vec![
        Coin { denom: s("orai"), amount: 50 },
        Coin { denom: s("atom"), amount: 50 },
    ];
    assert_eq!(buy(two, &mut state), ContractError::ExtraDenoms(s("orai")));
}

#[test]
fn buy_offer_overflow() {
    let mut state = setup();
    run(&mut state, "buyer", coins(1, "orai"), ExecuteMsg::RegisterUser {}).unwrap();
    let pid = make_project(&mut state, "owner", "m");
    let oid = make_offer(&mut state, "owner", &pid, 1);

    run(
        &mut state,
        "buyer",
        coins(u128::MAX, "orai"),
        ExecuteMsg::BuyOffer { project_id: pid.clone(), offer_id: oid.clone(), metadata: s("b"), rate: 1 },
    )
    .unwrap();
    let err = run(
        &mut state,
        "buyer",
        coins(1, "orai"),
        ExecuteMsg::BuyOffer { project_id: pid.clone(), offer_id: oid.clone(), metadata: s("b"), rate: 1 },
    )
    .unwrap_err();
    assert_eq!(err, ContractError::AmountOverflow {});
}

#[test]
fn rate_project_mean() {
    let mut state = setup();
    let pid = make_project(&mut state, "owner", "m");
    let oid = make_offer(&mut state, "owner", &pid, 1);

    for rate in [2u128, 4u128] {
        run(
            &mut state,
            "buyer",
            coins(10, "orai"),
            ExecuteMsg::BuyOffer { project_id: pid.clone(), offer_id: oid.clone(), metadata: s("b"), rate },
        )
        .unwrap();
    }
    run(&mut state, "anyone", coins(1, "orai"), ExecuteMsg::RateProject { id: pid.clone(), rate: 0 }).unwrap();
    let project = get_project(&state, &pid).unwrap();
    assert_eq!(project.avg_rate, 3u128);
}

#[test]
fn rate_project_truncates() {
    let mut state = setup();
    let pid = make_project(&mut state, "owner", "m");
    let oid = make_offer(&mut state, "owner", &pid, 1);

    for rate in [1u128, 2u128] {
        run(
            &mut state,
            "buyer",
            coins(10, "orai"),
            ExecuteMsg::BuyOffer { project_id: pid.clone(), offer_id: oid.clone(), metadata: s("b"), rate },
        )
        .unwrap();
    }
    run(&mut state, "anyone", coins(1, "orai"), ExecuteMsg::RateProject { id: pid.clone(), rate: 0 }).unwrap();
    let project = get_project(&state, &pid).unwrap();
    assert_eq!(project.avg_rate, 1u128);
}

#[test]
fn rate_project_without_purchases_fails_cleanly() {
    let mut state = setup();
    let pid = make_project(&mut state, "owner", "m");
    let err = run(&mut state, "anyone", coins(1, "orai"), ExecuteMsg::RateProject { id: pid.clone(), rate: 3 })
        .unwrap_err();
    assert!(matches!(err, ContractError::Std(_)));
    let project = get_project(&state, &pid).unwrap();
    assert_eq!(project.avg_rate, 0u128);
}

#[test]
fn rate_offer_updates_rating() {
    let mut state = setup();
    let pid = make_project(&mut state, "owner", "m");
    let oid = make_offer(&mut state, "owner", &pid, 1);
    run(
        &mut state,
        "buyer",
        coins(10, "orai"),
        ExecuteMsg::BuyOffer { project_id: pid.clone(), offer_id: oid.clone(), metadata: s("b"), rate: 1 },
    )
    .unwrap();
    let bid = get_project(&state, &pid).unwrap().bougth_offers[0].id.clone();
    run(
        &mut state,
        "buyer",
        coins(1, "orai"),
        ExecuteMsg::RateOffer { project_id: pid.clone(), offer_id: bid, rate: 5 },
    )
    .unwrap();
    let project = get_project(&state, &pid).unwrap();
    assert_eq!(project.bougth_offers[0].rate, 5u128);
}

#[test]
fn watch_project_is_idempotent() {
    let mut state = setup();
    run(&mut state, "fan", coins(1, "orai"), ExecuteMsg::RegisterUser {}).unwrap();
    let pid = make_project(&mut state, "owner", "m");

    run(&mut state, "fan", coins(1, "orai"), ExecuteMsg::WatchProject { id: pid.clone() }).unwrap();
    run(&mut state, "fan", coins(1, "orai"), ExecuteMsg::WatchProject { id: pid.clone() }).unwrap();

    let project = get_project(&state, &pid).unwrap();
    assert_eq!(project.watchers, vec![s("fan")]);
    let user = get_user(&state, "fan").unwrap();
    assert_eq!(user.project_watched, vec![pid.clone()]);
}

#[test]
fn unwatch_project_removes_watcher() {
    let mut state = setup();
    run(&mut state, "fan", coins(1, "orai"), ExecuteMsg::RegisterUser {}).unwrap();
    let pid = make_project(&mut state, "owner", "m");

    run(&mut state, "fan", coins(1, "orai"), ExecuteMsg::WatchProject { id: pid.clone() }).unwrap();
    run(&mut state, "fan", coins(1, "orai"), ExecuteMsg::UnwatchProject { id: pid.clone() }).unwrap();

    let project = get_project(&state, &pid).unwrap();
    assert_eq!(project.watchers.len(), 0);
    let user = get_user(&state, "fan").unwrap();
    assert_eq!(user.project_watched.len(), 0);
}

#[test]
fn delete_offer_then_lookup_fails() {
    let mut state = setup();
    let pid = make_project(&mut state, "owner", "m");
    let oid = make_offer(&mut state, "owner", &pid, 10);

    run(
        &mut state,
        "owner",
        coins(1, "orai"),
        ExecuteMsg::DeleteOffer { id: pid.clone(), offer_id: oid.clone() },
    )
    .unwrap();

    let err = query(&state, QueryMsg::GetProjectOffer { project_id: pid.clone(), offer_id: oid.clone() })
        .unwrap_err();
    assert_eq!(err, ContractError::NotFound {});
    let project = get_project(&state, &pid).unwrap();
    assert_eq!(project.offers.len(), 0);
}

#[test]
fn queries_on_missing_entities() {
    let state = setup();
    assert_eq!(get_user(&state, "ghost").unwrap_err(), ContractError::NotFound {});
    assert_eq!(get_project(&state, "ghost").unwrap_err(), ContractError::NotFound {});
    let err = query(&state, QueryMsg::GetProjectOffers { project_id: s("ghost") }).unwrap_err();
    assert_eq!(err, ContractError::NotFound {});
}

#[test]
fn list_and_admin_queries() {
    let mut state = setup();
    run(&mut state, "a", coins(1, "orai"), ExecuteMsg::RegisterUser {}).unwrap();
    run(&mut state, "b", coins(1, "orai"), ExecuteMsg::RegisterUser {}).unwrap();
    let pid = make_project(&mut state, "a", "m");

    match query(&state, QueryMsg::ListUser {}).unwrap() {
        QueryAnswer::Users(us) => assert_eq!(us.len(), 2),
        _ => panic!("unexpected answer"),
    }
    match query(&state, QueryMsg::ListProject {}).unwrap() {
        QueryAnswer::Projects(ps) => {
            assert_eq!(ps.len(), 1);
            assert_eq!(ps[0].id, pid);
        }
        _ => panic!("unexpected answer"),
    }
    match query(&state, QueryMsg::GetAdmin {}).unwrap() {
        QueryAnswer::Admin(a) => assert_eq!(a, s("creator")),
        _ => panic!("unexpected answer"),
    }
}

#[test]
fn offers_query_lists_project_offers() {
    let mut state = setup();
    let pid = make_project(&mut state, "owner", "m");
    let oid = make_offer(&mut state, "owner", &pid, 10);
    match query(&state, QueryMsg::GetProjectOffers { project_id: pid.clone() }).unwrap() {
        QueryAnswer::Offers(os) => {
            assert_eq!(os.len(), 1);
            assert_eq!(os[0].id, oid);
            assert_eq!(os[0].min_price, 10u128);
        }
        _ => panic!("unexpected answer"),
    }
}
