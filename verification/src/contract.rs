use vstd::prelude::*;

use crate::error::ContractError;
use crate::msg::{
    Attribute, AttributeView, ExecuteMsg, InstantiateMsg, QueryAnswer, QueryMsg, Response,
};
use crate::state::{
    contains_string, has_bought, has_offer, has_project, has_user, is_first_bought, is_first_offer,
    is_first_project, is_first_user, lemma_offer_views_push, lemma_offer_views_update,
    lemma_project_views_push, lemma_project_views_update, lemma_str_views_push,
    lemma_bought_views_update, lemma_sum_rates_prefix, lemma_sum_rates_step,
    lemma_user_views_update, add_if_absent, new_offer_view, new_project_view, new_user_view, bought_views,
    coin_views, lemma_bought_views_push, offer_views, project_views, sum_rates, user_views,
    BougthOffer, BougthOfferView, Coin, CoinView, Offer,
    OfferView, Project, ProjectView, State, StateView, User, UserView,
};
use crate::utils::{generate_id, spec_id};

verus! {

/// Records the calling actor as administrator over an empty ledger.
pub fn instantiate(sender: &String, _msg: InstantiateMsg) -> (r: (State, Response))
    ensures
        r.0@ == (StateView {
            admin: sender@,
            users: Seq::empty(),
            projects: Seq::empty(),
        }),
        r.1@ == Seq::<AttributeView>::empty(),
{
    let state = State { admin: sender.clone(), users: Vec::new(), projects: Vec::new() };
    proof {
        assert(state@ =~= (StateView {
            admin: sender@,
            users: Seq::empty(),
            projects: Seq::empty(),
        }));
    }
    (state, Response::default())
}

/// The index of the first user record for `addr`, if any.
fn find_user(users: &Vec<User>, addr: &String) -> (r: Option<usize>)
    ensures
        match r {
            Some(i) => is_first_user(user_views(users@), addr@, i as int),
            None => !has_user(user_views(users@), addr@),
        },
{
    let mut i: usize = 0;
    while i < users.len()
        invariant
            i <= users@.len(),
            forall|j: int| 0 <= j < i ==> user_views(users@)[j].address != addr@,
        decreases users@.len() - i,
    {
        if users[i].address == *addr {
            return Some(i);
        }
        i = i + 1;
    }
    None
}

/// The index of the first project with id `id`, if any.
fn find_project(projects: &Vec<Project>, id: &String) -> (r: Option<usize>)
    ensures
        match r {
            Some(i) => is_first_project(project_views(projects@), id@, i as int),
            None => !has_project(project_views(projects@), id@),
        },
{
    let mut i: usize = 0;
    while i < projects.len()
        invariant
            i <= projects@.len(),
            forall|j: int| 0 <= j < i ==> project_views(projects@)[j].id != id@,
        decreases projects@.len() - i,
    {
        if projects[i].id == *id {
            return Some(i);
        }
        i = i + 1;
    }
    None
}

/// What registering leaves behind: one more user record, for the
/// caller, with zero statistics; nothing else moves.
pub open spec fn register_user_post(
    pre: StateView,
    post: StateView,
    sender: Seq<char>,
    r: Result<Response, ContractError>,
) -> bool {
    match r {
        Ok(resp) => resp@.len() == 0 && post == (StateView {
            users: pre.users.push(new_user_view(sender)),
            ..pre
        }),
        Err(_) => false,
    }
}

/// Appends a fresh user record for the calling actor. Registration is
/// not deduplicated: a second call appends a second record.
pub fn execute_register_user(state: &mut State, sender: &String) -> (r: Result<
    Response,
    ContractError,
>)
    ensures
        register_user_post(old(state)@, final(state)@, sender@, r),
{
    let user = User {
        address: sender.clone(),
        name: sender.clone(),
        total_spent: 0,
        project_funded: Vec::new(),
        project_watched: Vec::new(),
        project_owned: Vec::new(),
    };
    proof {
        assert(user@ =~= new_user_view(sender@));
    }
    state.users.push(user);
    proof {
        assert(state@ =~= (StateView {
            users: old(state)@.users.push(new_user_view(sender@)),
            ..old(state)@
        }));
    }
    Ok(Response::default())
}

/// Checks the funds attached to a purchase: exactly one entry, of the
/// expected denomination; returns its amount.
pub fn must_pay_funds(balance: &Vec<Coin>, denom: &String) -> (r: Result<u128, ContractError>)
    ensures
        match r {
            Ok(amount) => balance@.len() == 1 && balance@[0].denom@ == denom@ && amount
                == balance@[0].amount,
            Err(e) => match e {
                ContractError::NoFunds {} => balance@.len() == 0,
                ContractError::MissingDenom(d) => balance@.len() == 1 && balance@[0].denom@
                    != denom@ && d@ == denom@,
                ContractError::ExtraDenoms(d) => balance@.len() > 1 && d@ == denom@,
                _ => false,
            },
        },
{
    if balance.len() == 0 {
        Err(ContractError::NoFunds {})
    } else if balance.len() == 1 {
        if balance[0].denom == *denom {
            Ok(balance[0].amount)
        } else {
            Err(ContractError::MissingDenom(denom.clone()))
        }
    } else {
        Err(ContractError::ExtraDenoms(denom.clone()))
    }
}

/// What a user lookup returns: the first record of the identity, or
/// `NotFound` when the actor never registered.
pub open spec fn get_user_post(s: StateView, id: Seq<char>, r: Result<User, ContractError>) -> bool {
    match r {
        Ok(u) => exists|i: int| #[trigger] is_first_user(s.users, id, i) && u@ == s.users[i],
        Err(e) => e is NotFound && !has_user(s.users, id),
    }
}

/// Looks a user up by identity.
pub fn query_get_user(state: &State, id: &String) -> (r: Result<User, ContractError>)
    ensures
        get_user_post(state@, id@, r),
{
    match find_user(&state.users, id) {
        Some(i) => {
            let u = state.users[i].clone();
            proof {
                assert(is_first_user(state@.users, id@, i as int));
                assert(u@ == state@.users[i as int]);
            }
            Ok(u)
        },
        None => Err(ContractError::NotFound {}),
    }
}

/// Listing users returns the whole collection and never fails.
pub open spec fn list_user_post(s: StateView, r: Result<Vec<User>, ContractError>) -> bool {
    match r {
        Ok(us) => user_views(us@) == s.users,
        Err(_) => false,
    }
}

/// Returns the whole user collection.
pub fn query_list_user(state: &State) -> (r: Result<Vec<User>, ContractError>)
    ensures
        list_user_post(state@, r),
{
    Ok(crate::state::clone_users(&state.users))
}

/// The admin query returns the recorded identity and never fails.
pub open spec fn get_admin_post(s: StateView, r: Result<String, ContractError>) -> bool {
    match r {
        Ok(a) => a@ == s.admin,
        Err(_) => false,
    }
}

/// Returns the administrator identity recorded at initialization.
pub fn query_get_admin(state: &State) -> (r: Result<String, ContractError>)
    ensures
        get_admin_post(state@, r),
{
    Ok(state.admin.clone())
}


/// How the owner's owned-project list moves when a project with id
/// `pid` is created: the id is appended to the first user record of the
/// creator, and nothing happens when the creator never registered.
pub open spec fn owned_updated(
    pre: Seq<UserView>,
    post: Seq<UserView>,
    sender: Seq<char>,
    pid: Seq<char>,
) -> bool {
    if !has_user(pre, sender) {
        post == pre
    } else {
        exists|u: int|
            #[trigger] is_first_user(pre, sender, u) && post == pre.update(
                u,
                UserView { project_owned: pre[u].project_owned.push(pid), ..pre[u] },
            )
    }
}

/// What creating a project leaves behind: a fresh project appended,
/// the generated id surfaced as a response attribute and appended to
/// the creator's owned list. Creation never fails.
pub open spec fn create_project_post(
    pre: StateView,
    post: StateView,
    sender: Seq<char>,
    time: int,
    metadata: Seq<char>,
    r: Result<Response, ContractError>,
) -> bool {
    let pid = spec_id(sender, time as nat);
    match r {
        Ok(resp) => {
            &&& resp@.len() == 2
            &&& resp@[0] == (AttributeView { key: "action"@, value: "create_project"@ })
            &&& resp@[1] == (AttributeView { key: "project_id"@, value: pid })
            &&& post.admin == pre.admin
            &&& post.projects == pre.projects.push(new_project_view(sender, pid, metadata, time))
            &&& owned_updated(pre.users, post.users, sender, pid)
        },
        Err(_) => false,
    }
}

/// Allocates a new project owned by the calling actor, with a
/// generated id, creation time and milestone at the current block
/// time, and appends the id to the creator's owned-project list.
pub fn execute_create_project(
    state: &mut State,
    sender: &String,
    time: u64,
    metadata: String,
) -> (r: Result<Response, ContractError>)
    ensures
        create_project_post(old(state)@, final(state)@, sender@, time as int, metadata@, r),
{
    let ghost pre = old(state)@;
    let pid = generate_id(sender, time);
    let project = Project {
        owner: sender.clone(),
        id: pid.clone(),
        metadata: metadata,
        avg_rate: 0,
        create_at: time,
        total_pledged: 0,
        watchers: Vec::new(),
        offers: Vec::new(),
        bougth_offers: Vec::new(),
        milestone: time,
    };
    let ghost pidv = spec_id(sender@, time as nat);
    proof {
        assert(project@ =~= new_project_view(sender@, pidv, metadata@, time as int));
        lemma_project_views_push(state.projects@, project);
    }
    state.projects.push(project);
    proof {
        assert(state@.projects =~= pre.projects.push(
            new_project_view(sender@, pidv, metadata@, time as int),
        ));
        assert(state@.users == pre.users);
    }
    match find_user(&state.users, sender) {
        Some(u) => {
            let pid2 = pid.clone();
            let ghost users0 = state.users@;
            proof {
                assert(is_first_user(pre.users, sender@, u as int));
            }
            state.users[u].project_owned.push(pid2);
            proof {
                lemma_user_views_update(users0, u as int, state.users@[u as int]);
                lemma_str_views_push(users0[u as int].project_owned@, pid);
                assert(state.users@[u as int]@ =~= (UserView {
                    project_owned: pre.users[u as int].project_owned.push(pidv),
                    ..pre.users[u as int]
                }));
                assert(state@.users =~= pre.users.update(
                    u as int,
                    UserView {
                        project_owned: pre.users[u as int].project_owned.push(pidv),
                        ..pre.users[u as int]
                    },
                ));
                assert(owned_updated(pre.users, state@.users, sender@, pidv));
            }
        },
        None => {
            proof {
                assert(owned_updated(pre.users, state@.users, sender@, pidv));
            }
        },
    }
    let mut attrs: Vec<Attribute> = Vec::new();
    attrs.push(Attribute { key: "action".to_owned(), value: "create_project".to_owned() });
    attrs.push(Attribute { key: "project_id".to_owned(), value: pid });
    let resp = Response { attributes: attrs };
    proof {
        assert(resp@[0] =~= (AttributeView { key: "action"@, value: "create_project"@ }));
        assert(resp@[1] =~= (AttributeView { key: "project_id"@, value: pidv }));
    }
    Ok(resp)
}

/// What a metadata update leaves behind: the first project with the
/// given id carries the new metadata; `NotFound` when no project
/// matches, `Unauthorized` when the caller is not its owner.
pub open spec fn update_project_post(
    pre: StateView,
    post: StateView,
    sender: Seq<char>,
    id: Seq<char>,
    metadata: Seq<char>,
    r: Result<Response, ContractError>,
) -> bool {
    match r {
        Ok(resp) => resp@.len() == 0 && exists|i: int|
            #[trigger] is_first_project(pre.projects, id, i) && pre.projects[i].owner == sender
                && post == (StateView {
                projects: pre.projects.update(
                    i,
                    ProjectView { metadata: metadata, ..pre.projects[i] },
                ),
                ..pre
            }),
        Err(e) => post == pre && match e {
            ContractError::NotFound {  } => !has_project(pre.projects, id),
            ContractError::Unauthorized {  } => exists|i: int|
                #[trigger] is_first_project(pre.projects, id, i) && pre.projects[i].owner
                    != sender,
            _ => false,
        },
    }
}

/// Replaces the metadata of the caller's project.
pub fn execute_update_project(
    state: &mut State,
    sender: &String,
    id: &String,
    metadata: String,
) -> (r: Result<Response, ContractError>)
    ensures
        update_project_post(old(state)@, final(state)@, sender@, id@, metadata@, r),
{
    let ghost pre = old(state)@;
    let idx = match find_project(&state.projects, id) {
        None => {
            return Err(ContractError::NotFound {});
        },
        Some(i) => i,
    };
    proof {
        assert(is_first_project(pre.projects, id@, idx as int));
    }
    if !(state.projects[idx].owner == *sender) {
        proof {
            assert(pre.projects[idx as int].owner != sender@);
        }
        return Err(ContractError::Unauthorized {});
    }
    let ghost projects0 = state.projects@;
    state.projects[idx].metadata = metadata;
    proof {
        lemma_project_views_update(projects0, idx as int, state.projects@[idx as int]);
        assert(state.projects@[idx as int]@ =~= (ProjectView {
            metadata: metadata@,
            ..pre.projects[idx as int]
        }));
        assert(state@ =~= (StateView {
            projects: pre.projects.update(
                idx as int,
                ProjectView { metadata: metadata@, ..pre.projects[idx as int] },
            ),
            ..pre
        }));
    }
    Ok(Response::default())
}

/// What a milestone update leaves behind: the first project with the
/// given id carries the new milestone time; `NotFound` when no project
/// matches, `Unauthorized` when the caller is not its owner.
pub open spec fn update_timestamp_post(
    pre: StateView,
    post: StateView,
    sender: Seq<char>,
    id: Seq<char>,
    timestamp: int,
    r: Result<Response, ContractError>,
) -> bool {
    match r {
        Ok(resp) => resp@.len() == 0 && exists|i: int|
            #[trigger] is_first_project(pre.projects, id, i) && pre.projects[i].owner == sender
                && post == (StateView {
                projects: pre.projects.update(
                    i,
                    ProjectView { milestone: timestamp, ..pre.projects[i] },
                ),
                ..pre
            }),
        Err(e) => post == pre && match e {
            ContractError::NotFound {  } => !has_project(pre.projects, id),
            ContractError::Unauthorized {  } => exists|i: int|
                #[trigger] is_first_project(pre.projects, id, i) && pre.projects[i].owner
                    != sender,
            _ => false,
        },
    }
}

/// Replaces the milestone of the caller's project with the given
/// absolute time.
pub fn execute_update_timestamp(
    state: &mut State,
    sender: &String,
    id: &String,
    timestamp: u64,
) -> (r: Result<Response, ContractError>)
    ensures
        update_timestamp_post(old(state)@, final(state)@, sender@, id@, timestamp as int, r),
{
    let ghost pre = old(state)@;
    let idx = match find_project(&state.projects, id) {
        None => {
            return Err(ContractError::NotFound {});
        },
        Some(i) => i,
    };
    proof {
        assert(is_first_project(pre.projects, id@, idx as int));
    }
    if !(state.projects[idx].owner == *sender) {
        proof {
            assert(pre.projects[idx as int].owner != sender@);
        }
        return Err(ContractError::Unauthorized {});
    }
    let ghost projects0 = state.projects@;
    state.projects[idx].milestone = timestamp;
    proof {
        lemma_project_views_update(projects0, idx as int, state.projects@[idx as int]);
        assert(state.projects@[idx as int]@ =~= (ProjectView {
            milestone: timestamp as int,
            ..pre.projects[idx as int]
        }));
        assert(state@ =~= (StateView {
            projects: pre.projects.update(
                idx as int,
                ProjectView { milestone: timestamp as int, ..pre.projects[idx as int] },
            ),
            ..pre
        }));
    }
    Ok(Response::default())
}


/// The index of the first offer with id `id`, if any.
fn find_offer(offers: &Vec<Offer>, id: &String) -> (r: Option<usize>)
    ensures
        match r {
            Some(i) => is_first_offer(offer_views(offers@), id@, i as int),
            None => !has_offer(offer_views(offers@), id@),
        },
{
    let mut i: usize = 0;
    while i < offers.len()
        invariant
            i <= offers@.len(),
            forall|j: int| 0 <= j < i ==> offer_views(offers@)[j].id != id@,
        decreases offers@.len() - i,
    {
        if offers[i].id == *id {
            return Some(i);
        }
        i = i + 1;
    }
    None
}

/// What creating an offer leaves behind: a fresh offer, with a
/// generated id and the given price, metadata and expiry, appended to
/// the caller's project; `NotFound` when no project matches,
/// `Unauthorized` when the caller is not its owner.
pub open spec fn create_offer_post(
    pre: StateView,
    post: StateView,
    sender: Seq<char>,
    time: int,
    id: Seq<char>,
    min_price: int,
    metadata: Seq<char>,
    expire: int,
    r: Result<Response, ContractError>,
) -> bool {
    let oid = spec_id(sender, time as nat);
    match r {
        Ok(resp) => resp@.len() == 0 && exists|i: int|
            #[trigger] is_first_project(pre.projects, id, i) && pre.projects[i].owner == sender
                && post == (StateView {
                projects: pre.projects.update(
                    i,
                    ProjectView {
                        offers: pre.projects[i].offers.push(
                            new_offer_view(oid, min_price, metadata, time, expire),
                        ),
                        ..pre.projects[i]
                    },
                ),
                ..pre
            }),
        Err(e) => post == pre && match e {
            ContractError::NotFound {  } => !has_project(pre.projects, id),
            ContractError::Unauthorized {  } => exists|i: int|
                #[trigger] is_first_project(pre.projects, id, i) && pre.projects[i].owner
                    != sender,
            _ => false,
        },
    }
}

/// Appends a new offer to the caller's project.
pub fn execute_create_project_offer(
    state: &mut State,
    sender: &String,
    time: u64,
    id: &String,
    price: u128,
    metadata: String,
    expire: u64,
) -> (r: Result<Response, ContractError>)
    ensures
        create_offer_post(
            old(state)@,
            final(state)@,
            sender@,
            time as int,
            id@,
            price as int,
            metadata@,
            expire as int,
            r,
        ),
{
    let ghost pre = old(state)@;
    let idx = match find_project(&state.projects, id) {
        None => {
            return Err(ContractError::NotFound {});
        },
        Some(i) => i,
    };
    proof {
        assert(is_first_project(pre.projects, id@, idx as int));
    }
    if !(state.projects[idx].owner == *sender) {
        proof {
            assert(pre.projects[idx as int].owner != sender@);
        }
        return Err(ContractError::Unauthorized {});
    }
    let offer = Offer {
        id: generate_id(sender, time),
        metadata: metadata,
        min_price: price,
        create_at: time,
        expire_at: expire,
    };
    let ghost oid = spec_id(sender@, time as nat);
    let ghost projects0 = state.projects@;
    let ghost offers0 = state.projects@[idx as int].offers@;
    proof {
        assert(offer@ =~= new_offer_view(oid, price as int, metadata@, time as int, expire as int));
        lemma_offer_views_push(offers0, offer);
    }
    state.projects[idx].offers.push(offer);
    proof {
        lemma_project_views_update(projects0, idx as int, state.projects@[idx as int]);
        assert(state.projects@[idx as int]@ =~= (ProjectView {
            offers: pre.projects[idx as int].offers.push(
                new_offer_view(oid, price as int, metadata@, time as int, expire as int),
            ),
            ..pre.projects[idx as int]
        }));
        assert(state@ =~= (StateView {
            projects: pre.projects.update(
                idx as int,
                ProjectView {
                    offers: pre.projects[idx as int].offers.push(
                        new_offer_view(oid, price as int, metadata@, time as int, expire as int),
                    ),
                    ..pre.projects[idx as int]
                },
            ),
            ..pre
        }));
    }
    Ok(Response::default())
}

/// What an offer update leaves behind: the matching offer of the
/// caller's project carries the new price, metadata and expiry.
/// `NotFound` when no project matches or the project has no such
/// offer; `Unauthorized` when the caller is not the project's owner.
pub open spec fn update_offer_post(
    pre: StateView,
    post: StateView,
    sender: Seq<char>,
    id: Seq<char>,
    offer_id: Seq<char>,
    min_price: int,
    metadata: Seq<char>,
    expire: int,
    r: Result<Response, ContractError>,
) -> bool {
    match r {
        Ok(resp) => resp@.len() == 0 && exists|i: int|
            #[trigger] is_first_project(pre.projects, id, i) && pre.projects[i].owner == sender
                && exists|j: int|
                #[trigger] is_first_offer(pre.projects[i].offers, offer_id, j) && post == (
                StateView {
                    projects: pre.projects.update(
                        i,
                        ProjectView {
                            offers: pre.projects[i].offers.update(
                                j,
                                OfferView {
                                    min_price: min_price,
                                    metadata: metadata,
                                    expire_at: expire,
                                    ..pre.projects[i].offers[j]
                                },
                            ),
                            ..pre.projects[i]
                        },
                    ),
                    ..pre
                }),
        Err(e) => post == pre && match e {
            ContractError::NotFound {  } => !has_project(pre.projects, id) || (exists|i: int|
                #[trigger] is_first_project(pre.projects, id, i) && pre.projects[i].owner == sender
                    && !has_offer(pre.projects[i].offers, offer_id)),
            ContractError::Unauthorized {  } => exists|i: int|
                #[trigger] is_first_project(pre.projects, id, i) && pre.projects[i].owner
                    != sender,
            _ => false,
        },
    }
}

/// Replaces the mutable fields of one offer of the caller's project.
pub fn execute_update_project_offer(
    state: &mut State,
    sender: &String,
    id: &String,
    offer_id: &String,
    price: u128,
    metadata: String,
    expire: u64,
) -> (r: Result<Response, ContractError>)
    ensures
        update_offer_post(
            old(state)@,
            final(state)@,
            sender@,
            id@,
            offer_id@,
            price as int,
            metadata@,
            expire as int,
            r,
        ),
{
    let ghost pre = old(state)@;
    let idx = match find_project(&state.projects, id) {
        None => {
            return Err(ContractError::NotFound {});
        },
        Some(i) => i,
    };
    proof {
        assert(is_first_project(pre.projects, id@, idx as int));
    }
    if !(state.projects[idx].owner == *sender) {
        proof {
            assert(pre.projects[idx as int].owner != sender@);
        }
        return Err(ContractError::Unauthorized {});
    }
    let j = match find_offer(&state.projects[idx].offers, offer_id) {
        None => {
            return Err(ContractError::NotFound {});
        },
        Some(j) => j,
    };
    proof {
        assert(is_first_offer(pre.projects[idx as int].offers, offer_id@, j as int));
    }
    let ghost projects0 = state.projects@;
    let ghost offers0 = state.projects@[idx as int].offers@;
    state.projects[idx].offers[j].min_price = price;
    state.projects[idx].offers[j].metadata = metadata;
    state.projects[idx].offers[j].expire_at = expire;
    proof {
        assert(state.projects@ =~= projects0.update(idx as int, state.projects@[idx as int]));
        assert(state.projects@[idx as int].offers@ =~= offers0.update(
            j as int,
            state.projects@[idx as int].offers@[j as int],
        ));
        lemma_offer_views_update(
            offers0,
            j as int,
            state.projects@[idx as int].offers@[j as int],
        );
        assert(state.projects@[idx as int].offers@[j as int]@ =~= (OfferView {
            min_price: price as int,
            metadata: metadata@,
            expire_at: expire as int,
            ..pre.projects[idx as int].offers[j as int]
        }));
        lemma_project_views_update(projects0, idx as int, state.projects@[idx as int]);
        assert(state.projects@[idx as int]@ =~= (ProjectView {
            offers: pre.projects[idx as int].offers.update(
                j as int,
                OfferView {
                    min_price: price as int,
                    metadata: metadata@,
                    expire_at: expire as int,
                    ..pre.projects[idx as int].offers[j as int]
                },
            ),
            ..pre.projects[idx as int]
        }));
        assert(state@ =~= (StateView {
            projects: pre.projects.update(idx as int, state.projects@[idx as int]@),
            ..pre
        }));
    }
    Ok(Response::default())
}

/// What deleting an offer leaves behind: the caller's project keeps
/// every offer but those with the targeted id. `NotFound` when no
/// project matches or the project has no such offer; `Unauthorized`
/// when the caller is not the project's owner.
pub open spec fn delete_offer_post(
    pre: StateView,
    post: StateView,
    sender: Seq<char>,
    id: Seq<char>,
    offer_id: Seq<char>,
    r: Result<Response, ContractError>,
) -> bool {
    match r {
        Ok(resp) => resp@.len() == 0 && exists|i: int|
            #[trigger] is_first_project(pre.projects, id, i) && pre.projects[i].owner == sender
                && has_offer(pre.projects[i].offers, offer_id) && post == (StateView {
                projects: pre.projects.update(
                    i,
                    ProjectView {
                        offers: pre.projects[i].offers.filter(|o: OfferView| o.id != offer_id),
                        ..pre.projects[i]
                    },
                ),
                ..pre
            }),
        Err(e) => post == pre && match e {
            ContractError::NotFound {  } => !has_project(pre.projects, id) || (exists|i: int|
                #[trigger] is_first_project(pre.projects, id, i) && pre.projects[i].owner == sender
                    && !has_offer(pre.projects[i].offers, offer_id)),
            ContractError::Unauthorized {  } => exists|i: int|
                #[trigger] is_first_project(pre.projects, id, i) && pre.projects[i].owner
                    != sender,
            _ => false,
        },
    }
}

/// Removes the offer with the targeted id from the caller's project.
pub fn execute_delete_project_offer(
    state: &mut State,
    sender: &String,
    id: &String,
    offer_id: &String,
) -> (r: Result<Response, ContractError>)
    ensures
        delete_offer_post(old(state)@, final(state)@, sender@, id@, offer_id@, r),
{
    let ghost pre = old(state)@;
    let idx = match find_project(&state.projects, id) {
        None => {
            return Err(ContractError::NotFound {});
        },
        Some(i) => i,
    };
    proof {
        assert(is_first_project(pre.projects, id@, idx as int));
    }
    if !(state.projects[idx].owner == *sender) {
        proof {
            assert(pre.projects[idx as int].owner != sender@);
        }
        return Err(ContractError::Unauthorized {});
    }
    match find_offer(&state.projects[idx].offers, offer_id) {
        None => {
            return Err(ContractError::NotFound {});
        },
        Some(_) => {},
    };
    let kept = crate::state::remove_offer(&state.projects[idx].offers, offer_id);
    let ghost projects0 = state.projects@;
    state.projects[idx].offers = kept;
    proof {
        lemma_project_views_update(projects0, idx as int, state.projects@[idx as int]);
        assert(state.projects@[idx as int]@ =~= (ProjectView {
            offers: pre.projects[idx as int].offers.filter(|o: OfferView| o.id != offer_id@),
            ..pre.projects[idx as int]
        }));
        assert(state@ =~= (StateView {
            projects: pre.projects.update(idx as int, state.projects@[idx as int]@),
            ..pre
        }));
    }
    Ok(Response::default())
}


/// The index of the first purchase record with id `id`, if any.
fn find_bought(boughts: &Vec<BougthOffer>, id: &String) -> (r: Option<usize>)
    ensures
        match r {
            Some(i) => is_first_bought(bought_views(boughts@), id@, i as int),
            None => !has_bought(bought_views(boughts@), id@),
        },
{
    let mut i: usize = 0;
    while i < boughts.len()
        invariant
            i <= boughts@.len(),
            forall|j: int| 0 <= j < i ==> bought_views(boughts@)[j].id != id@,
        decreases boughts@.len() - i,
    {
        if boughts[i].id == *id {
            return Some(i);
        }
        i = i + 1;
    }
    None
}

/// What rating a purchase leaves behind: the first purchase record
/// with the targeted id carries the new rating. Any actor may rate;
/// `NotFound` when no project matches or it has no such purchase.
pub open spec fn rate_offer_post(
    pre: StateView,
    post: StateView,
    id: Seq<char>,
    offer_id: Seq<char>,
    rate: int,
    r: Result<Response, ContractError>,
) -> bool {
    match r {
        Ok(resp) => resp@.len() == 0 && exists|i: int|
            #[trigger] is_first_project(pre.projects, id, i) && exists|j: int|
                #[trigger] is_first_bought(pre.projects[i].bougth_offers, offer_id, j) && post == (
            StateView {
                projects: pre.projects.update(
                    i,
                    ProjectView {
                        bougth_offers: pre.projects[i].bougth_offers.update(
                            j,
                            BougthOfferView { rate: rate, ..pre.projects[i].bougth_offers[j] },
                        ),
                        ..pre.projects[i]
                    },
                ),
                ..pre
            }),
        Err(e) => post == pre && match e {
            ContractError::NotFound {  } => !has_project(pre.projects, id) || (exists|i: int|
                #[trigger] is_first_project(pre.projects, id, i) && !has_bought(
                    pre.projects[i].bougth_offers,
                    offer_id,
                )),
            _ => false,
        },
    }
}

/// Updates the rating recorded on one purchase of a project.
pub fn execute_rate_project_offer(
    state: &mut State,
    sender: &String,
    id: &String,
    offer_id: &String,
    rate: u128,
) -> (r: Result<Response, ContractError>)
    ensures
        rate_offer_post(old(state)@, final(state)@, id@, offer_id@, rate as int, r),
{
    let ghost pre = old(state)@;
    let idx = match find_project(&state.projects, id) {
        None => {
            return Err(ContractError::NotFound {});
        },
        Some(i) => i,
    };
    proof {
        assert(is_first_project(pre.projects, id@, idx as int));
    }
    let j = match find_bought(&state.projects[idx].bougth_offers, offer_id) {
        None => {
            return Err(ContractError::NotFound {});
        },
        Some(j) => j,
    };
    proof {
        assert(is_first_bought(pre.projects[idx as int].bougth_offers, offer_id@, j as int));
    }
    let ghost projects0 = state.projects@;
    let ghost boughts0 = state.projects@[idx as int].bougth_offers@;
    state.projects[idx].bougth_offers[j].rate = rate;
    proof {
        assert(state.projects@ =~= projects0.update(idx as int, state.projects@[idx as int]));
        assert(state.projects@[idx as int].bougth_offers@ =~= boughts0.update(
            j as int,
            state.projects@[idx as int].bougth_offers@[j as int],
        ));
        lemma_bought_views_update(
            boughts0,
            j as int,
            state.projects@[idx as int].bougth_offers@[j as int],
        );
        assert(state.projects@[idx as int].bougth_offers@[j as int]@ =~= (BougthOfferView {
            rate: rate as int,
            ..pre.projects[idx as int].bougth_offers[j as int]
        }));
        lemma_project_views_update(projects0, idx as int, state.projects@[idx as int]);
        assert(state.projects@[idx as int]@ =~= (ProjectView {
            bougth_offers: pre.projects[idx as int].bougth_offers.update(
                j as int,
                BougthOfferView {
                    rate: rate as int,
                    ..pre.projects[idx as int].bougth_offers[j as int]
                },
            ),
            ..pre.projects[idx as int]
        }));
        assert(state@ =~= (StateView {
            projects: pre.projects.update(idx as int, state.projects@[idx as int]@),
            ..pre
        }));
    }
    Ok(Response::default())
}

/// What recomputing a project's average rating leaves behind: the
/// truncating integer mean of all its purchase ratings. `NotFound`
/// when no project matches; a division failure, reported through the
/// generic environment error, when the project has no purchases; an
/// overflow failure when the ratings do not sum within range.
pub open spec fn rate_project_post(
    pre: StateView,
    post: StateView,
    id: Seq<char>,
    r: Result<Response, ContractError>,
) -> bool {
    match r {
        Ok(resp) => resp@.len() == 0 && exists|i: int|
            #[trigger] is_first_project(pre.projects, id, i) && pre.projects[i].bougth_offers.len()
                > 0 && sum_rates(pre.projects[i].bougth_offers) <= u128::MAX && post == (StateView {
                projects: pre.projects.update(
                    i,
                    ProjectView {
                        avg_rate: sum_rates(pre.projects[i].bougth_offers) / (
                        pre.projects[i].bougth_offers.len() as int),
                        ..pre.projects[i]
                    },
                ),
                ..pre
            }),
        Err(e) => post == pre && match e {
            ContractError::NotFound {  } => !has_project(pre.projects, id),
            ContractError::Std(_) => exists|i: int|
                #[trigger] is_first_project(pre.projects, id, i)
                    && pre.projects[i].bougth_offers.len() == 0,
            ContractError::AmountOverflow {  } => exists|i: int|
                #[trigger] is_first_project(pre.projects, id, i)
                    && pre.projects[i].bougth_offers.len() > 0 && sum_rates(
                    pre.projects[i].bougth_offers,
                ) > u128::MAX,
            _ => false,
        },
    }
}

/// Recomputes the average rating of a project as the floor of the
/// mean of all its purchase ratings.
pub fn execute_rate_project(
    state: &mut State,
    sender: &String,
    id: &String,
    _rate: u128,
) -> (r: Result<Response, ContractError>)
    ensures
        rate_project_post(old(state)@, final(state)@, id@, r),
{
    let ghost pre = old(state)@;
    let idx = match find_project(&state.projects, id) {
        None => {
            return Err(ContractError::NotFound {});
        },
        Some(i) => i,
    };
    proof {
        assert(is_first_project(pre.projects, id@, idx as int));
    }
    let ghost bs = pre.projects[idx as int].bougth_offers;
    let boughts = &state.projects[idx].bougth_offers;
    let n = boughts.len();
    if n == 0 {
        return Err(ContractError::Std("divide by zero: the project has no purchases".to_owned()));
    }
    proof {
        assert forall|j: int| 0 <= j < bs.len() implies bs[j].rate >= 0 by {
            assert(bs[j] == old(state).projects@[idx as int].bougth_offers@[j]@);
        }
    }
    let mut sum: u128 = 0;
    let mut k: usize = 0;
    proof {
        assert(bs.take(0) =~= Seq::<BougthOfferView>::empty());
    }
    while k < n
        invariant
            k <= n,
            n == boughts@.len(),
            bought_views(boughts@) == bs,
            pre == old(state)@,
            state@ == pre,
            is_first_project(pre.projects, id@, idx as int),
            bs == pre.projects[idx as int].bougth_offers,
            forall|j: int| 0 <= j < bs.len() ==> bs[j].rate >= 0,
            sum as int == sum_rates(bs.take(k as int)),
        decreases n - k,
    {
        let rate = boughts[k].rate;
        proof {
            lemma_sum_rates_step(bs, k as int);
            assert(bs[k as int] == boughts@[k as int]@);
            assert(bs[k as int].rate == rate as int);
        }
        if sum > u128::MAX - rate {
            proof {
                lemma_sum_rates_prefix(bs, k as int + 1);
                assert(sum_rates(bs.take(k as int + 1)) == sum as int + rate as int);
                assert(sum as int + rate as int > u128::MAX);
                assert(sum_rates(bs) > u128::MAX);
            }
            return Err(ContractError::AmountOverflow {});
        }
        sum = sum + rate;
        k = k + 1;
    }
    proof {
        assert(bs.take(n as int) =~= bs);
        assert(sum as int == sum_rates(bs));
    }
    let avg: u128 = sum / (n as u128);
    let ghost projects0 = state.projects@;
    state.projects[idx].avg_rate = avg;
    proof {
        assert(avg as int == sum_rates(bs) / (bs.len() as int));
        lemma_project_views_update(projects0, idx as int, state.projects@[idx as int]);
        assert(state.projects@[idx as int]@ =~= (ProjectView {
            avg_rate: sum_rates(bs) / (bs.len() as int),
            ..pre.projects[idx as int]
        }));
        assert(state@ =~= (StateView {
            projects: pre.projects.update(idx as int, state.projects@[idx as int]@),
            ..pre
        }));
    }
    Ok(Response::default())
}


/// How an actor's watched-project list moves on a watch: the project
/// id is added to the first user record of the actor unless already
/// present; nothing happens when the actor never registered.
pub open spec fn watched_updated(
    pre: Seq<UserView>,
    post: Seq<UserView>,
    sender: Seq<char>,
    id: Seq<char>,
) -> bool {
    if !has_user(pre, sender) {
        post == pre
    } else {
        exists|u: int|
            #[trigger] is_first_user(pre, sender, u) && post == pre.update(
                u,
                UserView {
                    project_watched: add_if_absent(pre[u].project_watched, id),
                    ..pre[u]
                },
            )
    }
}

/// What watching leaves behind: the actor joins the project's watcher
/// set and mirrors the id in its watched list, in both places only if
/// absent, so a second call changes nothing. `NotFound` when no
/// project matches.
pub open spec fn watch_post(
    pre: StateView,
    post: StateView,
    sender: Seq<char>,
    id: Seq<char>,
    r: Result<Response, ContractError>,
) -> bool {
    match r {
        Ok(resp) => resp@.len() == 0 && post.admin == pre.admin && exists|i: int|
            #[trigger] is_first_project(pre.projects, id, i) && post.projects == pre.projects.update(
                i,
                ProjectView {
                    watchers: add_if_absent(pre.projects[i].watchers, sender),
                    ..pre.projects[i]
                },
            ) && watched_updated(pre.users, post.users, sender, id),
        Err(e) => post == pre && e is NotFound && !has_project(pre.projects, id),
    }
}

/// Adds the calling actor to a project's watcher set, and the project
/// to the actor's watched list, deduplicating both.
pub fn execute_watch_project(state: &mut State, sender: &String, id: &String) -> (r: Result<
    Response,
    ContractError,
>)
    ensures
        watch_post(old(state)@, final(state)@, sender@, id@, r),
{
    let ghost pre = old(state)@;
    let idx = match find_project(&state.projects, id) {
        None => {
            return Err(ContractError::NotFound {});
        },
        Some(i) => i,
    };
    proof {
        assert(is_first_project(pre.projects, id@, idx as int));
    }
    if !contains_string(&state.projects[idx].watchers, sender) {
        let w = sender.clone();
        let ghost projects0 = state.projects@;
        let ghost watchers0 = state.projects@[idx as int].watchers@;
        proof {
            lemma_str_views_push(watchers0, w);
        }
        state.projects[idx].watchers.push(w);
        proof {
            lemma_project_views_update(projects0, idx as int, state.projects@[idx as int]);
            assert(add_if_absent(pre.projects[idx as int].watchers, sender@)
                == pre.projects[idx as int].watchers.push(sender@));
            assert(state.projects@[idx as int]@ =~= (ProjectView {
                watchers: add_if_absent(pre.projects[idx as int].watchers, sender@),
                ..pre.projects[idx as int]
            }));
            assert(state@.projects =~= pre.projects.update(
                idx as int,
                ProjectView {
                    watchers: add_if_absent(pre.projects[idx as int].watchers, sender@),
                    ..pre.projects[idx as int]
                },
            ));
        }
    } else {
        proof {
            assert(add_if_absent(pre.projects[idx as int].watchers, sender@)
                == pre.projects[idx as int].watchers);
            assert((ProjectView {
                watchers: add_if_absent(pre.projects[idx as int].watchers, sender@),
                ..pre.projects[idx as int]
            }) =~= pre.projects[idx as int]);
            assert(state@.projects =~= pre.projects.update(
                idx as int,
                ProjectView {
                    watchers: add_if_absent(pre.projects[idx as int].watchers, sender@),
                    ..pre.projects[idx as int]
                },
            ));
        }
    }
    let ghost mid_projects = state@.projects;
    match find_user(&state.users, sender) {
        Some(u) => {
            proof {
                assert(is_first_user(pre.users, sender@, u as int));
            }
            if !contains_string(&state.users[u].project_watched, id) {
                let pid = id.clone();
                let ghost users0 = state.users@;
                let ghost watched0 = state.users@[u as int].project_watched@;
                proof {
                    lemma_str_views_push(watched0, pid);
                }
                state.users[u].project_watched.push(pid);
                proof {
                    lemma_user_views_update(users0, u as int, state.users@[u as int]);
                    assert(add_if_absent(pre.users[u as int].project_watched, id@)
                        == pre.users[u as int].project_watched.push(id@));
                    assert(state.users@[u as int]@ =~= (UserView {
                        project_watched: add_if_absent(pre.users[u as int].project_watched, id@),
                        ..pre.users[u as int]
                    }));
                    assert(state@.users =~= pre.users.update(
                        u as int,
                        UserView {
                            project_watched: add_if_absent(
                                pre.users[u as int].project_watched,
                                id@,
                            ),
                            ..pre.users[u as int]
                        },
                    ));
                    assert(watched_updated(pre.users, state@.users, sender@, id@));
                }
            } else {
                proof {
                    assert(add_if_absent(pre.users[u as int].project_watched, id@)
                        == pre.users[u as int].project_watched);
                    assert((UserView {
                        project_watched: add_if_absent(pre.users[u as int].project_watched, id@),
                        ..pre.users[u as int]
                    }) =~= pre.users[u as int]);
                    assert(state@.users =~= pre.users.update(
                        u as int,
                        UserView {
                            project_watched: add_if_absent(
                                pre.users[u as int].project_watched,
                                id@,
                            ),
                            ..pre.users[u as int]
                        },
                    ));
                    assert(watched_updated(pre.users, state@.users, sender@, id@));
                }
            }
        },
        None => {
            proof {
                assert(watched_updated(pre.users, state@.users, sender@, id@));
            }
        },
    }
    proof {
        assert(state@.projects == mid_projects);
    }
    Ok(Response::default())
}

/// How an actor's watched-project list moves on an unwatch: every
/// occurrence of the project id leaves the first user record of the
/// actor; nothing happens when the actor never registered.
pub open spec fn unwatched_users(
    pre: Seq<UserView>,
    post: Seq<UserView>,
    sender: Seq<char>,
    id: Seq<char>,
) -> bool {
    if !has_user(pre, sender) {
        post == pre
    } else {
        exists|u: int|
            #[trigger] is_first_user(pre, sender, u) && post == pre.update(
                u,
                UserView {
                    project_watched: pre[u].project_watched.filter(|w: Seq<char>| w != id),
                    ..pre[u]
                },
            )
    }
}

/// What unwatching leaves behind: the actor leaves the project's
/// watcher set and the project leaves the actor's watched list.
/// `NotFound` when no project matches.
pub open spec fn unwatch_post(
    pre: StateView,
    post: StateView,
    sender: Seq<char>,
    id: Seq<char>,
    r: Result<Response, ContractError>,
) -> bool {
    match r {
        Ok(resp) => resp@.len() == 0 && post.admin == pre.admin && exists|i: int|
            #[trigger] is_first_project(pre.projects, id, i) && post.projects == pre.projects.update(
                i,
                ProjectView {
                    watchers: pre.projects[i].watchers.filter(|w: Seq<char>| w != sender),
                    ..pre.projects[i]
                },
            ) && unwatched_users(pre.users, post.users, sender, id),
        Err(e) => post == pre && e is NotFound && !has_project(pre.projects, id),
    }
}

/// Removes the calling actor from a project's watcher set and the
/// project from the actor's watched list.
pub fn execute_unwatch_project(state: &mut State, sender: &String, id: &String) -> (r: Result<
    Response,
    ContractError,
>)
    ensures
        unwatch_post(old(state)@, final(state)@, sender@, id@, r),
{
    let ghost pre = old(state)@;
    let idx = match find_project(&state.projects, id) {
        None => {
            return Err(ContractError::NotFound {});
        },
        Some(i) => i,
    };
    proof {
        assert(is_first_project(pre.projects, id@, idx as int));
    }
    let kept = crate::state::remove_string(&state.projects[idx].watchers, sender);
    let ghost projects0 = state.projects@;
    state.projects[idx].watchers = kept;
    proof {
        lemma_project_views_update(projects0, idx as int, state.projects@[idx as int]);
        assert(state.projects@[idx as int]@ =~= (ProjectView {
            watchers: pre.projects[idx as int].watchers.filter(|w: Seq<char>| w != sender@),
            ..pre.projects[idx as int]
        }));
        assert(state@.projects =~= pre.projects.update(
            idx as int,
            state.projects@[idx as int]@,
        ));
    }
    let ghost mid_projects = state@.projects;
    match find_user(&state.users, sender) {
        Some(u) => {
            proof {
                assert(is_first_user(pre.users, sender@, u as int));
            }
            let kept2 = crate::state::remove_string(&state.users[u].project_watched, id);
            let ghost users0 = state.users@;
            state.users[u].project_watched = kept2;
            proof {
                lemma_user_views_update(users0, u as int, state.users@[u as int]);
                assert(state.users@[u as int]@ =~= (UserView {
                    project_watched: pre.users[u as int].project_watched.filter(
                        |w: Seq<char>| w != id@,
                    ),
                    ..pre.users[u as int]
                }));
                assert(state@.users =~= pre.users.update(u as int, state.users@[u as int]@));
                assert(unwatched_users(pre.users, state@.users, sender@, id@));
            }
        },
        None => {
            proof {
                assert(unwatched_users(pre.users, state@.users, sender@, id@));
            }
        },
    }
    proof {
        assert(state@.projects == mid_projects);
    }
    Ok(Response::default())
}


/// How the buyer's user record moves on a purchase: the paid amount
/// joins the total spent, and the project id is added to the funded
/// and watched lists unless already present; nothing happens when the
/// buyer never registered.
pub open spec fn funded_watched_updated(
    pre: Seq<UserView>,
    post: Seq<UserView>,
    sender: Seq<char>,
    id: Seq<char>,
    amount: int,
) -> bool {
    if !has_user(pre, sender) {
        post == pre
    } else {
        exists|u: int|
            #[trigger] is_first_user(pre, sender, u) && post == pre.update(
                u,
                UserView {
                    total_spent: pre[u].total_spent + amount,
                    project_funded: add_if_absent(pre[u].project_funded, id),
                    project_watched: add_if_absent(pre[u].project_watched, id),
                    ..pre[u]
                },
            )
    }
}

/// What buying an offer leaves behind. With the project and offer
/// located, exactly one funds entry of the expected denomination
/// attached, and its amount at least the offer's minimum price, one
/// purchase record is appended, priced at the attached amount, and
/// the buyer's statistics move; any actor may buy. Otherwise the
/// matching failure is reported and nothing moves.
pub open spec fn buy_offer_post(
    pre: StateView,
    post: StateView,
    sender: Seq<char>,
    time: int,
    funds: Seq<CoinView>,
    denom: Seq<char>,
    project_id: Seq<char>,
    offer_id: Seq<char>,
    metadata: Seq<char>,
    rate: int,
    r: Result<Response, ContractError>,
) -> bool {
    let bid = spec_id(sender, time as nat);
    match r {
        Ok(resp) => resp@.len() == 0 && funds.len() == 1 && funds[0].denom == denom
            && post.admin == pre.admin && exists|i: int|
            #[trigger] is_first_project(pre.projects, project_id, i) && exists|j: int|
                #[trigger] is_first_offer(pre.projects[i].offers, offer_id, j) && funds[0].amount
                    >= pre.projects[i].offers[j].min_price && post.projects
                    == pre.projects.update(
                    i,
                    ProjectView {
                        bougth_offers: pre.projects[i].bougth_offers.push(
                            BougthOfferView {
                                id: bid,
                                price: funds[0].amount,
                                create_at: time,
                                metadata: metadata,
                                rate: rate,
                                buyer: sender,
                            },
                        ),
                        ..pre.projects[i]
                    },
                ) && funded_watched_updated(
                    pre.users,
                    post.users,
                    sender,
                    project_id,
                    funds[0].amount,
                ),
        Err(e) => post == pre && match e {
            ContractError::NotFound {  } => !has_project(pre.projects, project_id) || (exists|
                i: int,
            |
                #[trigger] is_first_project(pre.projects, project_id, i) && !has_offer(
                    pre.projects[i].offers,
                    offer_id,
                )),
            ContractError::NoFunds {  } => found_offer(pre.projects, project_id, offer_id)
                && funds.len() == 0,
            ContractError::MissingDenom(d) => found_offer(pre.projects, project_id, offer_id)
                && funds.len() == 1 && funds[0].denom != denom && d@ == denom,
            ContractError::ExtraDenoms(d) => found_offer(pre.projects, project_id, offer_id)
                && funds.len() > 1 && d@ == denom,
            ContractError::InsufficientFunds {  } => funds.len() == 1 && funds[0].denom == denom
                && exists|i: int|
                #[trigger] is_first_project(pre.projects, project_id, i) && exists|j: int|
                    #[trigger] is_first_offer(pre.projects[i].offers, offer_id, j)
                        && funds[0].amount < pre.projects[i].offers[j].min_price,
            ContractError::AmountOverflow {  } => funds.len() == 1 && funds[0].denom == denom
                && exists|i: int|
                #[trigger] is_first_project(pre.projects, project_id, i) && exists|j: int|
                    #[trigger] is_first_offer(pre.projects[i].offers, offer_id, j)
                        && funds[0].amount >= pre.projects[i].offers[j].min_price && exists|u: int|
                        #[trigger] is_first_user(pre.users, sender, u) && pre.users[u].total_spent
                            + funds[0].amount > u128::MAX,
            _ => false,
        },
    }
}

/// A project with the given id exists, and it holds an offer with the
/// given id.
pub open spec fn found_offer(
    ps: Seq<ProjectView>,
    project_id: Seq<char>,
    offer_id: Seq<char>,
) -> bool {
    exists|i: int|
        #[trigger] is_first_project(ps, project_id, i) && has_offer(ps[i].offers, offer_id)
}

/// Buys one offer of a project with the attached funds: validates the
/// funds against the offer's minimum price, records the purchase and
/// updates the buyer's statistics.
pub fn execute_buy_project_offer(
    state: &mut State,
    sender: &String,
    time: u64,
    funds: &Vec<Coin>,
    denom: &String,
    id: &String,
    offer_id: &String,
    metadata: String,
    rate: u128,
) -> (r: Result<Response, ContractError>)
    ensures
        buy_offer_post(
            old(state)@,
            final(state)@,
            sender@,
            time as int,
            coin_views(funds@),
            denom@,
            id@,
            offer_id@,
            metadata@,
            rate as int,
            r,
        ),
{
    let ghost pre = old(state)@;
    let ghost fv = coin_views(funds@);
    let idx = match find_project(&state.projects, id) {
        None => {
            return Err(ContractError::NotFound {});
        },
        Some(i) => i,
    };
    proof {
        assert(is_first_project(pre.projects, id@, idx as int));
    }
    let j = match find_offer(&state.projects[idx].offers, offer_id) {
        None => {
            return Err(ContractError::NotFound {});
        },
        Some(j) => j,
    };
    proof {
        assert(is_first_offer(pre.projects[idx as int].offers, offer_id@, j as int));
        assert(found_offer(pre.projects, id@, offer_id@));
        if fv.len() > 0 {
            assert(fv[0] == funds@[0]@);
        }
    }
    let amount = match must_pay_funds(funds, denom) {
        Ok(a) => a,
        Err(e) => {
            return Err(e);
        },
    };
    proof {
        assert(fv.len() == 1 && fv[0].denom == denom@ && fv[0].amount == amount as int);
    }
    if amount < state.projects[idx].offers[j].min_price {
        proof {
            assert(fv[0].amount < pre.projects[idx as int].offers[j as int].min_price);
        }
        return Err(ContractError::InsufficientFunds {});
    }
    let uopt = find_user(&state.users, sender);
    match uopt {
        Some(u) => {
            proof {
                assert(is_first_user(pre.users, sender@, u as int));
            }
            if state.users[u].total_spent > u128::MAX - amount {
                proof {
                    assert(pre.users[u as int].total_spent + fv[0].amount > u128::MAX);
                }
                return Err(ContractError::AmountOverflow {});
            }
        },
        None => {},
    }
    let bought = BougthOffer {
        id: generate_id(sender, time),
        price: amount,
        buyer: sender.clone(),
        create_at: time,
        rate: rate,
        metadata: metadata,
    };
    let ghost bid = spec_id(sender@, time as nat);
    let ghost bv = (BougthOfferView {
        id: bid,
        price: fv[0].amount,
        create_at: time as int,
        metadata: bought.metadata@,
        rate: rate as int,
        buyer: sender@,
    });
    let ghost projects0 = state.projects@;
    let ghost boughts0 = state.projects@[idx as int].bougth_offers@;
    proof {
        assert(bought@ =~= bv);
        lemma_bought_views_push(boughts0, bought);
    }
    state.projects[idx].bougth_offers.push(bought);
    proof {
        lemma_project_views_update(projects0, idx as int, state.projects@[idx as int]);
        assert(state.projects@[idx as int]@ =~= (ProjectView {
            bougth_offers: pre.projects[idx as int].bougth_offers.push(bv),
            ..pre.projects[idx as int]
        }));
        assert(state@.projects =~= pre.projects.update(
            idx as int,
            state.projects@[idx as int]@,
        ));
    }
    let ghost mid_projects = state@.projects;
    match uopt {
        Some(u) => {
            let ghost users0 = state.users@;
            let new_spent = state.users[u].total_spent + amount;
            state.users[u].total_spent = new_spent;
            if !contains_string(&state.users[u].project_funded, id) {
                let pid = id.clone();
                let ghost funded0 = state.users@[u as int].project_funded@;
                proof {
                    lemma_str_views_push(funded0, pid);
                }
                state.users[u].project_funded.push(pid);
            }
            if !contains_string(&state.users[u].project_watched, id) {
                let pid = id.clone();
                let ghost watched0 = state.users@[u as int].project_watched@;
                proof {
                    lemma_str_views_push(watched0, pid);
                }
                state.users[u].project_watched.push(pid);
            }
            proof {
                assert(state.users@ =~= users0.update(u as int, state.users@[u as int]));
                lemma_user_views_update(users0, u as int, state.users@[u as int]);
                assert(state.users@[u as int]@ =~= (UserView {
                    total_spent: pre.users[u as int].total_spent + fv[0].amount,
                    project_funded: add_if_absent(pre.users[u as int].project_funded, id@),
                    project_watched: add_if_absent(pre.users[u as int].project_watched, id@),
                    ..pre.users[u as int]
                }));
                assert(state@.users =~= pre.users.update(
                    u as int,
                    state.users@[u as int]@,
                ));
                assert(funded_watched_updated(pre.users, state@.users, sender@, id@, fv[0].amount));
            }
        },
        None => {
            proof {
                assert(funded_watched_updated(pre.users, state@.users, sender@, id@, fv[0].amount));
            }
        },
    }
    proof {
        assert(state@.projects == mid_projects);
    }
    Ok(Response::default())
}


/// What a project lookup returns: the first project with the id, or
/// `NotFound` when none matches.
pub open spec fn get_project_post(
    s: StateView,
    id: Seq<char>,
    r: Result<Project, ContractError>,
) -> bool {
    match r {
        Ok(p) => exists|i: int| #[trigger] is_first_project(s.projects, id, i) && p@ == s.projects[i],
        Err(e) => e is NotFound && !has_project(s.projects, id),
    }
}

/// Looks a project up by id.
pub fn query_get_project(state: &State, id: &String) -> (r: Result<Project, ContractError>)
    ensures
        get_project_post(state@, id@, r),
{
    match find_project(&state.projects, id) {
        Some(i) => {
            let p = state.projects[i].clone();
            proof {
                assert(is_first_project(state@.projects, id@, i as int));
                assert(p@ == state@.projects[i as int]);
            }
            Ok(p)
        },
        None => Err(ContractError::NotFound {}),
    }
}

/// Listing projects returns the whole collection and never fails.
pub open spec fn list_project_post(s: StateView, r: Result<Vec<Project>, ContractError>) -> bool {
    match r {
        Ok(ps) => project_views(ps@) == s.projects,
        Err(_) => false,
    }
}

/// Returns the whole project collection.
pub fn query_list_project(state: &State) -> (r: Result<Vec<Project>, ContractError>)
    ensures
        list_project_post(state@, r),
{
    Ok(crate::state::clone_projects(&state.projects))
}

/// What an offer listing returns: all offers of the first project
/// with the id, or `NotFound` when no project matches.
pub open spec fn get_project_offers_post(
    s: StateView,
    id: Seq<char>,
    r: Result<Vec<Offer>, ContractError>,
) -> bool {
    match r {
        Ok(os) => exists|i: int|
            #[trigger] is_first_project(s.projects, id, i) && offer_views(os@)
                == s.projects[i].offers,
        Err(e) => e is NotFound && !has_project(s.projects, id),
    }
}

/// Returns the offers of a project.
pub fn query_get_project_offers(state: &State, id: &String) -> (r: Result<
    Vec<Offer>,
    ContractError,
>)
    ensures
        get_project_offers_post(state@, id@, r),
{
    match find_project(&state.projects, id) {
        Some(i) => {
            let os = crate::state::clone_offers(&state.projects[i].offers);
            proof {
                assert(is_first_project(state@.projects, id@, i as int));
                assert(offer_views(os@) == state@.projects[i as int].offers);
            }
            Ok(os)
        },
        None => Err(ContractError::NotFound {}),
    }
}

/// What an offer lookup returns: the first offer with the id inside
/// the first project with the id; `NotFound` when either is missing.
pub open spec fn get_project_offer_post(
    s: StateView,
    id: Seq<char>,
    offer_id: Seq<char>,
    r: Result<Offer, ContractError>,
) -> bool {
    match r {
        Ok(o) => exists|i: int|
            #[trigger] is_first_project(s.projects, id, i) && exists|j: int|
                #[trigger] is_first_offer(s.projects[i].offers, offer_id, j) && o@
                    == s.projects[i].offers[j],
        Err(e) => e is NotFound && (!has_project(s.projects, id) || (exists|i: int|
            #[trigger] is_first_project(s.projects, id, i) && !has_offer(
                s.projects[i].offers,
                offer_id,
            ))),
    }
}

/// Looks one offer of a project up by id.
pub fn query_get_project_offer(state: &State, id: &String, offer_id: &String) -> (r: Result<
    Offer,
    ContractError,
>)
    ensures
        get_project_offer_post(state@, id@, offer_id@, r),
{
    let i = match find_project(&state.projects, id) {
        None => {
            return Err(ContractError::NotFound {});
        },
        Some(i) => i,
    };
    proof {
        assert(is_first_project(state@.projects, id@, i as int));
    }
    match find_offer(&state.projects[i].offers, offer_id) {
        Some(j) => {
            let o = state.projects[i].offers[j].clone();
            proof {
                assert(is_first_offer(state@.projects[i as int].offers, offer_id@, j as int));
                assert(o@ == state@.projects[i as int].offers[j as int]);
            }
            Ok(o)
        },
        None => Err(ContractError::NotFound {}),
    }
}

/// The transition every mutating operation makes, by message: each arm
/// is the postcondition of the operation the message names. The
/// declared but unimplemented project deletion has no arm.
pub open spec fn execute_post(
    pre: StateView,
    post: StateView,
    sender: Seq<char>,
    time: int,
    funds: Seq<CoinView>,
    denom: Seq<char>,
    msg: ExecuteMsg,
    r: Result<Response, ContractError>,
) -> bool {
    match msg {
        ExecuteMsg::RegisterUser {  } => register_user_post(pre, post, sender, r),
        ExecuteMsg::CreateProject { metadata } => create_project_post(
            pre,
            post,
            sender,
            time,
            metadata@,
            r,
        ),
        ExecuteMsg::UpdateProject { id, metadata } => update_project_post(
            pre,
            post,
            sender,
            id@,
            metadata@,
            r,
        ),
        ExecuteMsg::UpdateTimestamp { id, timestamp } => update_timestamp_post(
            pre,
            post,
            sender,
            id@,
            timestamp as int,
            r,
        ),
        ExecuteMsg::DeleteProject {  } => false,
        ExecuteMsg::CreateOffer { id, min_price, metadata, expire_at } => create_offer_post(
            pre,
            post,
            sender,
            time,
            id@,
            min_price as int,
            metadata@,
            expire_at as int,
            r,
        ),
        ExecuteMsg::UpdateOffer { id, offer_id, min_price, metadata, expire_at } => update_offer_post(
            pre,
            post,
            sender,
            id@,
            offer_id@,
            min_price as int,
            metadata@,
            expire_at as int,
            r,
        ),
        ExecuteMsg::DeleteOffer { id, offer_id } => delete_offer_post(
            pre,
            post,
            sender,
            id@,
            offer_id@,
            r,
        ),
        ExecuteMsg::BuyOffer { project_id, offer_id, metadata, rate } => buy_offer_post(
            pre,
            post,
            sender,
            time,
            funds,
            denom,
            project_id@,
            offer_id@,
            metadata@,
            rate as int,
            r,
        ),
        ExecuteMsg::RateOffer { project_id, offer_id, rate } => rate_offer_post(
            pre,
            post,
            project_id@,
            offer_id@,
            rate as int,
            r,
        ),
        ExecuteMsg::WatchProject { id } => watch_post(pre, post, sender, id@, r),
        ExecuteMsg::UnwatchProject { id } => unwatch_post(pre, post, sender, id@, r),
        ExecuteMsg::RateProject { id, rate } => rate_project_post(pre, post, id@, r),
    }
}

/// Dispatches one mutating operation. Project deletion is declared
/// interface without defined behaviour and is not accepted.
pub fn execute(
    state: &mut State,
    sender: &String,
    time: u64,
    funds: &Vec<Coin>,
    denom: &String,
    msg: ExecuteMsg,
) -> (r: Result<Response, ContractError>)
    requires
        !(msg is DeleteProject),
    ensures
        execute_post(
            old(state)@,
            final(state)@,
            sender@,
            time as int,
            coin_views(funds@),
            denom@,
            msg,
            r,
        ),
{
    match msg {
        ExecuteMsg::RegisterUser {  } => execute_register_user(state, sender),
        ExecuteMsg::CreateProject { metadata } => execute_create_project(
            state,
            sender,
            time,
            metadata,
        ),
        ExecuteMsg::UpdateProject { id, metadata } => execute_update_project(
            state,
            sender,
            &id,
            metadata,
        ),
        ExecuteMsg::UpdateTimestamp { id, timestamp } => execute_update_timestamp(
            state,
            sender,
            &id,
            timestamp,
        ),
        // unreachable: ruled out by the precondition
        ExecuteMsg::DeleteProject {  } => Err(ContractError::NoData {  }),
        ExecuteMsg::CreateOffer { id, min_price, metadata, expire_at } => execute_create_project_offer(
            state,
            sender,
            time,
            &id,
            min_price,
            metadata,
            expire_at,
        ),
        ExecuteMsg::UpdateOffer { id, offer_id, min_price, metadata, expire_at } => execute_update_project_offer(
            state,
            sender,
            &id,
            &offer_id,
            min_price,
            metadata,
            expire_at,
        ),
        ExecuteMsg::DeleteOffer { id, offer_id } => execute_delete_project_offer(
            state,
            sender,
            &id,
            &offer_id,
        ),
        ExecuteMsg::BuyOffer { project_id, offer_id, metadata, rate } => execute_buy_project_offer(
            state,
            sender,
            time,
            funds,
            denom,
            &project_id,
            &offer_id,
            metadata,
            rate,
        ),
        ExecuteMsg::RateOffer { project_id, offer_id, rate } => execute_rate_project_offer(
            state,
            sender,
            &project_id,
            &offer_id,
            rate,
        ),
        ExecuteMsg::WatchProject { id } => execute_watch_project(state, sender, &id),
        ExecuteMsg::UnwatchProject { id } => execute_unwatch_project(state, sender, &id),
        ExecuteMsg::RateProject { id, rate } => execute_rate_project(state, sender, &id, rate),
    }
}

/// What every implemented read-only operation answers, by message.
pub open spec fn query_post(
    s: StateView,
    msg: QueryMsg,
    r: Result<QueryAnswer, ContractError>,
) -> bool {
    match msg {
        QueryMsg::GetUser { id } => match r {
            Ok(a) => a matches QueryAnswer::User(u) && get_user_post(s, id@, Ok(u)),
            Err(e) => get_user_post(s, id@, Err(e)),
        },
        QueryMsg::ListUser {  } => match r {
            Ok(a) => a matches QueryAnswer::Users(us) && list_user_post(s, Ok(us)),
            Err(e) => list_user_post(s, Err(e)),
        },
        QueryMsg::GetProject { id } => match r {
            Ok(a) => a matches QueryAnswer::Project(p) && get_project_post(s, id@, Ok(p)),
            Err(e) => get_project_post(s, id@, Err(e)),
        },
        QueryMsg::ListProject {  } => match r {
            Ok(a) => a matches QueryAnswer::Projects(ps) && list_project_post(s, Ok(ps)),
            Err(e) => list_project_post(s, Err(e)),
        },
        QueryMsg::GetProjectOffers { project_id } => match r {
            Ok(a) => a matches QueryAnswer::Offers(os) && get_project_offers_post(
                s,
                project_id@,
                Ok(os),
            ),
            Err(e) => get_project_offers_post(s, project_id@, Err(e)),
        },
        QueryMsg::GetProjectOffer { project_id, offer_id } => match r {
            Ok(a) => a matches QueryAnswer::Offer(o) && get_project_offer_post(
                s,
                project_id@,
                offer_id@,
                Ok(o),
            ),
            Err(e) => get_project_offer_post(s, project_id@, offer_id@, Err(e)),
        },
        QueryMsg::GetAdmin {  } => match r {
            Ok(a) => a matches QueryAnswer::Admin(ad) && get_admin_post(s, Ok(ad)),
            Err(e) => get_admin_post(s, Err(e)),
        },
        _ => false,
    }
}

/// Dispatches one read-only operation. The declared but unimplemented
/// queries are not accepted.
pub fn query(state: &State, msg: QueryMsg) -> (r: Result<QueryAnswer, ContractError>)
    requires
        msg.is_implemented(),
    ensures
        query_post(state@, msg, r),
{
    match msg {
        QueryMsg::GetUser { id } => match query_get_user(state, &id) {
            Ok(u) => Ok(QueryAnswer::User(u)),
            Err(e) => Err(e),
        },
        QueryMsg::ListUser {  } => match query_list_user(state) {
            Ok(us) => Ok(QueryAnswer::Users(us)),
            Err(e) => Err(e),
        },
        QueryMsg::GetProject { id } => match query_get_project(state, &id) {
            Ok(p) => Ok(QueryAnswer::Project(p)),
            Err(e) => Err(e),
        },
        QueryMsg::ListProject {  } => match query_list_project(state) {
            Ok(ps) => Ok(QueryAnswer::Projects(ps)),
            Err(e) => Err(e),
        },
        QueryMsg::GetProjectOffers { project_id } => match query_get_project_offers(
            state,
            &project_id,
        ) {
            Ok(os) => Ok(QueryAnswer::Offers(os)),
            Err(e) => Err(e),
        },
        QueryMsg::GetProjectOffer { project_id, offer_id } => match query_get_project_offer(
            state,
            &project_id,
            &offer_id,
        ) {
            Ok(o) => Ok(QueryAnswer::Offer(o)),
            Err(e) => Err(e),
        },
        QueryMsg::GetAdmin {  } => match query_get_admin(state) {
            Ok(a) => Ok(QueryAnswer::Admin(a)),
            Err(e) => Err(e),
        },
        // unreachable: the remaining declared queries are ruled out by the precondition
        QueryMsg::GetFunding {  } => Err(ContractError::NoData {  }),
        QueryMsg::ListFunding {  } => Err(ContractError::NoData {  }),
        QueryMsg::GetWatching {  } => Err(ContractError::NoData {  }),
        QueryMsg::GetRating {  } => Err(ContractError::NoData {  }),
        QueryMsg::ListRating {  } => Err(ContractError::NoData {  }),
        QueryMsg::GetBalance {  } => Err(ContractError::NoData {  }),
    }
}


/// A collection has at most one first match: two first indices for
/// the same identity coincide.
pub proof fn lemma_first_user_unique(us: Seq<UserView>, addr: Seq<char>, i: int, j: int)
    requires
        is_first_user(us, addr, i),
        is_first_user(us, addr, j),
    ensures
        i == j,
{
}

/// A collection has at most one first match: two first indices for
/// the same project id coincide.
pub proof fn lemma_first_project_unique(ps: Seq<ProjectView>, id: Seq<char>, i: int, j: int)
    requires
        is_first_project(ps, id, i),
        is_first_project(ps, id, j),
    ensures
        i == j,
{
}


/// Law: registering a previously unknown actor and then fetching that
/// actor yields the fresh record — zero total spent and empty funded,
/// watched and owned lists. The record a lookup finds after the
/// registration is exactly `new_user_view`, whose statistics are zero.
pub proof fn lemma_register_then_get(us: Seq<UserView>, addr: Seq<char>)
    requires
        !has_user(us, addr),
    ensures
        is_first_user(us.push(new_user_view(addr)), addr, us.len() as int),
        forall|j: int|
            is_first_user(us.push(new_user_view(addr)), addr, j) ==> us.push(new_user_view(addr))[j]
                == new_user_view(addr),
{
    let post = us.push(new_user_view(addr));
    assert(post[us.len() as int] == new_user_view(addr));
    assert forall|j: int| 0 <= j < us.len() implies post[j].address != addr by {
        assert(post[j] == us[j]);
    }
    assert forall|j: int| is_first_user(post, addr, j) implies post[j] == new_user_view(addr) by {
        lemma_first_user_unique(post, addr, j, us.len() as int);
    }
}

/// Law: creating a project and then fetching it by the returned id
/// yields the fresh record — the given metadata, zero average rating,
/// no offers and no watchers — provided no earlier project already
/// bears the generated id (two creations by the same actor at the
/// same block time collide).
pub proof fn lemma_create_then_get(
    ps: Seq<ProjectView>,
    owner: Seq<char>,
    pid: Seq<char>,
    metadata: Seq<char>,
    time: int,
)
    requires
        !has_project(ps, pid),
    ensures
        is_first_project(ps.push(new_project_view(owner, pid, metadata, time)), pid, ps.len() as int),
        forall|j: int|
            is_first_project(ps.push(new_project_view(owner, pid, metadata, time)), pid, j)
                ==> ps.push(new_project_view(owner, pid, metadata, time))[j] == new_project_view(
                owner,
                pid,
                metadata,
                time,
            ),
{
    let p = new_project_view(owner, pid, metadata, time);
    let post = ps.push(p);
    assert(post[ps.len() as int] == p);
    assert forall|j: int| 0 <= j < ps.len() implies post[j].id != pid by {
        assert(post[j] == ps[j]);
    }
    assert forall|j: int| is_first_project(post, pid, j) implies post[j] == p by {
        lemma_first_project_unique(post, pid, j, ps.len() as int);
    }
}

/// Law: watching is idempotent. Adding a watcher a second time
/// changes nothing, and when the watcher occurred at most once before,
/// exactly one entry for it remains after any number of additions.
pub proof fn lemma_watch_idempotent(s: Seq<Seq<char>>, x: Seq<char>)
    ensures
        add_if_absent(add_if_absent(s, x), x) == add_if_absent(s, x),
        s.filter(|w: Seq<char>| w == x).len() <= 1 ==> add_if_absent(add_if_absent(s, x), x).filter(
            |w: Seq<char>| w == x,
        ).len() == 1,
{
    let pred = |w: Seq<char>| w == x;
    if s.contains(x) {
        assert(add_if_absent(s, x) == s);
        if s.filter(pred).len() <= 1 {
            let i = choose|i: int| 0 <= i < s.len() && s[i] == x;
            s.lemma_filter_contains(pred, i);
            assert(s.filter(pred).contains(s[i]));
            assert(s.filter(pred).len() >= 1);
        }
    } else {
        let post = s.push(x);
        assert(post[s.len() as int] == x);
        assert(post.contains(x));
        assert(add_if_absent(s, x) == post);
        assert(add_if_absent(post, x) == post);
        s.lemma_filter_push(x, pred);
        s.lemma_all_neg_filter_empty(pred);
        assert(s.filter(pred).len() == 0);
        assert(post.filter(pred).len() == 1);
    }
}

/// Law: unwatching after watching leaves no entry for the watcher;
/// the same removal drops a project from an actor's watched list.
pub proof fn lemma_unwatch_after_watch(s: Seq<Seq<char>>, x: Seq<char>)
    ensures
        !add_if_absent(s, x).filter(|w: Seq<char>| w != x).contains(x),
        add_if_absent(s, x).filter(|w: Seq<char>| w != x) == s.filter(|w: Seq<char>| w != x),
{
    let keep = |w: Seq<char>| w != x;
    let post = add_if_absent(s, x);
    assert forall|i: int| 0 <= i < post.filter(keep).len() implies post.filter(keep)[i] != x by {
        post.lemma_filter_pred(keep, i);
    }
    if post.filter(keep).contains(x) {
        let i = choose|i: int| 0 <= i < post.filter(keep).len() && post.filter(keep)[i] == x;
        assert(false);
    }
    if s.contains(x) {
        assert(post == s);
    } else {
        s.lemma_filter_push(x, keep);
        assert(post.filter(keep) == s.filter(keep));
    }
}

/// Law: after an offer is deleted, a lookup of its id fails — the
/// remaining offers hold no offer with the deleted id.
pub proof fn lemma_delete_then_get(os: Seq<OfferView>, offer_id: Seq<char>)
    ensures
        !has_offer(os.filter(|o: OfferView| o.id != offer_id), offer_id),
{
    let keep = |o: OfferView| o.id != offer_id;
    let kept = os.filter(keep);
    assert forall|i: int| 0 <= i < kept.len() implies kept[i].id != offer_id by {
        os.lemma_filter_pred(keep, i);
    }
}


} // verus!
