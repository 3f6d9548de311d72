use vstd::prelude::*;

verus! {

/// A single funds entry attached to a call: an amount of one denomination.
#[derive(Debug)]
pub struct Coin {
    pub denom: String,
    pub amount: u128,
}

/// A sellable unit within a project, priced by a minimum amount.
#[derive(Debug)]
pub struct Offer {
    pub id: String,
    pub min_price: u128,
    pub metadata: String,
    pub create_at: u64,
    pub expire_at: u64,
}

/// The record of a completed purchase of an offer, including the rating
/// the buyer gave.
#[derive(Debug)]
pub struct BougthOffer {
    pub id: String,
    pub price: u128,
    pub create_at: u64,
    pub metadata: String,
    pub rate: u128,
    pub buyer: String,
}

/// A registered actor with its aggregate statistics.
#[derive(Debug)]
pub struct User {
    pub address: String,
    pub name: String,
    pub total_spent: u128,
    pub project_funded: Vec<String>,
    pub project_watched: Vec<String>,
    pub project_owned: Vec<String>,
}

/// A fundraising campaign owned by one actor, holding its offers,
/// purchases, watcher set and a mutable milestone time.
#[derive(Debug)]
pub struct Project {
    pub owner: String,
    pub id: String,
    pub metadata: String,
    pub avg_rate: u128,
    pub create_at: u64,
    pub total_pledged: u128,
    pub watchers: Vec<String>,
    pub offers: Vec<Offer>,
    pub bougth_offers: Vec<BougthOffer>,
    pub milestone: u64,
}

/// The whole persisted state: the administrator identity recorded at
/// initialization and the two flat collections every operation reads
/// and rewrites.
#[derive(Debug)]
pub struct State {
    pub admin: String,
    pub users: Vec<User>,
    pub projects: Vec<Project>,
}

/// Mathematical model of a `Coin`.
#[verifier::ext_equal]
pub struct CoinView {
    pub denom: Seq<char>,
    pub amount: int,
}

/// Mathematical model of an `Offer`.
#[verifier::ext_equal]
pub struct OfferView {
    pub id: Seq<char>,
    pub min_price: int,
    pub metadata: Seq<char>,
    pub create_at: int,
    pub expire_at: int,
}

/// Mathematical model of a `BougthOffer`.
#[verifier::ext_equal]
pub struct BougthOfferView {
    pub id: Seq<char>,
    pub price: int,
    pub create_at: int,
    pub metadata: Seq<char>,
    pub rate: int,
    pub buyer: Seq<char>,
}

/// Mathematical model of a `User`.
#[verifier::ext_equal]
pub struct UserView {
    pub address: Seq<char>,
    pub name: Seq<char>,
    pub total_spent: int,
    pub project_funded: Seq<Seq<char>>,
    pub project_watched: Seq<Seq<char>>,
    pub project_owned: Seq<Seq<char>>,
}

/// Mathematical model of a `Project`.
#[verifier::ext_equal]
pub struct ProjectView {
    pub owner: Seq<char>,
    pub id: Seq<char>,
    pub metadata: Seq<char>,
    pub avg_rate: int,
    pub create_at: int,
    pub total_pledged: int,
    pub watchers: Seq<Seq<char>>,
    pub offers: Seq<OfferView>,
    pub bougth_offers: Seq<BougthOfferView>,
    pub milestone: int,
}

/// Mathematical model of the whole `State`.
#[verifier::ext_equal]
pub struct StateView {
    pub admin: Seq<char>,
    pub users: Seq<UserView>,
    pub projects: Seq<ProjectView>,
}

pub open spec fn str_views(s: Seq<String>) -> Seq<Seq<char>> {
    s.map_values(|x: String| x@)
}

pub open spec fn offer_views(s: Seq<Offer>) -> Seq<OfferView> {
    s.map_values(|o: Offer| o@)
}

pub open spec fn bought_views(s: Seq<BougthOffer>) -> Seq<BougthOfferView> {
    s.map_values(|b: BougthOffer| b@)
}

pub open spec fn user_views(s: Seq<User>) -> Seq<UserView> {
    s.map_values(|u: User| u@)
}

pub open spec fn project_views(s: Seq<Project>) -> Seq<ProjectView> {
    s.map_values(|p: Project| p@)
}

impl View for Coin {
    type V = CoinView;

    open spec fn view(&self) -> CoinView {
        CoinView { denom: self.denom@, amount: self.amount as int }
    }
}

impl View for Offer {
    type V = OfferView;

    open spec fn view(&self) -> OfferView {
        OfferView {
            id: self.id@,
            min_price: self.min_price as int,
            metadata: self.metadata@,
            create_at: self.create_at as int,
            expire_at: self.expire_at as int,
        }
    }
}

impl View for BougthOffer {
    type V = BougthOfferView;

    open spec fn view(&self) -> BougthOfferView {
        BougthOfferView {
            id: self.id@,
            price: self.price as int,
            create_at: self.create_at as int,
            metadata: self.metadata@,
            rate: self.rate as int,
            buyer: self.buyer@,
        }
    }
}

impl View for User {
    type V = UserView;

    open spec fn view(&self) -> UserView {
        UserView {
            address: self.address@,
            name: self.name@,
            total_spent: self.total_spent as int,
            project_funded: str_views(self.project_funded@),
            project_watched: str_views(self.project_watched@),
            project_owned: str_views(self.project_owned@),
        }
    }
}

impl View for Project {
    type V = ProjectView;

    open spec fn view(&self) -> ProjectView {
        ProjectView {
            owner: self.owner@,
            id: self.id@,
            metadata: self.metadata@,
            avg_rate: self.avg_rate as int,
            create_at: self.create_at as int,
            total_pledged: self.total_pledged as int,
            watchers: str_views(self.watchers@),
            offers: offer_views(self.offers@),
            bougth_offers: bought_views(self.bougth_offers@),
            milestone: self.milestone as int,
        }
    }
}

impl View for State {
    type V = StateView;

    open spec fn view(&self) -> StateView {
        StateView {
            admin: self.admin@,
            users: user_views(self.users@),
            projects: project_views(self.projects@),
        }
    }
}

/// `i` is the index of the first user record whose identity is `addr`.
pub open spec fn is_first_user(us: Seq<UserView>, addr: Seq<char>, i: int) -> bool {
    &&& 0 <= i < us.len()
    &&& us[i].address == addr
    &&& forall|j: int| 0 <= j < i ==> us[j].address != addr
}

/// Some user record has identity `addr`.
pub open spec fn has_user(us: Seq<UserView>, addr: Seq<char>) -> bool {
    exists|i: int| 0 <= i < us.len() && us[i].address == addr
}

/// `i` is the index of the first project whose id is `id`.
pub open spec fn is_first_project(ps: Seq<ProjectView>, id: Seq<char>, i: int) -> bool {
    &&& 0 <= i < ps.len()
    &&& ps[i].id == id
    &&& forall|j: int| 0 <= j < i ==> ps[j].id != id
}

/// Some project has id `id`.
pub open spec fn has_project(ps: Seq<ProjectView>, id: Seq<char>) -> bool {
    exists|i: int| 0 <= i < ps.len() && ps[i].id == id
}

/// `i` is the index of the first offer whose id is `id`.
pub open spec fn is_first_offer(os: Seq<OfferView>, id: Seq<char>, i: int) -> bool {
    &&& 0 <= i < os.len()
    &&& os[i].id == id
    &&& forall|j: int| 0 <= j < i ==> os[j].id != id
}

/// Some offer has id `id`.
pub open spec fn has_offer(os: Seq<OfferView>, id: Seq<char>) -> bool {
    exists|i: int| 0 <= i < os.len() && os[i].id == id
}

/// `i` is the index of the first purchase record whose id is `id`.
pub open spec fn is_first_bought(bs: Seq<BougthOfferView>, id: Seq<char>, i: int) -> bool {
    &&& 0 <= i < bs.len()
    &&& bs[i].id == id
    &&& forall|j: int| 0 <= j < i ==> bs[j].id != id
}

/// Some purchase record has id `id`.
pub open spec fn has_bought(bs: Seq<BougthOfferView>, id: Seq<char>) -> bool {
    exists|i: int| 0 <= i < bs.len() && bs[i].id == id
}

/// The sum of the ratings of all purchase records.
pub open spec fn sum_rates(bs: Seq<BougthOfferView>) -> int
    decreases bs.len(),
{
    if bs.len() == 0 {
        0
    } else {
        sum_rates(bs.drop_last()) + bs.last().rate
    }
}

/// Appends `x` unless it is already present: the deduplicating insertion
/// used for watcher sets and watched/funded project lists.
pub open spec fn add_if_absent(s: Seq<Seq<char>>, x: Seq<char>) -> Seq<Seq<char>> {
    if s.contains(x) {
        s
    } else {
        s.push(x)
    }
}

/// The user record a registration creates for identity `addr`: zero
/// total spent and empty funded, watched and owned lists.
pub open spec fn new_user_view(addr: Seq<char>) -> UserView {
    UserView {
        address: addr,
        name: addr,
        total_spent: 0,
        project_funded: Seq::empty(),
        project_watched: Seq::empty(),
        project_owned: Seq::empty(),
    }
}

/// The project record creation makes: zero average rating and pledged
/// total, no watchers, offers or purchases, milestone at creation time.
pub open spec fn new_project_view(
    owner: Seq<char>,
    id: Seq<char>,
    metadata: Seq<char>,
    time: int,
) -> ProjectView {
    ProjectView {
        owner: owner,
        id: id,
        metadata: metadata,
        avg_rate: 0,
        create_at: time,
        total_pledged: 0,
        watchers: Seq::empty(),
        offers: Seq::empty(),
        bougth_offers: Seq::empty(),
        milestone: time,
    }
}

impl Clone for Offer {
    fn clone(&self) -> (res: Offer)
        ensures
            res@ == self@,
    {
        Offer {
            id: self.id.clone(),
            min_price: self.min_price,
            metadata: self.metadata.clone(),
            create_at: self.create_at,
            expire_at: self.expire_at,
        }
    }
}

impl Clone for BougthOffer {
    fn clone(&self) -> (res: BougthOffer)
        ensures
            res@ == self@,
    {
        BougthOffer {
            id: self.id.clone(),
            price: self.price,
            create_at: self.create_at,
            metadata: self.metadata.clone(),
            rate: self.rate,
            buyer: self.buyer.clone(),
        }
    }
}

impl Clone for User {
    fn clone(&self) -> (res: User)
        ensures
            res@ == self@,
    {
        let res = User {
            address: self.address.clone(),
            name: self.name.clone(),
            total_spent: self.total_spent,
            project_funded: clone_strings(&self.project_funded),
            project_watched: clone_strings(&self.project_watched),
            project_owned: clone_strings(&self.project_owned),
        };
        res
    }
}

impl Clone for Project {
    fn clone(&self) -> (res: Project)
        ensures
            res@ == self@,
    {
        let res = Project {
            owner: self.owner.clone(),
            id: self.id.clone(),
            metadata: self.metadata.clone(),
            avg_rate: self.avg_rate,
            create_at: self.create_at,
            total_pledged: self.total_pledged,
            watchers: clone_strings(&self.watchers),
            offers: clone_offers(&self.offers),
            bougth_offers: clone_boughts(&self.bougth_offers),
            milestone: self.milestone,
        };
        assert(res@ =~= self@);
        res
    }
}

/// Element-wise copy of the user collection.
pub(crate) fn clone_users(v: &Vec<User>) -> (res: Vec<User>)
    ensures
        user_views(res@) == user_views(v@),
{
    let mut res: Vec<User> = Vec::new();
    let mut i: usize = 0;
    while i < v.len()
        invariant
            i <= v@.len(),
            res@.len() == i as int,
            user_views(res@) == user_views(v@.take(i as int)),
        decreases v@.len() - i,
    {
        let c = v[i].clone();
        proof {
            assert(c@ == v@[i as int]@);
        }
        let ghost r0 = res@;
        res.push(c);
        proof {
            assert(v@.take(i + 1) =~= v@.take(i as int).push(v@[i as int]));
            assert forall|j: int| 0 <= j < i + 1 implies user_views(res@)[j] == user_views(
                v@.take(i + 1),
            )[j] by {
                if j < i {
                    assert(res@[j] == r0[j]);
                    assert(user_views(r0)[j] == user_views(v@.take(i as int))[j]);
                } else {
                    assert(res@[j] == r0.push(res@.last())[j]);
                }
            }
            assert(user_views(res@) =~= user_views(v@.take(i + 1)));
        }
        i = i + 1;
    }
    proof {
        assert(v@.take(v@.len() as int) =~= v@);
    }
    res
}

/// Element-wise copy of the project collection.
pub(crate) fn clone_projects(v: &Vec<Project>) -> (res: Vec<Project>)
    ensures
        project_views(res@) == project_views(v@),
{
    let mut res: Vec<Project> = Vec::new();
    let mut i: usize = 0;
    while i < v.len()
        invariant
            i <= v@.len(),
            res@.len() == i as int,
            project_views(res@) == project_views(v@.take(i as int)),
        decreases v@.len() - i,
    {
        let c = v[i].clone();
        proof {
            assert(c@ == v@[i as int]@);
        }
        let ghost r0 = res@;
        res.push(c);
        proof {
            assert(v@.take(i + 1) =~= v@.take(i as int).push(v@[i as int]));
            assert forall|j: int| 0 <= j < i + 1 implies project_views(res@)[j] == project_views(
                v@.take(i + 1),
            )[j] by {
                if j < i {
                    assert(res@[j] == r0[j]);
                    assert(project_views(r0)[j] == project_views(v@.take(i as int))[j]);
                } else {
                    assert(res@[j] == r0.push(res@.last())[j]);
                }
            }
            assert(project_views(res@) =~= project_views(v@.take(i + 1)));
        }
        i = i + 1;
    }
    proof {
        assert(v@.take(v@.len() as int) =~= v@);
    }
    res
}

/// Element-wise copy of a list of strings.
fn clone_strings(v: &Vec<String>) -> (res: Vec<String>)
    ensures
        res@ == v@,
{
    let mut res: Vec<String> = Vec::new();
    let mut i: usize = 0;
    while i < v.len()
        invariant
            i <= v@.len(),
            res@ == v@.take(i as int),
        decreases v@.len() - i,
    {
        res.push(v[i].clone());
        proof {
            assert(v@.take(i + 1) =~= v@.take(i as int).push(v@[i as int]));
        }
        i = i + 1;
    }
    proof {
        assert(v@.take(v@.len() as int) =~= v@);
    }
    res
}

/// Element-wise copy of a list of offers.
pub(crate) fn clone_offers(v: &Vec<Offer>) -> (res: Vec<Offer>)
    ensures
        offer_views(res@) == offer_views(v@),
{
    let mut res: Vec<Offer> = Vec::new();
    let mut i: usize = 0;
    while i < v.len()
        invariant
            i <= v@.len(),
            res@.len() == i as int,
            offer_views(res@) == offer_views(v@.take(i as int)),
        decreases v@.len() - i,
    {
        let c = v[i].clone();
        proof {
            assert(c@ == v@[i as int]@);
        }
        let ghost r0 = res@;
        res.push(c);
        proof {
            assert(v@.take(i + 1) =~= v@.take(i as int).push(v@[i as int]));
            assert forall|j: int| 0 <= j < i + 1 implies offer_views(res@)[j] == offer_views(
                v@.take(i + 1),
            )[j] by {
                if j < i {
                    assert(res@[j] == r0[j]);
                    assert(offer_views(r0)[j] == offer_views(v@.take(i as int))[j]);
                } else {
                    assert(res@[j] == r0.push(res@.last())[j]);
                }
            }
            assert(offer_views(res@) =~= offer_views(v@.take(i + 1)));
        }
        i = i + 1;
    }
    proof {
        assert(v@.take(v@.len() as int) =~= v@);
    }
    res
}

/// Element-wise copy of a list of purchase records.
fn clone_boughts(v: &Vec<BougthOffer>) -> (res: Vec<BougthOffer>)
    ensures
        bought_views(res@) == bought_views(v@),
{
    let mut res: Vec<BougthOffer> = Vec::new();
    let mut i: usize = 0;
    while i < v.len()
        invariant
            i <= v@.len(),
            res@.len() == i as int,
            bought_views(res@) == bought_views(v@.take(i as int)),
        decreases v@.len() - i,
    {
        let c = v[i].clone();
        proof {
            assert(c@ == v@[i as int]@);
        }
        let ghost r0 = res@;
        res.push(c);
        proof {
            assert(v@.take(i + 1) =~= v@.take(i as int).push(v@[i as int]));
            assert forall|j: int| 0 <= j < i + 1 implies bought_views(res@)[j] == bought_views(
                v@.take(i + 1),
            )[j] by {
                if j < i {
                    assert(res@[j] == r0[j]);
                    assert(bought_views(r0)[j] == bought_views(v@.take(i as int))[j]);
                } else {
                    assert(res@[j] == r0.push(res@.last())[j]);
                }
            }
            assert(bought_views(res@) =~= bought_views(v@.take(i + 1)));
        }
        i = i + 1;
    }
    proof {
        assert(v@.take(v@.len() as int) =~= v@);
    }
    res
}


/// Mathematical models of the attached funds entries.
pub open spec fn coin_views(s: Seq<Coin>) -> Seq<CoinView> {
    s.map_values(|c: Coin| c@)
}

/// The offer record creation makes at `time`.
pub open spec fn new_offer_view(
    id: Seq<char>,
    min_price: int,
    metadata: Seq<char>,
    create_at: int,
    expire_at: int,
) -> OfferView {
    OfferView {
        id: id,
        min_price: min_price,
        metadata: metadata,
        create_at: create_at,
        expire_at: expire_at,
    }
}

pub proof fn lemma_str_views_push(s: Seq<String>, x: String)
    ensures
        str_views(s.push(x)) =~= str_views(s).push(x@),
{
    assert forall|j: int| 0 <= j < s.len() + 1 implies str_views(s.push(x))[j] == str_views(
        s,
    ).push(x@)[j] by {
        if j < s.len() {
            assert(s.push(x)[j] == s[j]);
        } else {
            assert(s.push(x)[j] == x);
        }
    }
}


pub proof fn lemma_project_views_push(s: Seq<Project>, p: Project)
    ensures
        project_views(s.push(p)) =~= project_views(s).push(p@),
{
    assert forall|j: int| 0 <= j < s.len() + 1 implies project_views(s.push(p))[j]
        == project_views(s).push(p@)[j] by {
        if j < s.len() {
            assert(s.push(p)[j] == s[j]);
        } else {
            assert(s.push(p)[j] == p);
        }
    }
}

pub proof fn lemma_offer_views_push(s: Seq<Offer>, o: Offer)
    ensures
        offer_views(s.push(o)) =~= offer_views(s).push(o@),
{
    assert forall|j: int| 0 <= j < s.len() + 1 implies offer_views(s.push(o))[j] == offer_views(
        s,
    ).push(o@)[j] by {
        if j < s.len() {
            assert(s.push(o)[j] == s[j]);
        } else {
            assert(s.push(o)[j] == o);
        }
    }
}

pub proof fn lemma_bought_views_push(s: Seq<BougthOffer>, b: BougthOffer)
    ensures
        bought_views(s.push(b)) =~= bought_views(s).push(b@),
{
    assert forall|j: int| 0 <= j < s.len() + 1 implies bought_views(s.push(b))[j] == bought_views(
        s,
    ).push(b@)[j] by {
        if j < s.len() {
            assert(s.push(b)[j] == s[j]);
        } else {
            assert(s.push(b)[j] == b);
        }
    }
}

pub proof fn lemma_user_views_update(s: Seq<User>, i: int, u: User)
    requires
        0 <= i < s.len(),
    ensures
        user_views(s.update(i, u)) =~= user_views(s).update(i, u@),
{
    assert forall|j: int| 0 <= j < s.len() implies user_views(s.update(i, u))[j] == user_views(
        s,
    ).update(i, u@)[j] by {
        if j != i {
            assert(s.update(i, u)[j] == s[j]);
        } else {
            assert(s.update(i, u)[j] == u);
        }
    }
}

pub proof fn lemma_project_views_update(s: Seq<Project>, i: int, p: Project)
    requires
        0 <= i < s.len(),
    ensures
        project_views(s.update(i, p)) =~= project_views(s).update(i, p@),
{
    assert forall|j: int| 0 <= j < s.len() implies project_views(s.update(i, p))[j]
        == project_views(s).update(i, p@)[j] by {
        if j != i {
            assert(s.update(i, p)[j] == s[j]);
        } else {
            assert(s.update(i, p)[j] == p);
        }
    }
}

pub proof fn lemma_offer_views_update(s: Seq<Offer>, i: int, o: Offer)
    requires
        0 <= i < s.len(),
    ensures
        offer_views(s.update(i, o)) =~= offer_views(s).update(i, o@),
{
    assert forall|j: int| 0 <= j < s.len() implies offer_views(s.update(i, o))[j] == offer_views(
        s,
    ).update(i, o@)[j] by {
        if j != i {
            assert(s.update(i, o)[j] == s[j]);
        } else {
            assert(s.update(i, o)[j] == o);
        }
    }
}

pub proof fn lemma_bought_views_update(s: Seq<BougthOffer>, i: int, b: BougthOffer)
    requires
        0 <= i < s.len(),
    ensures
        bought_views(s.update(i, b)) =~= bought_views(s).update(i, b@),
{
    assert forall|j: int| 0 <= j < s.len() implies bought_views(s.update(i, b))[j] == bought_views(
        s,
    ).update(i, b@)[j] by {
        if j != i {
            assert(s.update(i, b)[j] == s[j]);
        } else {
            assert(s.update(i, b)[j] == b);
        }
    }
}

/// Whether `x` occurs in the list of strings.
pub(crate) fn contains_string(v: &Vec<String>, x: &String) -> (b: bool)
    ensures
        b == str_views(v@).contains(x@),
{
    let mut i: usize = 0;
    while i < v.len()
        invariant
            i <= v@.len(),
            forall|j: int| 0 <= j < i ==> str_views(v@)[j] != x@,
        decreases v@.len() - i,
    {
        if v[i] == *x {
            proof {
                assert(str_views(v@)[i as int] == x@);
            }
            return true;
        }
        i = i + 1;
    }
    proof {
        assert(forall|j: int| 0 <= j < str_views(v@).len() ==> str_views(v@)[j] != x@);
    }
    false
}

/// The list of strings with every occurrence of `x` removed.
pub(crate) fn remove_string(v: &Vec<String>, x: &String) -> (res: Vec<String>)
    ensures
        str_views(res@) == str_views(v@).filter(|w: Seq<char>| w != x@),
{
    broadcast use Seq::lemma_filter_push;

    let ghost pred = |w: Seq<char>| w != x@;
    let mut res: Vec<String> = Vec::new();
    let mut i: usize = 0;
    proof {
        assert(str_views(v@.take(0)) =~= Seq::<Seq<char>>::empty());
        assert(Seq::<Seq<char>>::empty().filter(pred) =~= Seq::<Seq<char>>::empty()) by {
            reveal(Seq::filter);
        }
        assert(str_views(res@) =~= Seq::<Seq<char>>::empty());
    }
    while i < v.len()
        invariant
            i <= v@.len(),
            str_views(res@) == str_views(v@.take(i as int)).filter(pred),
            pred == (|w: Seq<char>| w != x@),
        decreases v@.len() - i,
    {
        let keep = !(v[i] == *x);
        proof {
            assert(v@.take(i + 1) =~= v@.take(i as int).push(v@[i as int]));
            lemma_str_views_push(v@.take(i as int), v@[i as int]);
            assert(str_views(v@.take(i + 1)) == str_views(v@.take(i as int)).push(v@[i as int]@));
            str_views(v@.take(i as int)).lemma_filter_push(v@[i as int]@, pred);
            assert(keep == pred(v@[i as int]@));
        }
        if keep {
            let ghost r0 = res@;
            res.push(v[i].clone());
            proof {
                lemma_str_views_push(r0, v@[i as int]);
                assert(str_views(res@) == str_views(r0).push(v@[i as int]@));
                assert(str_views(v@.take(i + 1)).filter(pred) == str_views(v@.take(i as int)).filter(
                    pred,
                ).push(v@[i as int]@));
            }
        } else {
            proof {
                assert(str_views(v@.take(i + 1)).filter(pred) == str_views(v@.take(i as int)).filter(
                    pred,
                ));
            }
        }
        i = i + 1;
    }
    proof {
        assert(v@.take(v@.len() as int) =~= v@);
    }
    res
}

/// The list of offers with the offer of id `x` removed.
pub(crate) fn remove_offer(v: &Vec<Offer>, x: &String) -> (res: Vec<Offer>)
    ensures
        offer_views(res@) == offer_views(v@).filter(|o: OfferView| o.id != x@),
{
    broadcast use Seq::lemma_filter_push;

    let ghost pred = |o: OfferView| o.id != x@;
    let mut res: Vec<Offer> = Vec::new();
    let mut i: usize = 0;
    proof {
        assert(offer_views(v@.take(0)) =~= Seq::<OfferView>::empty());
        assert(Seq::<OfferView>::empty().filter(pred) =~= Seq::<OfferView>::empty()) by {
            reveal(Seq::filter);
        }
        assert(offer_views(res@) =~= Seq::<OfferView>::empty());
    }
    while i < v.len()
        invariant
            i <= v@.len(),
            offer_views(res@) == offer_views(v@.take(i as int)).filter(pred),
            pred == (|o: OfferView| o.id != x@),
        decreases v@.len() - i,
    {
        let keep = !(v[i].id == *x);
        proof {
            assert(v@.take(i + 1) =~= v@.take(i as int).push(v@[i as int]));
            lemma_offer_views_push(v@.take(i as int), v@[i as int]);
            assert(offer_views(v@.take(i + 1)) == offer_views(v@.take(i as int)).push(
                v@[i as int]@,
            ));
            offer_views(v@.take(i as int)).lemma_filter_push(v@[i as int]@, pred);
            assert(keep == pred(v@[i as int]@));
        }
        if keep {
            let c = v[i].clone();
            let ghost r0 = res@;
            proof {
                assert(c@ == v@[i as int]@);
                lemma_offer_views_push(r0, c);
            }
            res.push(c);
            proof {
                assert(offer_views(res@) == offer_views(r0).push(v@[i as int]@));
                assert(offer_views(v@.take(i + 1)).filter(pred) == offer_views(
                    v@.take(i as int),
                ).filter(pred).push(v@[i as int]@));
            }
        } else {
            proof {
                assert(offer_views(v@.take(i + 1)).filter(pred) == offer_views(
                    v@.take(i as int),
                ).filter(pred));
            }
        }
        i = i + 1;
    }
    proof {
        assert(v@.take(v@.len() as int) =~= v@);
    }
    res
}


pub proof fn lemma_sum_rates_step(bs: Seq<BougthOfferView>, k: int)
    requires
        0 <= k < bs.len(),
    ensures
        sum_rates(bs.take(k + 1)) == sum_rates(bs.take(k)) + bs[k].rate,
{
    assert(bs.take(k + 1).drop_last() =~= bs.take(k));
    assert(bs.take(k + 1).last() == bs[k]);
}

/// With no negative rating, the sum over a prefix never exceeds the
/// sum over the whole.
pub proof fn lemma_sum_rates_prefix(bs: Seq<BougthOfferView>, k: int)
    requires
        0 <= k <= bs.len(),
        forall|j: int| 0 <= j < bs.len() ==> bs[j].rate >= 0,
    ensures
        sum_rates(bs.take(k)) <= sum_rates(bs),
    decreases bs.len() - k,
{
    if k == bs.len() {
        assert(bs.take(k) =~= bs);
    } else {
        lemma_sum_rates_step(bs, k);
        lemma_sum_rates_prefix(bs, k + 1);
    }
}
} // verus!
