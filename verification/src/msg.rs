use vstd::prelude::*;
use crate::state::{Offer, Project, User};

verus! {

/// Payload of the initialization call; carries nothing.
#[derive(Debug)]
pub struct InstantiateMsg {}

/// One attribute of a response: a key/value pair surfaced to the caller.
#[derive(Debug)]
pub struct Attribute {
    pub key: String,
    pub value: String,
}

/// Mathematical model of an `Attribute`.
#[verifier::ext_equal]
pub struct AttributeView {
    pub key: Seq<char>,
    pub value: Seq<char>,
}

impl View for Attribute {
    type V = AttributeView;

    open spec fn view(&self) -> AttributeView {
        AttributeView { key: self.key@, value: self.value@ }
    }
}

/// What a successful operation reports back to the caller: a list of
/// key/value attributes (at least the generated identifier, where one
/// was generated).
#[derive(Debug)]
pub struct Response {
    pub attributes: Vec<Attribute>,
}

impl View for Response {
    type V = Seq<AttributeView>;

    open spec fn view(&self) -> Seq<AttributeView> {
        self.attributes@.map_values(|a: Attribute| a@)
    }
}

impl Default for Response {
    /// A response carrying no attributes.
    fn default() -> (r: Response)
        ensures
            r@ == Seq::<AttributeView>::empty(),
    {
        let r = Response { attributes: Vec::new() };
        proof {
            assert(r@ =~= Seq::<AttributeView>::empty());
        }
        r
    }
}

/// A mutating operation, dispatched by `execute`.
#[derive(Debug)]
pub enum ExecuteMsg {
    RegisterUser {},
    CreateProject { metadata: String },
    UpdateProject { id: String, metadata: String },
    UpdateTimestamp { id: String, timestamp: u64 },
    /// Declared but unimplemented; `execute` does not accept it.
    DeleteProject {},
    CreateOffer { id: String, min_price: u128, metadata: String, expire_at: u64 },
    UpdateOffer { id: String, offer_id: String, min_price: u128, metadata: String, expire_at: u64 },
    DeleteOffer { id: String, offer_id: String },
    BuyOffer { project_id: String, offer_id: String, metadata: String, rate: u128 },
    RateOffer { project_id: String, offer_id: String, rate: u128 },
    WatchProject { id: String },
    UnwatchProject { id: String },
    RateProject { id: String, rate: u128 },
}

/// A read-only operation, dispatched by `query`.
#[derive(Debug)]
pub enum QueryMsg {
    GetUser { id: String },
    ListUser {},
    GetProject { id: String },
    ListProject {},
    GetProjectOffers { project_id: String },
    GetProjectOffer { project_id: String, offer_id: String },
    /// Declared but unimplemented; `query` does not accept it.
    GetFunding {},
    /// Declared but unimplemented; `query` does not accept it.
    ListFunding {},
    /// Declared but unimplemented; `query` does not accept it.
    GetWatching {},
    /// Declared but unimplemented; `query` does not accept it.
    GetRating {},
    /// Declared but unimplemented; `query` does not accept it.
    ListRating {},
    /// Declared but unimplemented; `query` does not accept it.
    GetBalance {},
    GetAdmin {},
}

impl QueryMsg {
    /// The queries `query` answers; the rest are declared interface
    /// without defined behaviour.
    pub open spec fn is_implemented(&self) -> bool {
        match *self {
            QueryMsg::GetFunding {} => false,
            QueryMsg::ListFunding {} => false,
            QueryMsg::GetWatching {} => false,
            QueryMsg::GetRating {} => false,
            QueryMsg::ListRating {} => false,
            QueryMsg::GetBalance {} => false,
            _ => true,
        }
    }
}

/// The value a successful query returns; the host serializes it.
#[derive(Debug)]
pub enum QueryAnswer {
    User(User),
    Users(Vec<User>),
    Project(Project),
    Projects(Vec<Project>),
    Offers(Vec<Offer>),
    Offer(Offer),
    Admin(String),
}

} // verus!
