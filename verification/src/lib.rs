//! Core logic of a crowdfunding marketplace ledger: actors register as
//! users, create projects, attach sellable offers, buy and rate offers,
//! and watch projects. Every operation loads the flat collections of
//! users and projects, applies one logical change, and returns the
//! updated state; the host environment around this crate is responsible
//! only for persistence and message (de)serialization.

pub mod contract;
pub mod error;
pub mod msg;
pub mod state;
pub mod utils;

pub use crate::error::ContractError;
