//! Replays a proof-of-work chain from genesis and checks, block by block,
//! that its self-reported issuance accounting is consistent.

pub mod error;
pub mod dao;
pub mod cellbase;
pub mod maturity;
pub mod epoch;
pub mod issuance;
