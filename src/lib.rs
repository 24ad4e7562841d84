//! A ledger-resident marketplace store: identity records, free-text asks and
//! treasury claims, each kept at an address derived from its owner and a
//! per-owner ordinal.

pub mod address;
pub mod state;
pub mod error;
pub mod ledger;
pub mod lifecycle;
pub mod asks;
pub mod treasury;
pub mod organizations;
pub mod token;
pub mod layout;
pub mod laws;
