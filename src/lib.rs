//! Backstop fund management: share accounting for the capital that backs a
//! set of lending pools, with deposits, donations, draws and a time-locked
//! exit queue, together with the bounded queue stand-ins and the state
//! properties that every reachable state satisfies.
pub mod balances;
pub mod user;
pub mod bounded;
pub mod storage;
pub mod token;
pub mod factory;
pub mod backstop;
pub mod valid_state;
pub mod pricing;
pub mod known_bad;
pub mod calls;
