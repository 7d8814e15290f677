//! An in-process test harness for a blockchain application.
//!
//! Test code spins up a chain instance, funds accounts, submits or
//! simulates atomic multi-message transactions, inspects and mutates
//! module parameters, and advances the chain's logical clock, all
//! without a live network.  The chain-state engine is deterministic and
//! lives in [`engine`]; the public entry point is
//! [`app::OsmosisTestApp`].

pub mod account;
pub mod app;
pub mod coin;
pub mod engine;
pub mod error;
pub mod fee;
pub mod laws;
pub mod msg;

pub use account::SigningAccount;
pub use app::OsmosisTestApp;
pub use coin::Coin;
pub use error::RunnerError;
pub use fee::{Fee, FeeSetting, GasInfo};
pub use msg::{Msg, Transfer};
