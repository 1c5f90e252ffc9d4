//! Arena: matches between two trading agents, judged by a verifier.
//!
//! The ledger ([`ArenaContract`]) keeps each match with its lifecycle
//! (pending, active, settled), the trades the two agents record while it is
//! active, and an append-only log of events. [`onchain`] holds the same
//! rules as the on-chain contract module applies them to its storage, and
//! [`fallback`] the decisions of a build-tool stand-in.

pub mod types;
pub mod contract;
pub mod laws;
pub mod decimal;
pub mod onchain;
pub mod fallback;

pub use types::{
    Account, ArenaError, ArenaEvent, Match, MatchId, MatchStatus, Motes, Trade, TradeAction,
};
pub use contract::ArenaContract;
pub use onchain::{OdraMatchStatus, Revert, StoredMatch};
