//! A turn-based, wager-backed two-player board game (battleship) written as
//! state-transition logic over an explicit ledger, together with the
//! encrypted-notification side channel that accompanies every state-changing
//! action.
//!
//! The host runtime (message routing, token-ownership resolution, randomness,
//! persistent storage) stays outside: every function here works on plain
//! values and on the ledger types this crate defines, so the whole game logic
//! is verified.
//!
//! - [`board`]: cell values and the board validator, with a declarative
//!   statement of what a valid layout is.
//! - [`game`]: the ledger and the five actions — create, join,
//!   submit-setup, attack, claim-victory — plus the queries.
//! - [`notify`]: per-recipient seeds and counters, notification ids and
//!   authenticated encryption of the pushed state.
//! - [`crypto`]: the named, trusted wrappers around the outside
//!   cryptographic and encoding crates.
//! - [`strmap`]: the verified string-keyed map every table is built on.
//! - [`msg`], [`msgs`], [`token`], [`nfp`]: the plain message,
//!   configuration and stored-metadata shapes the interface shares.

pub mod board;
pub mod crypto;
pub mod game;
pub mod msg;
pub mod msgs;
pub mod nfp;
pub mod notify;
pub mod strmap;
pub mod token;
pub mod util;

pub use strmap::StrMap;
