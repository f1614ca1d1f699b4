//! A ledger-resident registry and exchange protocol for autonomous agents.
//!
//! Owners register agent identities carrying a capability bitmask, publish
//! priced model profiles, and exchange paid intents: one agent requests work
//! from another, with the payment held in an intent-scoped escrow account
//! until the receiving agent's owner reports completion.
//!
//! The surrounding ledger (account storage, address derivation, the token
//! sub-ledger) is modelled here as an in-memory account store: records live
//! in key-addressed tables, and fungible balances live in a small token
//! ledger whose transfers are authorized either by a wallet key or by an
//! authority derived from an intent's own identity.

pub mod engine;
pub mod errors;
pub mod events;
pub mod permissions;
pub mod records;
pub mod store;
pub mod token;
