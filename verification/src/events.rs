use vstd::prelude::*;

use crate::records::{IntentKey, ProfileKey};

verus! {

// Each successful operation hands back one of these notifications; a caller
// observes either "applied, notification returned" or "rejected with an
// error kind", never an in-between state.

#[derive(Debug)]
pub struct AgentRegistered {
    pub agent: u64,
    pub owner: u64,
    pub agent_wallet: u64,
}

#[derive(Debug)]
pub struct AgentUpdated {
    pub agent: u64,
    pub updated_at: i64,
}

#[derive(Debug)]
pub struct ModelProfileCreated {
    pub profile: ProfileKey,
    pub owner: u64,
    pub label: String,
}

#[derive(Debug)]
pub struct ModelProfileUpdated {
    pub profile: ProfileKey,
    pub updated_at: i64,
}

#[derive(Debug)]
pub struct IntentCreated {
    pub intent: IntentKey,
    pub from_agent: u64,
    pub to_agent: u64,
    pub payment_amount: u64,
}

#[derive(Debug)]
pub struct IntentStatusUpdated {
    pub intent: IntentKey,
    pub status: u8,
}

} // verus!
