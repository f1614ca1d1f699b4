use vstd::prelude::*;

verus! {

/// Longest accepted metadata, provider, payload and result locators, in
/// characters. A longer locator is rejected, never truncated.
pub const MAX_URI_LEN: usize = 200;

/// Longest accepted model-profile label, in characters.
pub const MAX_LABEL_LEN: usize = 64;

/// The status codes an intent moves through. `Pending` is assigned at
/// creation; `Completed` and `Failed` are terminal.
pub const STATUS_PENDING: u8 = 0;

pub const STATUS_ACCEPTED: u8 = 1;

pub const STATUS_COMPLETED: u8 = 2;

pub const STATUS_FAILED: u8 = 3;

/// The named statuses of an intent's lifecycle, in transition order.
#[derive(Clone, Copy, Debug, PartialEq, Eq, Structural)]
pub enum IntentStatus {
    Pending,
    Accepted,
    Completed,
    Failed,
}

impl IntentStatus {
    /// The status code stored in an intent record.
    pub open spec fn spec_code(self) -> u8 {
        match self {
            IntentStatus::Pending => STATUS_PENDING,
            IntentStatus::Accepted => STATUS_ACCEPTED,
            IntentStatus::Completed => STATUS_COMPLETED,
            IntentStatus::Failed => STATUS_FAILED,
        }
    }

    pub fn code(self) -> (c: u8)
        ensures
            c == self.spec_code(),
    {
        match self {
            IntentStatus::Pending => STATUS_PENDING,
            IntentStatus::Accepted => STATUS_ACCEPTED,
            IntentStatus::Completed => STATUS_COMPLETED,
            IntentStatus::Failed => STATUS_FAILED,
        }
    }
}

/// A terminal status code permits no further transition and no further
/// escrow movement.
pub open spec fn spec_is_terminal(status: u8) -> bool {
    status == STATUS_COMPLETED || status == STATUS_FAILED
}

pub fn is_terminal(status: u8) -> (r: bool)
    ensures
        r == spec_is_terminal(status),
{
    status == STATUS_COMPLETED || status == STATUS_FAILED
}

/// The derived address of a model profile: one owner may hold many profiles,
/// told apart by a caller-chosen fixed-width identifier.
#[derive(Clone, Copy, Debug, PartialEq, Eq, Structural)]
pub struct ProfileKey {
    pub owner: u64,
    pub profile_id: u128,
}

/// The derived address of an intent. Creation at an occupied key fails, so
/// at most one live intent exists per (from, to, nonce) triple.
#[derive(Clone, Copy, Debug, PartialEq, Eq, Structural)]
pub struct IntentKey {
    pub from_agent: u64,
    pub to_agent: u64,
    pub nonce: u64,
}

/// Who may move funds out of a token account: an external wallet key, or
/// the authority derived from an intent's own identity. Only the engine,
/// acting as a specific intent, can reconstruct the latter.
#[derive(Clone, Copy, Debug, PartialEq, Eq, Structural)]
pub enum Authority {
    Wallet { key: u64 },
    Intent { from_agent: u64, to_agent: u64, nonce: u64 },
}

/// A registered agent: a controllable actor owned by a principal. Addressed
/// by the owning principal alone, so one agent exists per owner and the
/// stored owning principal can never change.
#[derive(Debug)]
pub struct AgentIdentity {
    pub owner_wallet: u64,
    pub agent_wallet: u64,
    pub model_profile: u64,
    pub metadata_uri: String,
    pub permissions: u64,
    pub created_at: i64,
    pub updated_at: i64,
    /// Derivation-proof byte, re-suppliable to reconstruct authority for
    /// this record's address.
    pub bump: u8,
}

/// A priced service configuration, addressed by (owner, profile id).
#[derive(Debug)]
pub struct ModelProfile {
    pub owner_wallet: u64,
    pub profile_id: u128,
    pub label: String,
    pub provider_uri: String,
    /// Smallest currency unit per 1000 work units.
    pub pricing: u64,
    pub billing_wallet: u64,
    /// Advisory ceiling; not enforced by the engine.
    pub max_tokens_per_day: u64,
    /// Advisory ceiling; not enforced by the engine.
    pub max_requests_per_min: u64,
    pub created_at: i64,
    pub updated_at: i64,
    pub bump: u8,
}

/// One unit-of-work request and its payment, addressed by
/// (from agent, to agent, nonce). The payment amount is fixed at creation;
/// only its custody location changes.
#[derive(Debug)]
pub struct AgentIntent {
    pub from_agent: u64,
    pub to_agent: u64,
    pub nonce: u64,
    pub status: u8,
    pub payload_hash: [u8; 32],
    pub payload_uri: String,
    pub payment_amount: u64,
    pub payment_mint: u64,
    pub result_hash: [u8; 32],
    pub result_uri: String,
    pub created_at: i64,
    pub updated_at: i64,
    pub bump: u8,
}

impl AgentIntent {
    /// The key material this intent's address derives from.
    pub open spec fn spec_key(self) -> IntentKey {
        IntentKey { from_agent: self.from_agent, to_agent: self.to_agent, nonce: self.nonce }
    }

    /// The signing authority derived from this intent's own identity.
    pub open spec fn spec_authority(self) -> Authority {
        Authority::Intent {
            from_agent: self.from_agent,
            to_agent: self.to_agent,
            nonce: self.nonce,
        }
    }
}

impl ModelProfile {
    /// The key material this profile's address derives from.
    pub open spec fn spec_key(self) -> ProfileKey {
        ProfileKey { owner: self.owner_wallet, profile_id: self.profile_id }
    }
}

} // verus!
