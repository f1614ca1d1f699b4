use vstd::prelude::*;
use vstd::string::{StrSliceExecFns, StringExecFns};

use crate::errors::ErrorCode;
use crate::events::{AgentRegistered, AgentUpdated, IntentCreated, IntentStatusUpdated,
    ModelProfileCreated, ModelProfileUpdated};
use crate::permissions::{spec_has_permission, has_permission, Permission};
use crate::records::{is_terminal, spec_is_terminal, AgentIdentity, AgentIntent, Authority,
    IntentKey, ModelProfile, ProfileKey, MAX_LABEL_LEN, MAX_URI_LEN, STATUS_COMPLETED,
    STATUS_PENDING};
use crate::store::{distinct_keys, has_key, lemma_lookup_at, lemma_lookup_push,
    lemma_lookup_update, lemma_no_key, lookup};
use crate::token::{transfer_effect, TokenAccount, TokenLedger};

verus! {

/// A copy of a profile label, for the creation notification.
fn clone_label(label: &String) -> (r: String)
    ensures
        r@ == label@,
{
    String::from_str(label.as_str())
}

/// The key function addressing the agent table: one agent per owning
/// principal, so the stored owning principal is the record's address.
pub open spec fn agent_key() -> spec_fn(AgentIdentity) -> u64 {
    |a: AgentIdentity| a.owner_wallet
}

/// The key function addressing the profile table.
pub open spec fn profile_key() -> spec_fn(ModelProfile) -> ProfileKey {
    |p: ModelProfile| p.spec_key()
}

/// The key function addressing the intent table.
pub open spec fn intent_key() -> spec_fn(AgentIntent) -> IntentKey {
    |x: AgentIntent| x.spec_key()
}

/// The registry and exchange engine: agent identities, model profiles and
/// intents in key-addressed tables, plus the token ledger their payments
/// move through. The engine is the only writer; every operation applies in
/// full or rejects with one error kind and no partial effect.
#[derive(Debug)]
pub struct AgentMesh {
    agents: Vec<AgentIdentity>,
    profiles: Vec<ModelProfile>,
    intents: Vec<AgentIntent>,
    ledger: TokenLedger,
}

impl AgentMesh {
    /// Every table's keys are distinct: each derived address holds at most
    /// one record.
    pub closed spec fn wf(self) -> bool {
        &&& distinct_keys(self.agents@, agent_key())
        &&& distinct_keys(self.profiles@, profile_key())
        &&& distinct_keys(self.intents@, intent_key())
        &&& self.ledger.wf()
    }

    /// The agent registered by `owner`, if any.
    pub closed spec fn agent_view(self, owner: u64) -> Option<AgentIdentity> {
        lookup(self.agents@, agent_key(), owner)
    }

    /// The profile at the given derived address, if any.
    pub closed spec fn profile_view(self, key: ProfileKey) -> Option<ModelProfile> {
        lookup(self.profiles@, profile_key(), key)
    }

    /// The intent at the given derived address, if any.
    pub closed spec fn intent_view(self, key: IntentKey) -> Option<AgentIntent> {
        lookup(self.intents@, intent_key(), key)
    }

    /// The token ledger's current state.
    pub closed spec fn spec_ledger(self) -> TokenLedger {
        self.ledger
    }

    /// The token account at `id`, if any.
    pub open spec fn token_account(self, id: u64) -> Option<TokenAccount> {
        self.spec_ledger().account(id)
    }

    /// An empty mesh: no records, no token accounts.
    pub fn new() -> (mesh: AgentMesh)
        ensures
            mesh.wf(),
            forall|owner: u64| mesh.agent_view(owner) is None,
            forall|key: ProfileKey| mesh.profile_view(key) is None,
            forall|key: IntentKey| mesh.intent_view(key) is None,
            forall|id: u64| mesh.token_account(id) is None,
            forall|id: u64| mesh.spec_ledger().account(id) is None,
    {
        let mesh = AgentMesh {
            agents: Vec::new(),
            profiles: Vec::new(),
            intents: Vec::new(),
            ledger: TokenLedger::new(),
        };
        proof {
            assert forall|owner: u64| mesh.agent_view(owner) is None by {
                lemma_no_key(mesh.agents@, agent_key(), owner);
            }
            assert forall|key: ProfileKey| mesh.profile_view(key) is None by {
                lemma_no_key(mesh.profiles@, profile_key(), key);
            }
            assert forall|key: IntentKey| mesh.intent_view(key) is None by {
                lemma_no_key(mesh.intents@, intent_key(), key);
            }
        }
        mesh
    }

    /// The index of `owner`'s agent record, if any.
    fn find_agent(&self, owner: u64) -> (r: Option<usize>)
        ensures
            match r {
                Some(i) => i < self.agents@.len() && self.agents@[i as int].owner_wallet == owner,
                None => !has_key(self.agents@, agent_key(), owner),
            },
    {
        let n = self.agents.len();
        for i in 0..n
            invariant
                n == self.agents@.len(),
                forall|j: int| 0 <= j < i ==> self.agents@[j].owner_wallet != owner,
        {
            if self.agents[i].owner_wallet == owner {
                return Some(i);
            }
        }
        proof {
            lemma_no_key(self.agents@, agent_key(), owner);
        }
        None
    }

    /// Registers `owner`'s agent identity. Fails with DuplicateRecord when
    /// `owner` already registered one, and with StringTooLong when the
    /// metadata locator exceeds its cap; on success the record is stored
    /// with both timestamps set to `now` and nothing else changes.
    pub fn register_agent(
        &mut self,
        owner: u64,
        agent_wallet: u64,
        model_profile: u64,
        metadata_uri: String,
        permissions: u64,
        now: i64,
        bump: u8,
    ) -> (r: Result<AgentRegistered, ErrorCode>)
        requires
            old(self).wf(),
        ensures
            final(self).wf(),
            r is Ok <==> old(self).agent_view(owner) is None && metadata_uri@.len()
                <= MAX_URI_LEN,
            r is Err ==> *final(self) == *old(self),
            old(self).agent_view(owner) is Some ==> r == Err::<AgentRegistered, ErrorCode>(
                ErrorCode::DuplicateRecord,
            ),
            old(self).agent_view(owner) is None && metadata_uri@.len() > MAX_URI_LEN ==> r
                == Err::<AgentRegistered, ErrorCode>(ErrorCode::StringTooLong),
            r is Ok ==> final(self).agent_view(owner) == Some(
                AgentIdentity {
                    owner_wallet: owner,
                    agent_wallet,
                    model_profile,
                    metadata_uri,
                    permissions,
                    created_at: now,
                    updated_at: now,
                    bump,
                },
            ),
            r is Ok ==> (r == Ok::<AgentRegistered, ErrorCode>(
                AgentRegistered { agent: owner, owner, agent_wallet },
            )),
            r is Ok ==> forall|other: u64|
                other != owner ==> final(self).agent_view(other) == old(self).agent_view(other),
            forall|key: ProfileKey| final(self).profile_view(key) == old(self).profile_view(key),
            forall|key: IntentKey| final(self).intent_view(key) == old(self).intent_view(key),
            final(self).spec_ledger() == old(self).spec_ledger(),
    {
        match self.find_agent(owner) {
            Some(i) => {
                proof {
                    lemma_lookup_at(self.agents@, agent_key(), i as int);
                }
                Err(ErrorCode::DuplicateRecord)
            },
            None => {
                if metadata_uri.as_str().unicode_len() > MAX_URI_LEN {
                    return Err(ErrorCode::StringTooLong);
                }
                let record = AgentIdentity {
                    owner_wallet: owner,
                    agent_wallet,
                    model_profile,
                    metadata_uri,
                    permissions,
                    created_at: now,
                    updated_at: now,
                    bump,
                };
                proof {
                    lemma_lookup_push(self.agents@, agent_key(), record);
                }
                self.agents.push(record);
                Ok(AgentRegistered { agent: owner, owner, agent_wallet })
            },
        }
    }

    /// Applies a sparse patch to `agent_owner`'s agent record: only the
    /// supplied fields are overwritten, the owning principal never changes,
    /// and `updated_at` is refreshed. Only the owning principal may call;
    /// anyone else is rejected with Unauthorized and the record is left
    /// byte-for-byte unchanged.
    pub fn update_agent(
        &mut self,
        caller: u64,
        agent_owner: u64,
        agent_wallet: Option<u64>,
        model_profile: Option<u64>,
        metadata_uri: Option<String>,
        permissions: Option<u64>,
        now: i64,
    ) -> (r: Result<AgentUpdated, ErrorCode>)
        requires
            old(self).wf(),
        ensures
            final(self).wf(),
            r is Ok <==> old(self).agent_view(agent_owner) is Some && caller == agent_owner && (
            metadata_uri is Some ==> metadata_uri.unwrap()@.len() <= MAX_URI_LEN),
            r is Err ==> *final(self) == *old(self),
            old(self).agent_view(agent_owner) is None ==> r == Err::<AgentUpdated, ErrorCode>(
                ErrorCode::RecordNotFound,
            ),
            old(self).agent_view(agent_owner) is Some && caller != agent_owner ==> r == Err::<
                AgentUpdated,
                ErrorCode,
            >(ErrorCode::Unauthorized),
            old(self).agent_view(agent_owner) is Some && caller == agent_owner && metadata_uri
                is Some && metadata_uri.unwrap()@.len() > MAX_URI_LEN ==> r == Err::<
                AgentUpdated,
                ErrorCode,
            >(ErrorCode::StringTooLong),
            r is Ok ==> ({
                let a = old(self).agent_view(agent_owner).unwrap();
                final(self).agent_view(agent_owner) == Some(
                    AgentIdentity {
                        owner_wallet: a.owner_wallet,
                        agent_wallet: match agent_wallet { Some(w) => w, None => a.agent_wallet },
                        model_profile: match model_profile {
                            Some(p) => p,
                            None => a.model_profile,
                        },
                        metadata_uri: match metadata_uri { Some(u) => u, None => a.metadata_uri },
                        permissions: match permissions { Some(p) => p, None => a.permissions },
                        created_at: a.created_at,
                        updated_at: now,
                        bump: a.bump,
                    },
                )
            }),
            r is Ok ==> final(self).agent_view(agent_owner).unwrap().owner_wallet == old(
                self,
            ).agent_view(agent_owner).unwrap().owner_wallet,
            r is Ok ==> (r == Ok::<AgentUpdated, ErrorCode>(
                AgentUpdated { agent: agent_owner, updated_at: now },
            )),
            r is Ok ==> forall|other: u64|
                other != agent_owner ==> final(self).agent_view(other) == old(self).agent_view(
                    other,
                ),
            forall|key: ProfileKey| final(self).profile_view(key) == old(self).profile_view(key),
            forall|key: IntentKey| final(self).intent_view(key) == old(self).intent_view(key),
            final(self).spec_ledger() == old(self).spec_ledger(),
    {
        let i = match self.find_agent(agent_owner) {
            Some(i) => i,
            None => {
                return Err(ErrorCode::RecordNotFound);
            },
        };
        proof {
            lemma_lookup_at(self.agents@, agent_key(), i as int);
        }
        if caller != self.agents[i].owner_wallet {
            return Err(ErrorCode::Unauthorized);
        }
        match &metadata_uri {
            Some(uri) => {
                if uri.as_str().unicode_len() > MAX_URI_LEN {
                    return Err(ErrorCode::StringTooLong);
                }
            },
            None => {},
        }
        let ghost pre = self.agents@;
        if let Some(wallet) = agent_wallet {
            self.agents[i].agent_wallet = wallet;
        }
        if let Some(profile) = model_profile {
            self.agents[i].model_profile = profile;
        }
        if let Some(uri) = metadata_uri {
            self.agents[i].metadata_uri = uri;
        }
        if let Some(perms) = permissions {
            self.agents[i].permissions = perms;
        }
        self.agents[i].updated_at = now;
        proof {
            assert(self.agents@ =~= pre.update(i as int, self.agents@[i as int]));
            lemma_lookup_update(pre, agent_key(), i as int, self.agents@[i as int]);
        }
        Ok(AgentUpdated { agent: agent_owner, updated_at: now })
    }

    /// The index of the profile record at `key`, if any.
    fn find_profile(&self, key: ProfileKey) -> (r: Option<usize>)
        ensures
            match r {
                Some(i) => i < self.profiles@.len() && self.profiles@[i as int].spec_key() == key,
                None => !has_key(self.profiles@, profile_key(), key),
            },
    {
        let n = self.profiles.len();
        for i in 0..n
            invariant
                n == self.profiles@.len(),
                forall|j: int| 0 <= j < i ==> self.profiles@[j].spec_key() != key,
        {
            if self.profiles[i].owner_wallet == key.owner && self.profiles[i].profile_id
                == key.profile_id {
                return Some(i);
            }
        }
        proof {
            lemma_no_key(self.profiles@, profile_key(), key);
        }
        None
    }

    /// Creates a model profile at the address derived from
    /// (`owner`, `profile_id`). Fails with DuplicateRecord when that address
    /// is taken and with StringTooLong when the label or provider locator
    /// exceeds its cap; on success the record is stored with both
    /// timestamps set to `now` and nothing else changes.
    pub fn create_model_profile(
        &mut self,
        owner: u64,
        profile_id: u128,
        label: String,
        provider_uri: String,
        pricing: u64,
        billing_wallet: u64,
        max_tokens_per_day: u64,
        max_requests_per_min: u64,
        now: i64,
        bump: u8,
    ) -> (r: Result<ModelProfileCreated, ErrorCode>)
        requires
            old(self).wf(),
        ensures
            final(self).wf(),
            r is Ok <==> old(self).profile_view(ProfileKey { owner, profile_id }) is None
                && label@.len() <= MAX_LABEL_LEN && provider_uri@.len() <= MAX_URI_LEN,
            r is Err ==> *final(self) == *old(self),
            old(self).profile_view(ProfileKey { owner, profile_id }) is Some ==> r == Err::<
                ModelProfileCreated,
                ErrorCode,
            >(ErrorCode::DuplicateRecord),
            old(self).profile_view(ProfileKey { owner, profile_id }) is None && (label@.len()
                > MAX_LABEL_LEN || provider_uri@.len() > MAX_URI_LEN) ==> r == Err::<
                ModelProfileCreated,
                ErrorCode,
            >(ErrorCode::StringTooLong),
            r is Ok ==> final(self).profile_view(ProfileKey { owner, profile_id }) == Some(
                ModelProfile {
                    owner_wallet: owner,
                    profile_id,
                    label,
                    provider_uri,
                    pricing,
                    billing_wallet,
                    max_tokens_per_day,
                    max_requests_per_min,
                    created_at: now,
                    updated_at: now,
                    bump,
                },
            ),
            r is Ok ==> ({
                let returned = r.unwrap();
                returned.profile == ProfileKey { owner, profile_id } && returned.owner == owner
                    && returned.label@ == label@
            }),
            r is Ok ==> forall|other: ProfileKey|
                other != (ProfileKey { owner, profile_id }) ==> final(self).profile_view(other)
                    == old(self).profile_view(other),
            forall|o: u64| final(self).agent_view(o) == old(self).agent_view(o),
            forall|key: IntentKey| final(self).intent_view(key) == old(self).intent_view(key),
            final(self).spec_ledger() == old(self).spec_ledger(),
    {
        let key = ProfileKey { owner, profile_id };
        match self.find_profile(key) {
            Some(i) => {
                proof {
                    lemma_lookup_at(self.profiles@, profile_key(), i as int);
                }
                Err(ErrorCode::DuplicateRecord)
            },
            None => {
                if label.as_str().unicode_len() > MAX_LABEL_LEN {
                    return Err(ErrorCode::StringTooLong);
                }
                if provider_uri.as_str().unicode_len() > MAX_URI_LEN {
                    return Err(ErrorCode::StringTooLong);
                }
                let event = ModelProfileCreated { profile: key, owner, label: clone_label(&label) };
                let record = ModelProfile {
                    owner_wallet: owner,
                    profile_id,
                    label,
                    provider_uri,
                    pricing,
                    billing_wallet,
                    max_tokens_per_day,
                    max_requests_per_min,
                    created_at: now,
                    updated_at: now,
                    bump,
                };
                proof {
                    lemma_lookup_push(self.profiles@, profile_key(), record);
                }
                self.profiles.push(record);
                Ok(event)
            },
        }
    }

    /// Applies a sparse patch to the profile at (`profile_owner`,
    /// `profile_id`): only the supplied fields are overwritten, the owning
    /// principal never changes, and `updated_at` is refreshed. Only the
    /// owning principal may call; anyone else is rejected with Unauthorized
    /// and the record is left byte-for-byte unchanged.
    pub fn update_model_profile(
        &mut self,
        caller: u64,
        profile_owner: u64,
        profile_id: u128,
        label: Option<String>,
        provider_uri: Option<String>,
        pricing: Option<u64>,
        billing_wallet: Option<u64>,
        max_tokens_per_day: Option<u64>,
        max_requests_per_min: Option<u64>,
        now: i64,
    ) -> (r: Result<ModelProfileUpdated, ErrorCode>)
        requires
            old(self).wf(),
        ensures
            final(self).wf(),
            r is Ok <==> old(self).profile_view(
                ProfileKey { owner: profile_owner, profile_id },
            ) is Some && caller == profile_owner && (label is Some ==> label.unwrap()@.len()
                <= MAX_LABEL_LEN) && (provider_uri is Some ==> provider_uri.unwrap()@.len()
                <= MAX_URI_LEN),
            r is Err ==> *final(self) == *old(self),
            old(self).profile_view(ProfileKey { owner: profile_owner, profile_id }) is None ==> r
                == Err::<ModelProfileUpdated, ErrorCode>(ErrorCode::RecordNotFound),
            old(self).profile_view(ProfileKey { owner: profile_owner, profile_id }) is Some
                && caller != profile_owner ==> r == Err::<ModelProfileUpdated, ErrorCode>(
                ErrorCode::Unauthorized,
            ),
            old(self).profile_view(ProfileKey { owner: profile_owner, profile_id }) is Some
                && caller == profile_owner && ((label is Some && label.unwrap()@.len()
                > MAX_LABEL_LEN) || (provider_uri is Some && provider_uri.unwrap()@.len()
                > MAX_URI_LEN)) ==> r == Err::<ModelProfileUpdated, ErrorCode>(
                ErrorCode::StringTooLong,
            ),
            r is Ok ==> ({
                let p = old(self).profile_view(ProfileKey { owner: profile_owner, profile_id }).unwrap();
                final(self).profile_view(ProfileKey { owner: profile_owner, profile_id }) == Some(
                    ModelProfile {
                        owner_wallet: p.owner_wallet,
                        profile_id: p.profile_id,
                        label: match label { Some(l) => l, None => p.label },
                        provider_uri: match provider_uri { Some(u) => u, None => p.provider_uri },
                        pricing: match pricing { Some(x) => x, None => p.pricing },
                        billing_wallet: match billing_wallet {
                            Some(w) => w,
                            None => p.billing_wallet,
                        },
                        max_tokens_per_day: match max_tokens_per_day {
                            Some(x) => x,
                            None => p.max_tokens_per_day,
                        },
                        max_requests_per_min: match max_requests_per_min {
                            Some(x) => x,
                            None => p.max_requests_per_min,
                        },
                        created_at: p.created_at,
                        updated_at: now,
                        bump: p.bump,
                    },
                )
            }),
            r is Ok ==> (r == Ok::<ModelProfileUpdated, ErrorCode>(
                ModelProfileUpdated {
                    profile: ProfileKey { owner: profile_owner, profile_id },
                    updated_at: now,
                },
            )),
            r is Ok ==> forall|other: ProfileKey|
                other != (ProfileKey { owner: profile_owner, profile_id })
                    ==> final(self).profile_view(other) == old(self).profile_view(other),
            forall|o: u64| final(self).agent_view(o) == old(self).agent_view(o),
            forall|key: IntentKey| final(self).intent_view(key) == old(self).intent_view(key),
            final(self).spec_ledger() == old(self).spec_ledger(),
    {
        let key = ProfileKey { owner: profile_owner, profile_id };
        let i = match self.find_profile(key) {
            Some(i) => i,
            None => {
                return Err(ErrorCode::RecordNotFound);
            },
        };
        proof {
            lemma_lookup_at(self.profiles@, profile_key(), i as int);
        }
        if caller != self.profiles[i].owner_wallet {
            return Err(ErrorCode::Unauthorized);
        }
        match &label {
            Some(l) => {
                if l.as_str().unicode_len() > MAX_LABEL_LEN {
                    return Err(ErrorCode::StringTooLong);
                }
            },
            None => {},
        }
        match &provider_uri {
            Some(u) => {
                if u.as_str().unicode_len() > MAX_URI_LEN {
                    return Err(ErrorCode::StringTooLong);
                }
            },
            None => {},
        }
        let ghost pre = self.profiles@;
        if let Some(l) = label {
            self.profiles[i].label = l;
        }
        if let Some(u) = provider_uri {
            self.profiles[i].provider_uri = u;
        }
        if let Some(x) = pricing {
            self.profiles[i].pricing = x;
        }
        if let Some(w) = billing_wallet {
            self.profiles[i].billing_wallet = w;
        }
        if let Some(x) = max_tokens_per_day {
            self.profiles[i].max_tokens_per_day = x;
        }
        if let Some(x) = max_requests_per_min {
            self.profiles[i].max_requests_per_min = x;
        }
        self.profiles[i].updated_at = now;
        proof {
            assert(self.profiles@ =~= pre.update(i as int, self.profiles@[i as int]));
            lemma_lookup_update(pre, profile_key(), i as int, self.profiles@[i as int]);
        }
        Ok(ModelProfileUpdated { profile: key, updated_at: now })
    }

    /// A borrow of the profile record at (`owner`, `profile_id`), if any.
    pub fn profile_of(&self, owner: u64, profile_id: u128) -> (r: Option<&ModelProfile>)
        requires
            self.wf(),
        ensures
            match r {
                Some(p) => self.profile_view(ProfileKey { owner, profile_id }) == Some(*p),
                None => self.profile_view(ProfileKey { owner, profile_id }) is None,
            },
    {
        match self.find_profile(ProfileKey { owner, profile_id }) {
            Some(i) => {
                proof {
                    lemma_lookup_at(self.profiles@, profile_key(), i as int);
                }
                Some(&self.profiles[i])
            },
            None => None,
        }
    }

    /// The index of the intent record at `key`, if any.
    fn find_intent(&self, key: IntentKey) -> (r: Option<usize>)
        ensures
            match r {
                Some(i) => i < self.intents@.len() && self.intents@[i as int].spec_key() == key,
                None => !has_key(self.intents@, intent_key(), key),
            },
    {
        let n = self.intents.len();
        for i in 0..n
            invariant
                n == self.intents@.len(),
                forall|j: int| 0 <= j < i ==> self.intents@[j].spec_key() != key,
        {
            if self.intents[i].from_agent == key.from_agent && self.intents[i].to_agent
                == key.to_agent && self.intents[i].nonce == key.nonce {
                return Some(i);
            }
        }
        proof {
            lemma_no_key(self.intents@, intent_key(), key);
        }
        None
    }

    /// Creation of the intent at (`from_agent`, `to_agent`, `nonce`) can
    /// proceed: the derived address is free, both agents are registered,
    /// the initiating agent holds CAN_CREATE_INTENT, the payload locator
    /// fits its cap, and a positive payment can move from the funding
    /// source into escrow on the payer's authority.
    pub open spec fn can_create_intent(
        self,
        from_agent: u64,
        to_agent: u64,
        nonce: u64,
        payload_uri: Seq<char>,
        payment_amount: u64,
        payer: u64,
        from_token_account: u64,
        escrow_token_account: u64,
    ) -> bool {
        &&& self.intent_view(IntentKey { from_agent, to_agent, nonce }) is None
        &&& self.agent_view(from_agent) is Some
        &&& self.agent_view(to_agent) is Some
        &&& spec_has_permission(
            self.agent_view(from_agent).unwrap().permissions,
            Permission::CAN_CREATE_INTENT,
        )
        &&& payload_uri.len() <= MAX_URI_LEN
        &&& (payment_amount > 0 ==> self.spec_ledger().can_transfer(
            from_token_account,
            escrow_token_account,
            payment_amount,
            Authority::Wallet { key: payer },
        ))
    }

    /// Creates the intent at the address derived from
    /// (`from_agent`, `to_agent`, `nonce`), status Pending, and, for a
    /// positive payment, moves exactly `payment_amount` units from the
    /// payer's funding source into the intent-scoped escrow account on the
    /// payer's own authority. All-or-nothing: when the escrow funding fails
    /// no intent is persisted, and a replay of an occupied address is a
    /// DuplicateRecord failure with no escrow movement.
    pub fn create_intent(
        &mut self,
        from_agent: u64,
        to_agent: u64,
        nonce: u64,
        payload_hash: [u8; 32],
        payload_uri: String,
        payment_amount: u64,
        payment_mint: u64,
        payer: u64,
        from_token_account: u64,
        escrow_token_account: u64,
        now: i64,
        bump: u8,
    ) -> (r: Result<IntentCreated, ErrorCode>)
        requires
            old(self).wf(),
        ensures
            final(self).wf(),
            r is Ok <==> old(self).can_create_intent(
                from_agent,
                to_agent,
                nonce,
                payload_uri@,
                payment_amount,
                payer,
                from_token_account,
                escrow_token_account,
            ),
            r is Err ==> *final(self) == *old(self),
            old(self).intent_view(IntentKey { from_agent, to_agent, nonce }) is Some ==> r
                == Err::<IntentCreated, ErrorCode>(ErrorCode::DuplicateRecord),
            old(self).intent_view(IntentKey { from_agent, to_agent, nonce }) is None && (old(
                self,
            ).agent_view(from_agent) is None || old(self).agent_view(to_agent) is None) ==> r
                == Err::<IntentCreated, ErrorCode>(ErrorCode::RecordNotFound),
            old(self).intent_view(IntentKey { from_agent, to_agent, nonce }) is None && old(
                self,
            ).agent_view(from_agent) is Some && old(self).agent_view(to_agent) is Some
                && !spec_has_permission(
                old(self).agent_view(from_agent).unwrap().permissions,
                Permission::CAN_CREATE_INTENT,
            ) ==> r == Err::<IntentCreated, ErrorCode>(ErrorCode::InsufficientPermissions),
            old(self).intent_view(IntentKey { from_agent, to_agent, nonce }) is None && old(
                self,
            ).agent_view(from_agent) is Some && old(self).agent_view(to_agent) is Some
                && spec_has_permission(
                old(self).agent_view(from_agent).unwrap().permissions,
                Permission::CAN_CREATE_INTENT,
            ) && payload_uri@.len() > MAX_URI_LEN ==> r == Err::<IntentCreated, ErrorCode>(
                ErrorCode::StringTooLong,
            ),
            r is Err && old(self).intent_view(IntentKey { from_agent, to_agent, nonce }) is None
                && old(self).agent_view(from_agent) is Some && old(self).agent_view(
                to_agent,
            ) is Some && spec_has_permission(
                old(self).agent_view(from_agent).unwrap().permissions,
                Permission::CAN_CREATE_INTENT,
            ) && payload_uri@.len() <= MAX_URI_LEN ==> r == Err::<IntentCreated, ErrorCode>(
                ErrorCode::TransferFailed,
            ),
            r is Ok ==> ({
                let stored = final(self).intent_view(
                    IntentKey { from_agent, to_agent, nonce },
                ).unwrap();
                &&& final(self).intent_view(IntentKey { from_agent, to_agent, nonce }) is Some
                &&& stored.from_agent == from_agent
                &&& stored.to_agent == to_agent
                &&& stored.nonce == nonce
                &&& stored.status == STATUS_PENDING
                &&& stored.payload_hash == payload_hash
                &&& stored.payload_uri == payload_uri
                &&& stored.payment_amount == payment_amount
                &&& stored.payment_mint == payment_mint
                &&& stored.result_hash@ == Seq::new(32, |j: int| 0u8)
                &&& stored.result_uri@ == Seq::<char>::empty()
                &&& stored.created_at == now
                &&& stored.updated_at == now
                &&& stored.bump == bump
            }),
            r is Ok ==> (r == Ok::<IntentCreated, ErrorCode>(
                IntentCreated {
                    intent: IntentKey { from_agent, to_agent, nonce },
                    from_agent,
                    to_agent,
                    payment_amount,
                },
            )),
            r is Ok && payment_amount > 0 ==> transfer_effect(
                old(self).spec_ledger(),
                final(self).spec_ledger(),
                from_token_account,
                escrow_token_account,
                payment_amount,
            ),
            r is Ok && payment_amount > 0 && from_token_account != escrow_token_account ==> ({
                let before = old(self).spec_ledger();
                let after = final(self).spec_ledger();
                &&& after.balance(escrow_token_account) == before.balance(escrow_token_account)
                    + payment_amount
                &&& after.balance(from_token_account) == before.balance(from_token_account)
                    - payment_amount
            }),
            r is Ok && payment_amount == 0 ==> final(self).spec_ledger() == old(
                self,
            ).spec_ledger(),
            r is Ok ==> forall|other: IntentKey|
                other != (IntentKey { from_agent, to_agent, nonce }) ==> final(self).intent_view(
                    other,
                ) == old(self).intent_view(other),
            forall|o: u64| final(self).agent_view(o) == old(self).agent_view(o),
            forall|key: ProfileKey| final(self).profile_view(key) == old(self).profile_view(key),
    {
        let key = IntentKey { from_agent, to_agent, nonce };
        if let Some(i) = self.find_intent(key) {
            proof {
                lemma_lookup_at(self.intents@, intent_key(), i as int);
            }
            return Err(ErrorCode::DuplicateRecord);
        }
        let from_idx = match self.find_agent(from_agent) {
            Some(i) => i,
            None => {
                return Err(ErrorCode::RecordNotFound);
            },
        };
        proof {
            lemma_lookup_at(self.agents@, agent_key(), from_idx as int);
        }
        match self.find_agent(to_agent) {
            Some(j) => {
                proof {
                    lemma_lookup_at(self.agents@, agent_key(), j as int);
                }
            },
            None => {
                return Err(ErrorCode::RecordNotFound);
            },
        }
        if !has_permission(self.agents[from_idx].permissions, Permission::CAN_CREATE_INTENT) {
            return Err(ErrorCode::InsufficientPermissions);
        }
        if payload_uri.as_str().unicode_len() > MAX_URI_LEN {
            return Err(ErrorCode::StringTooLong);
        }
        if payment_amount > 0 {
            match self.ledger.transfer(
                from_token_account,
                escrow_token_account,
                payment_amount,
                Authority::Wallet { key: payer },
            ) {
                Ok(()) => {},
                Err(e) => {
                    return Err(e);
                },
            }
        }
        let record = AgentIntent {
            from_agent,
            to_agent,
            nonce,
            status: STATUS_PENDING,
            payload_hash,
            payload_uri,
            payment_amount,
            payment_mint,
            result_hash: [0u8; 32],
            result_uri: String::new(),
            created_at: now,
            updated_at: now,
            bump,
        };
        proof {
            lemma_lookup_push(self.intents@, intent_key(), record);
        }
        self.intents.push(record);
        Ok(IntentCreated { intent: key, from_agent, to_agent, payment_amount })
    }

    /// A transition of the intent at (`from_agent`, `to_agent`, `nonce`)
    /// can proceed: the intent and the receiving agent exist, the caller is
    /// the receiving agent's owning principal, that agent holds
    /// CAN_ACCEPT_INTENT, the stored status is not yet terminal, the result
    /// locator fits its cap, and, when the transition releases escrow, both
    /// custody accounts are supplied and the escrowed payment can move to
    /// the billing destination on the intent's own derived authority.
    pub open spec fn can_update_intent_status(
        self,
        caller: u64,
        from_agent: u64,
        to_agent: u64,
        nonce: u64,
        new_status: u8,
        result_uri: Option<String>,
        escrow_token_account: Option<u64>,
        billing_token_account: Option<u64>,
    ) -> bool {
        &&& self.intent_view(IntentKey { from_agent, to_agent, nonce }) is Some
        &&& self.agent_view(to_agent) is Some
        &&& caller == to_agent
        &&& spec_has_permission(
            self.agent_view(to_agent).unwrap().permissions,
            Permission::CAN_ACCEPT_INTENT,
        )
        &&& !spec_is_terminal(self.intent_view(IntentKey { from_agent, to_agent, nonce }).unwrap().status)
        &&& (result_uri is Some ==> result_uri.unwrap()@.len() <= MAX_URI_LEN)
        &&& (self.intent_releases_escrow(from_agent, to_agent, nonce, new_status) ==> ({
            let x = self.intent_view(IntentKey { from_agent, to_agent, nonce }).unwrap();
            &&& escrow_token_account is Some
            &&& billing_token_account is Some
            &&& self.spec_ledger().can_transfer(
                escrow_token_account.unwrap(),
                billing_token_account.unwrap(),
                x.payment_amount,
                x.spec_authority(),
            )
        }))
    }

    /// The transition lands on the terminal success status while a payment
    /// is escrowed, so exactly that payment leaves escrow.
    pub open spec fn intent_releases_escrow(
        self,
        from_agent: u64,
        to_agent: u64,
        nonce: u64,
        new_status: u8,
    ) -> bool {
        &&& new_status == STATUS_COMPLETED
        &&& self.intent_view(IntentKey { from_agent, to_agent, nonce }) is Some
        &&& self.intent_view(IntentKey { from_agent, to_agent, nonce }).unwrap().payment_amount
            > 0
    }

    /// Transitions the intent's status, patches the supplied result fields,
    /// and refreshes `updated_at`. Only the receiving agent's owning
    /// principal may call. A transition into Completed with an escrowed
    /// payment releases exactly that payment from the intent-scoped escrow
    /// account to the billing destination, authorized by the intent's own
    /// derived identity; no other transition moves funds. All-or-nothing:
    /// when the release fails the status does not advance. A second
    /// transition out of a terminal status is rejected outright, so escrow
    /// can never be released twice.
    pub fn update_intent_status(
        &mut self,
        caller: u64,
        from_agent: u64,
        to_agent: u64,
        nonce: u64,
        new_status: u8,
        result_hash: Option<[u8; 32]>,
        result_uri: Option<String>,
        escrow_token_account: Option<u64>,
        billing_token_account: Option<u64>,
        now: i64,
    ) -> (r: Result<IntentStatusUpdated, ErrorCode>)
        requires
            old(self).wf(),
        ensures
            final(self).wf(),
            r is Ok <==> old(self).can_update_intent_status(
                caller,
                from_agent,
                to_agent,
                nonce,
                new_status,
                result_uri,
                escrow_token_account,
                billing_token_account,
            ),
            r is Err ==> *final(self) == *old(self),
            old(self).intent_view(IntentKey { from_agent, to_agent, nonce }) is None || old(
                self,
            ).agent_view(to_agent) is None ==> r == Err::<IntentStatusUpdated, ErrorCode>(
                ErrorCode::RecordNotFound,
            ),
            old(self).intent_view(IntentKey { from_agent, to_agent, nonce }) is Some && old(
                self,
            ).agent_view(to_agent) is Some && caller != to_agent ==> r == Err::<
                IntentStatusUpdated,
                ErrorCode,
            >(ErrorCode::Unauthorized),
            old(self).intent_view(IntentKey { from_agent, to_agent, nonce }) is Some && old(
                self,
            ).agent_view(to_agent) is Some && caller == to_agent && !spec_has_permission(
                old(self).agent_view(to_agent).unwrap().permissions,
                Permission::CAN_ACCEPT_INTENT,
            ) ==> r == Err::<IntentStatusUpdated, ErrorCode>(ErrorCode::InsufficientPermissions),
            old(self).intent_view(IntentKey { from_agent, to_agent, nonce }) is Some && old(
                self,
            ).agent_view(to_agent) is Some && caller == to_agent && spec_has_permission(
                old(self).agent_view(to_agent).unwrap().permissions,
                Permission::CAN_ACCEPT_INTENT,
            ) && spec_is_terminal(
                old(self).intent_view(IntentKey { from_agent, to_agent, nonce }).unwrap().status,
            ) ==> r == Err::<IntentStatusUpdated, ErrorCode>(ErrorCode::InvalidStatusTransition),
            old(self).intent_view(IntentKey { from_agent, to_agent, nonce }) is Some && old(
                self,
            ).agent_view(to_agent) is Some && caller == to_agent && spec_has_permission(
                old(self).agent_view(to_agent).unwrap().permissions,
                Permission::CAN_ACCEPT_INTENT,
            ) && !spec_is_terminal(
                old(self).intent_view(IntentKey { from_agent, to_agent, nonce }).unwrap().status,
            ) && result_uri is Some && result_uri.unwrap()@.len() > MAX_URI_LEN ==> r == Err::<
                IntentStatusUpdated,
                ErrorCode,
            >(ErrorCode::StringTooLong),
            r is Err && old(self).intent_view(IntentKey { from_agent, to_agent, nonce }) is Some
                && old(self).agent_view(to_agent) is Some && caller == to_agent
                && spec_has_permission(
                old(self).agent_view(to_agent).unwrap().permissions,
                Permission::CAN_ACCEPT_INTENT,
            ) && !spec_is_terminal(
                old(self).intent_view(IntentKey { from_agent, to_agent, nonce }).unwrap().status,
            ) && (result_uri is Some ==> result_uri.unwrap()@.len() <= MAX_URI_LEN) ==> r == Err::<
                IntentStatusUpdated,
                ErrorCode,
            >(ErrorCode::TransferFailed),
            r is Ok ==> ({
                let x = old(self).intent_view(IntentKey { from_agent, to_agent, nonce }).unwrap();
                final(self).intent_view(IntentKey { from_agent, to_agent, nonce }) == Some(
                    AgentIntent {
                        from_agent: x.from_agent,
                        to_agent: x.to_agent,
                        nonce: x.nonce,
                        status: new_status,
                        payload_hash: x.payload_hash,
                        payload_uri: x.payload_uri,
                        payment_amount: x.payment_amount,
                        payment_mint: x.payment_mint,
                        result_hash: match result_hash { Some(h) => h, None => x.result_hash },
                        result_uri: match result_uri { Some(u) => u, None => x.result_uri },
                        created_at: x.created_at,
                        updated_at: now,
                        bump: x.bump,
                    },
                )
            }),
            r is Ok && old(self).intent_releases_escrow(from_agent, to_agent, nonce, new_status)
                ==> transfer_effect(
                old(self).spec_ledger(),
                final(self).spec_ledger(),
                escrow_token_account.unwrap(),
                billing_token_account.unwrap(),
                old(self).intent_view(
                    IntentKey { from_agent, to_agent, nonce },
                ).unwrap().payment_amount,
            ),
            r is Ok && old(self).intent_releases_escrow(from_agent, to_agent, nonce, new_status)
                && escrow_token_account.unwrap() != billing_token_account.unwrap() ==> ({
                let key = IntentKey { from_agent, to_agent, nonce };
                let paid = old(self).intent_view(key).unwrap().payment_amount;
                let escrow = escrow_token_account.unwrap();
                let billing = billing_token_account.unwrap();
                let before = old(self).spec_ledger();
                let after = final(self).spec_ledger();
                &&& after.balance(escrow) == before.balance(escrow) - paid
                &&& after.balance(billing) == before.balance(billing) + paid
            }),
            r is Ok && !old(self).intent_releases_escrow(from_agent, to_agent, nonce, new_status)
                ==> final(self).spec_ledger() == old(self).spec_ledger(),
            r is Ok ==> (r == Ok::<IntentStatusUpdated, ErrorCode>(
                IntentStatusUpdated {
                    intent: IntentKey { from_agent, to_agent, nonce },
                    status: new_status,
                },
            )),
            r is Ok ==> forall|other: IntentKey|
                other != (IntentKey { from_agent, to_agent, nonce }) ==> final(self).intent_view(
                    other,
                ) == old(self).intent_view(other),
            forall|o: u64| final(self).agent_view(o) == old(self).agent_view(o),
            forall|key: ProfileKey| final(self).profile_view(key) == old(self).profile_view(key),
    {
        let key = IntentKey { from_agent, to_agent, nonce };
        let i = match self.find_intent(key) {
            Some(i) => i,
            None => {
                return Err(ErrorCode::RecordNotFound);
            },
        };
        proof {
            lemma_lookup_at(self.intents@, intent_key(), i as int);
        }
        let to_idx = match self.find_agent(to_agent) {
            Some(j) => j,
            None => {
                return Err(ErrorCode::RecordNotFound);
            },
        };
        proof {
            lemma_lookup_at(self.agents@, agent_key(), to_idx as int);
        }
        if caller != self.agents[to_idx].owner_wallet {
            return Err(ErrorCode::Unauthorized);
        }
        if !has_permission(self.agents[to_idx].permissions, Permission::CAN_ACCEPT_INTENT) {
            return Err(ErrorCode::InsufficientPermissions);
        }
        if is_terminal(self.intents[i].status) {
            return Err(ErrorCode::InvalidStatusTransition);
        }
        match &result_uri {
            Some(uri) => {
                if uri.as_str().unicode_len() > MAX_URI_LEN {
                    return Err(ErrorCode::StringTooLong);
                }
            },
            None => {},
        }
        let payment_amount = self.intents[i].payment_amount;
        if new_status == STATUS_COMPLETED && payment_amount > 0 {
            let escrow = match escrow_token_account {
                Some(e) => e,
                None => {
                    return Err(ErrorCode::TransferFailed);
                },
            };
            let billing = match billing_token_account {
                Some(b) => b,
                None => {
                    return Err(ErrorCode::TransferFailed);
                },
            };
            let authority = Authority::Intent {
                from_agent: self.intents[i].from_agent,
                to_agent: self.intents[i].to_agent,
                nonce: self.intents[i].nonce,
            };
            match self.ledger.transfer(escrow, billing, payment_amount, authority) {
                Ok(()) => {},
                Err(e) => {
                    return Err(e);
                },
            }
        }
        let ghost pre = self.intents@;
        self.intents[i].status = new_status;
        if let Some(hash) = result_hash {
            self.intents[i].result_hash = hash;
        }
        if let Some(uri) = result_uri {
            self.intents[i].result_uri = uri;
        }
        self.intents[i].updated_at = now;
        proof {
            assert(self.intents@ =~= pre.update(i as int, self.intents@[i as int]));
            lemma_lookup_update(pre, intent_key(), i as int, self.intents@[i as int]);
        }
        Ok(IntentStatusUpdated { intent: key, status: new_status })
    }

    /// A borrow of the intent record at (`from_agent`, `to_agent`,
    /// `nonce`), if any.
    pub fn intent_of(&self, from_agent: u64, to_agent: u64, nonce: u64) -> (r: Option<
        &AgentIntent,
    >)
        requires
            self.wf(),
        ensures
            match r {
                Some(x) => self.intent_view(IntentKey { from_agent, to_agent, nonce }) == Some(
                    *x,
                ),
                None => self.intent_view(IntentKey { from_agent, to_agent, nonce }) is None,
            },
    {
        match self.find_intent(IntentKey { from_agent, to_agent, nonce }) {
            Some(i) => {
                proof {
                    lemma_lookup_at(self.intents@, intent_key(), i as int);
                }
                Some(&self.intents[i])
            },
            None => None,
        }
    }

    /// A borrow of `owner`'s agent record, if any.
    pub fn agent_of(&self, owner: u64) -> (r: Option<&AgentIdentity>)
        requires
            self.wf(),
        ensures
            match r {
                Some(a) => self.agent_view(owner) == Some(*a),
                None => self.agent_view(owner) is None,
            },
    {
        match self.find_agent(owner) {
            Some(i) => {
                proof {
                    lemma_lookup_at(self.agents@, agent_key(), i as int);
                }
                Some(&self.agents[i])
            },
            None => None,
        }
    }

    /// Opens a token account on the ledger; see `TokenLedger::create_account`.
    pub fn create_token_account(
        &mut self,
        id: u64,
        mint: u64,
        owner: Authority,
        amount: u64,
    ) -> (r: Result<(), ErrorCode>)
        requires
            old(self).wf(),
        ensures
            final(self).wf(),
            r is Ok <==> old(self).token_account(id) is None,
            r is Err ==> *final(self) == *old(self) && r == Err::<(), ErrorCode>(
                ErrorCode::DuplicateRecord,
            ),
            r is Ok ==> final(self).token_account(id) == Some(
                TokenAccount { id, mint, owner, amount },
            ),
            r is Ok ==> forall|other: u64|
                other != id ==> final(self).token_account(other) == old(self).token_account(other),
            forall|o: u64| final(self).agent_view(o) == old(self).agent_view(o),
            forall|key: ProfileKey| final(self).profile_view(key) == old(self).profile_view(key),
            forall|key: IntentKey| final(self).intent_view(key) == old(self).intent_view(key),
    {
        self.ledger.create_account(id, mint, owner, amount)
    }

    /// The balance at token account `id`, or None for an absent account.
    pub fn balance_of(&self, id: u64) -> (r: Option<u64>)
        requires
            self.wf(),
        ensures
            match r {
                Some(amount) => self.token_account(id) is Some && amount == self.spec_ledger()
                    .balance(id),
                None => self.token_account(id) is None,
            },
    {
        self.ledger.balance_of(id)
    }

    /// A copy of the token account at `id`, or None for an absent one.
    pub fn token_account_of(&self, id: u64) -> (r: Option<TokenAccount>)
        requires
            self.wf(),
        ensures
            r == self.token_account(id),
    {
        self.ledger.account_of(id)
    }
}

/// A stored agent record's owning principal is exactly the key its address
/// derives from. Together with the update contract, which keeps every
/// record at its address, the owning principal of a registration can never
/// change.
pub proof fn lemma_agent_owner_matches_address(mesh: AgentMesh, owner: u64)
    requires
        mesh.agent_view(owner) is Some,
    ensures
        mesh.agent_view(owner).unwrap().owner_wallet == owner,
{
}

/// A stored profile sits at the address derived from its owner and its
/// caller-chosen profile identifier.
pub proof fn lemma_profile_matches_address(mesh: AgentMesh, key: ProfileKey)
    requires
        mesh.profile_view(key) is Some,
    ensures
        mesh.profile_view(key).unwrap().owner_wallet == key.owner,
        mesh.profile_view(key).unwrap().profile_id == key.profile_id,
{
    assert(mesh.profile_view(key).unwrap().spec_key() == key);
}

/// A stored intent sits at the address derived from its
/// (from agent, to agent, nonce) triple, so one live intent exists per
/// triple and a replayed creation can only collide.
pub proof fn lemma_intent_matches_address(mesh: AgentMesh, key: IntentKey)
    requires
        mesh.intent_view(key) is Some,
    ensures
        mesh.intent_view(key).unwrap().from_agent == key.from_agent,
        mesh.intent_view(key).unwrap().to_agent == key.to_agent,
        mesh.intent_view(key).unwrap().nonce == key.nonce,
{
    assert(mesh.intent_view(key).unwrap().spec_key() == key);
}

/// Once an intent's stored status is terminal, no further transition is
/// accepted, whatever the caller, permissions or custody accounts supply:
/// in particular a second landing on Completed, and with it a second
/// escrow release, is impossible.
pub proof fn lemma_terminal_status_blocks_update(
    mesh: AgentMesh,
    caller: u64,
    from_agent: u64,
    to_agent: u64,
    nonce: u64,
    new_status: u8,
    result_uri: Option<String>,
    escrow_token_account: Option<u64>,
    billing_token_account: Option<u64>,
)
    requires
        mesh.intent_view(IntentKey { from_agent, to_agent, nonce }) is Some,
        spec_is_terminal(mesh.intent_view(IntentKey { from_agent, to_agent, nonce }).unwrap().status),
    ensures
        !mesh.can_update_intent_status(
            caller,
            from_agent,
            to_agent,
            nonce,
            new_status,
            result_uri,
            escrow_token_account,
            billing_token_account,
        ),
{
}

} // verus!
