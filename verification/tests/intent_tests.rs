use agent_mesh::engine::AgentMesh;
use agent_mesh::errors::ErrorCode;
use agent_mesh::permissions::Permission;
use agent_mesh::records::{Authority, STATUS_ACCEPTED, STATUS_COMPLETED, STATUS_FAILED, STATUS_PENDING};

const ALICE: u64 = 1;
const BOB: u64 = 5;
const MINT: u64 = 77;
const PAYER_ACCOUNT: u64 = 10;
const ESCROW_ACCOUNT: u64 = 11;
const BILLING_ACCOUNT: u64 = 12;

/// Two registered agents, a billing profile for the receiver, and funded
/// custody accounts: the payer holds 5000 units, the intent-scoped escrow
/// for (ALICE, BOB, nonce 1) and the billing destination hold zero.
fn setup() -> AgentMesh {
    let mut mesh = AgentMesh::new();
    mesh.register_agent(ALICE, 2, 0, String::new(), Permission::CAN_CREATE_INTENT, 100, 255)
        .unwrap();
    mesh.register_agent(BOB, 6, 0, String::new(), Permission::CAN_ACCEPT_INTENT, 100, 255)
        .unwrap();
    mesh.create_model_profile(
        BOB,
        1,
        "worker".to_string(),
        String::new(),
        1_000,
        BILLING_ACCOUNT,
        0,
        0,
        100,
        255,
    )
    .unwrap();
    mesh.create_token_account(PAYER_ACCOUNT, MINT, Authority::Wallet { key: ALICE }, 5_000)
        .unwrap();
    mesh.create_token_account(
        ESCROW_ACCOUNT,
        MINT,
        Authority::Intent { from_agent: ALICE, to_agent: BOB, nonce: 1 },
        0,
    )
    .unwrap();
    mesh.create_token_account(BILLING_ACCOUNT, MINT, Authority::Wallet { key: BOB }, 0)
        .unwrap();
    mesh
}

fn create_funded_intent(mesh: &mut AgentMesh, amount: u64) {
    mesh.create_intent(
        ALICE,
        BOB,
        1,
        [0u8; 32],
        "ipfs://payload".to_string(),
        amount,
        MINT,
        ALICE,
        PAYER_ACCOUNT,
        ESCROW_ACCOUNT,
        200,
        251,
    )
    .unwrap();
}

#[test]
fn create_intent_stores_record_and_funds_escrow() {
    let mut mesh = setup();
    let event = mesh
        .create_intent(
            ALICE,
            BOB,
            1,
            [7u8; 32],
            "ipfs://payload".to_string(),
            1_000,
            MINT,
            ALICE,
            PAYER_ACCOUNT,
            ESCROW_ACCOUNT,
            200,
            251,
        )
        .unwrap();
    assert_eq!(event.from_agent, ALICE);
    assert_eq!(event.to_agent, BOB);
    assert_eq!(event.payment_amount, 1_000);
    assert_eq!(event.intent.nonce, 1);
    let intent = mesh.intent_of(ALICE, BOB, 1).unwrap();
    assert_eq!(intent.from_agent, ALICE);
    assert_eq!(intent.to_agent, BOB);
    assert_eq!(intent.nonce, 1);
    assert_eq!(intent.status, STATUS_PENDING);
    assert_eq!(intent.payload_hash, [7u8; 32]);
    assert_eq!(intent.payload_uri, "ipfs://payload");
    assert_eq!(intent.payment_amount, 1_000);
    assert_eq!(intent.payment_mint, MINT);
    assert_eq!(intent.result_hash, [0u8; 32]);
    assert_eq!(intent.result_uri, "");
    assert_eq!(intent.created_at, 200);
    assert_eq!(intent.updated_at, 200);
    assert_eq!(intent.bump, 251);
    assert_eq!(mesh.balance_of(PAYER_ACCOUNT).unwrap(), 4_000);
    assert_eq!(mesh.balance_of(ESCROW_ACCOUNT).unwrap(), 1_000);
}

#[test]
fn create_intent_same_triple_succeeds_exactly_once() {
    let mut mesh = setup();
    create_funded_intent(&mut mesh, 1_000);
    let replay = mesh.create_intent(
        ALICE,
        BOB,
        1,
        [9u8; 32],
        String::new(),
        500,
        MINT,
        ALICE,
        PAYER_ACCOUNT,
        ESCROW_ACCOUNT,
        300,
        251,
    );
    assert_eq!(replay.unwrap_err(), ErrorCode::DuplicateRecord);
    // The second attempt moved nothing and overwrote nothing.
    assert_eq!(mesh.balance_of(PAYER_ACCOUNT).unwrap(), 4_000);
    assert_eq!(mesh.balance_of(ESCROW_ACCOUNT).unwrap(), 1_000);
    let intent = mesh.intent_of(ALICE, BOB, 1).unwrap();
    assert_eq!(intent.payload_hash, [0u8; 32]);
    assert_eq!(intent.payment_amount, 1_000);
    // A different nonce derives a fresh address and is accepted.
    mesh.create_token_account(
        20,
        MINT,
        Authority::Intent { from_agent: ALICE, to_agent: BOB, nonce: 2 },
        0,
    )
    .unwrap();
    mesh.create_intent(
        ALICE,
        BOB,
        2,
        [9u8; 32],
        String::new(),
        500,
        MINT,
        ALICE,
        PAYER_ACCOUNT,
        20,
        300,
        251,
    )
    .unwrap();
    assert_eq!(mesh.balance_of(PAYER_ACCOUNT).unwrap(), 3_500);
}

#[test]
fn create_intent_without_permission_fails() {
    let mut mesh = setup();
    // BOB's mask carries only CAN_ACCEPT_INTENT, so BOB's agent may not
    // initiate intents.
    let result = mesh.create_intent(
        BOB,
        ALICE,
        1,
        [0u8; 32],
        String::new(),
        0,
        MINT,
        BOB,
        PAYER_ACCOUNT,
        ESCROW_ACCOUNT,
        200,
        251,
    );
    assert_eq!(result.unwrap_err(), ErrorCode::InsufficientPermissions);
    assert!(mesh.intent_of(BOB, ALICE, 1).is_none());
}

#[test]
fn create_intent_with_unregistered_agent_fails() {
    let mut mesh = setup();
    let result = mesh.create_intent(
        ALICE,
        99,
        1,
        [0u8; 32],
        String::new(),
        0,
        MINT,
        ALICE,
        PAYER_ACCOUNT,
        ESCROW_ACCOUNT,
        200,
        251,
    );
    assert_eq!(result.unwrap_err(), ErrorCode::RecordNotFound);
}

#[test]
fn create_intent_payload_uri_cap_rejected() {
    let mut mesh = setup();
    let result = mesh.create_intent(
        ALICE,
        BOB,
        1,
        [0u8; 32],
        "u".repeat(201),
        0,
        MINT,
        ALICE,
        PAYER_ACCOUNT,
        ESCROW_ACCOUNT,
        200,
        251,
    );
    assert_eq!(result.unwrap_err(), ErrorCode::StringTooLong);
    assert!(mesh.intent_of(ALICE, BOB, 1).is_none());
}

#[test]
fn create_intent_underfunded_persists_nothing() {
    let mut mesh = setup();
    let result = mesh.create_intent(
        ALICE,
        BOB,
        1,
        [0u8; 32],
        String::new(),
        9_999,
        MINT,
        ALICE,
        PAYER_ACCOUNT,
        ESCROW_ACCOUNT,
        200,
        251,
    );
    assert_eq!(result.unwrap_err(), ErrorCode::TransferFailed);
    assert!(mesh.intent_of(ALICE, BOB, 1).is_none());
    assert_eq!(mesh.balance_of(PAYER_ACCOUNT).unwrap(), 5_000);
    assert_eq!(mesh.balance_of(ESCROW_ACCOUNT).unwrap(), 0);
}

#[test]
fn create_intent_foreign_payer_cannot_fund() {
    let mut mesh = setup();
    // BOB does not own ALICE's funding source, so the escrow transfer is
    // refused and no intent is persisted.
    let result = mesh.create_intent(
        ALICE,
        BOB,
        1,
        [0u8; 32],
        String::new(),
        100,
        MINT,
        BOB,
        PAYER_ACCOUNT,
        ESCROW_ACCOUNT,
        200,
        251,
    );
    assert_eq!(result.unwrap_err(), ErrorCode::TransferFailed);
    assert!(mesh.intent_of(ALICE, BOB, 1).is_none());
    assert_eq!(mesh.balance_of(PAYER_ACCOUNT).unwrap(), 5_000);
}

#[test]
fn completed_intent_pays_billing_from_escrow() {
    let mut mesh = setup();
    create_funded_intent(&mut mesh, 1_000);
    assert_eq!(mesh.balance_of(ESCROW_ACCOUNT).unwrap(), 1_000);
    let event = mesh
        .update_intent_status(
            BOB,
            ALICE,
            BOB,
            1,
            STATUS_COMPLETED,
            Some([3u8; 32]),
            Some("ipfs://result".to_string()),
            Some(ESCROW_ACCOUNT),
            Some(BILLING_ACCOUNT),
            400,
        )
        .unwrap();
    assert_eq!(event.status, STATUS_COMPLETED);
    assert_eq!(event.intent.from_agent, ALICE);
    let intent = mesh.intent_of(ALICE, BOB, 1).unwrap();
    assert_eq!(intent.status, STATUS_COMPLETED);
    assert_eq!(intent.result_hash, [3u8; 32]);
    assert_eq!(intent.result_uri, "ipfs://result");
    assert_eq!(intent.updated_at, 400);
    assert_eq!(intent.created_at, 200);
    // Escrow returns to its pre-creation balance; billing gains the payment.
    assert_eq!(mesh.balance_of(ESCROW_ACCOUNT).unwrap(), 0);
    assert_eq!(mesh.balance_of(BILLING_ACCOUNT).unwrap(), 1_000);
    assert_eq!(mesh.balance_of(PAYER_ACCOUNT).unwrap(), 4_000);
}

#[test]
fn completed_intent_with_zero_payment_touches_no_balance() {
    let mut mesh = setup();
    create_funded_intent(&mut mesh, 0);
    assert_eq!(mesh.balance_of(PAYER_ACCOUNT).unwrap(), 5_000);
    // No custody accounts are even supplied: a zero payment performs no
    // transfer call at all.
    mesh.update_intent_status(
        BOB,
        ALICE,
        BOB,
        1,
        STATUS_COMPLETED,
        Some([3u8; 32]),
        None,
        None,
        None,
        400,
    )
    .unwrap();
    let intent = mesh.intent_of(ALICE, BOB, 1).unwrap();
    assert_eq!(intent.status, STATUS_COMPLETED);
    assert_eq!(intent.result_hash, [3u8; 32]);
    assert_eq!(mesh.balance_of(PAYER_ACCOUNT).unwrap(), 5_000);
    assert_eq!(mesh.balance_of(ESCROW_ACCOUNT).unwrap(), 0);
    assert_eq!(mesh.balance_of(BILLING_ACCOUNT).unwrap(), 0);
}

#[test]
fn second_completion_is_rejected_and_pays_once() {
    let mut mesh = setup();
    create_funded_intent(&mut mesh, 1_000);
    mesh.update_intent_status(
        BOB,
        ALICE,
        BOB,
        1,
        STATUS_COMPLETED,
        None,
        None,
        Some(ESCROW_ACCOUNT),
        Some(BILLING_ACCOUNT),
        400,
    )
    .unwrap();
    let again = mesh.update_intent_status(
        BOB,
        ALICE,
        BOB,
        1,
        STATUS_COMPLETED,
        None,
        None,
        Some(ESCROW_ACCOUNT),
        Some(BILLING_ACCOUNT),
        500,
    );
    assert_eq!(again.unwrap_err(), ErrorCode::InvalidStatusTransition);
    // Escrow ends at zero, never negative, never double-paid.
    assert_eq!(mesh.balance_of(ESCROW_ACCOUNT).unwrap(), 0);
    assert_eq!(mesh.balance_of(BILLING_ACCOUNT).unwrap(), 1_000);
    assert_eq!(mesh.intent_of(ALICE, BOB, 1).unwrap().updated_at, 400);
}

#[test]
fn update_status_by_non_owner_changes_nothing() {
    let mut mesh = setup();
    create_funded_intent(&mut mesh, 1_000);
    let result = mesh.update_intent_status(
        ALICE,
        ALICE,
        BOB,
        1,
        STATUS_COMPLETED,
        Some([3u8; 32]),
        Some("x".to_string()),
        Some(ESCROW_ACCOUNT),
        Some(BILLING_ACCOUNT),
        400,
    );
    assert_eq!(result.unwrap_err(), ErrorCode::Unauthorized);
    let intent = mesh.intent_of(ALICE, BOB, 1).unwrap();
    assert_eq!(intent.status, STATUS_PENDING);
    assert_eq!(intent.result_hash, [0u8; 32]);
    assert_eq!(intent.result_uri, "");
    assert_eq!(intent.updated_at, 200);
    assert_eq!(mesh.balance_of(ESCROW_ACCOUNT).unwrap(), 1_000);
    assert_eq!(mesh.balance_of(BILLING_ACCOUNT).unwrap(), 0);
}

#[test]
fn update_status_without_accept_permission_fails() {
    let mut mesh = setup();
    create_funded_intent(&mut mesh, 1_000);
    // Strip BOB's accept bit after creation.
    mesh.update_agent(BOB, BOB, None, None, None, Some(0), 300).unwrap();
    let result = mesh.update_intent_status(
        BOB,
        ALICE,
        BOB,
        1,
        STATUS_ACCEPTED,
        None,
        None,
        None,
        None,
        400,
    );
    assert_eq!(result.unwrap_err(), ErrorCode::InsufficientPermissions);
    assert_eq!(mesh.intent_of(ALICE, BOB, 1).unwrap().status, STATUS_PENDING);
}

#[test]
fn accepted_then_completed_releases_escrow_once() {
    let mut mesh = setup();
    create_funded_intent(&mut mesh, 1_000);
    mesh.update_intent_status(BOB, ALICE, BOB, 1, STATUS_ACCEPTED, None, None, None, None, 300)
        .unwrap();
    // The Accepted transition moved no funds.
    assert_eq!(mesh.balance_of(ESCROW_ACCOUNT).unwrap(), 1_000);
    assert_eq!(mesh.intent_of(ALICE, BOB, 1).unwrap().status, STATUS_ACCEPTED);
    mesh.update_intent_status(
        BOB,
        ALICE,
        BOB,
        1,
        STATUS_COMPLETED,
        Some([8u8; 32]),
        None,
        Some(ESCROW_ACCOUNT),
        Some(BILLING_ACCOUNT),
        400,
    )
    .unwrap();
    assert_eq!(mesh.balance_of(ESCROW_ACCOUNT).unwrap(), 0);
    assert_eq!(mesh.balance_of(BILLING_ACCOUNT).unwrap(), 1_000);
}

#[test]
fn failed_transition_moves_no_funds_and_is_terminal() {
    let mut mesh = setup();
    create_funded_intent(&mut mesh, 1_000);
    mesh.update_intent_status(BOB, ALICE, BOB, 1, STATUS_FAILED, None, None, None, None, 300)
        .unwrap();
    assert_eq!(mesh.intent_of(ALICE, BOB, 1).unwrap().status, STATUS_FAILED);
    assert_eq!(mesh.balance_of(ESCROW_ACCOUNT).unwrap(), 1_000);
    assert_eq!(mesh.balance_of(BILLING_ACCOUNT).unwrap(), 0);
    // Failed is terminal: no later completion can release the escrow.
    let after = mesh.update_intent_status(
        BOB,
        ALICE,
        BOB,
        1,
        STATUS_COMPLETED,
        None,
        None,
        Some(ESCROW_ACCOUNT),
        Some(BILLING_ACCOUNT),
        400,
    );
    assert_eq!(after.unwrap_err(), ErrorCode::InvalidStatusTransition);
    assert_eq!(mesh.balance_of(ESCROW_ACCOUNT).unwrap(), 1_000);
}

#[test]
fn completion_with_wrong_escrow_authority_fails() {
    let mut mesh = setup();
    // An escrow account owned by a plain wallet, not by the intent's own
    // derived authority: the release is unforgeable, so completion fails
    // and the status does not advance.
    mesh.create_token_account(30, MINT, Authority::Wallet { key: BOB }, 0).unwrap();
    mesh.create_intent(
        ALICE,
        BOB,
        3,
        [0u8; 32],
        String::new(),
        500,
        MINT,
        ALICE,
        PAYER_ACCOUNT,
        30,
        200,
        251,
    )
    .unwrap();
    assert_eq!(mesh.balance_of(30).unwrap(), 500);
    let result = mesh.update_intent_status(
        BOB,
        ALICE,
        BOB,
        3,
        STATUS_COMPLETED,
        None,
        None,
        Some(30),
        Some(BILLING_ACCOUNT),
        400,
    );
    assert_eq!(result.unwrap_err(), ErrorCode::TransferFailed);
    assert_eq!(mesh.intent_of(ALICE, BOB, 3).unwrap().status, STATUS_PENDING);
    assert_eq!(mesh.balance_of(30).unwrap(), 500);
    assert_eq!(mesh.balance_of(BILLING_ACCOUNT).unwrap(), 0);
}

#[test]
fn completion_without_custody_accounts_fails() {
    let mut mesh = setup();
    create_funded_intent(&mut mesh, 1_000);
    let result = mesh.update_intent_status(
        BOB,
        ALICE,
        BOB,
        1,
        STATUS_COMPLETED,
        None,
        None,
        None,
        Some(BILLING_ACCOUNT),
        400,
    );
    assert_eq!(result.unwrap_err(), ErrorCode::TransferFailed);
    assert_eq!(mesh.intent_of(ALICE, BOB, 1).unwrap().status, STATUS_PENDING);
    assert_eq!(mesh.balance_of(ESCROW_ACCOUNT).unwrap(), 1_000);
}

#[test]
fn update_status_result_uri_cap_rejected() {
    let mut mesh = setup();
    create_funded_intent(&mut mesh, 0);
    let result = mesh.update_intent_status(
        BOB,
        ALICE,
        BOB,
        1,
        STATUS_ACCEPTED,
        None,
        Some("u".repeat(201)),
        None,
        None,
        400,
    );
    assert_eq!(result.unwrap_err(), ErrorCode::StringTooLong);
    assert_eq!(mesh.intent_of(ALICE, BOB, 1).unwrap().status, STATUS_PENDING);
}

#[test]
fn update_status_on_missing_intent_fails() {
    let mut mesh = setup();
    let result = mesh.update_intent_status(
        BOB,
        ALICE,
        BOB,
        9,
        STATUS_ACCEPTED,
        None,
        None,
        None,
        None,
        400,
    );
    assert_eq!(result.unwrap_err(), ErrorCode::RecordNotFound);
}
