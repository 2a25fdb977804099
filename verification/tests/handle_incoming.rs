use universal_nft::instructions::handle_incoming::{
    authenticate, claim, guard_replay, handler, mint_event, mint_request, register_origin,
    settle, Aborted, Cause, CrossChainMintEvent, ErrorCode, HandleIncoming, Issuance, Receipt,
    Stage,
};
use universal_nft::ledger::{CreateAccount, Ledger, MintTo};
use universal_nft::pda::{
    derive_gateway_config_pda, derive_nft_origin_pda, derive_replay_marker_pda, ID,
};
use universal_nft::state::gateway::GatewayConfig;
use universal_nft::state::nft_origin::{CrossChainNftPayload, NftOrigin};
use universal_nft::state::replay::ReplayMarker;

const PAYER: [u8; 32] = [10u8; 32];
const RECIPIENT: [u8; 32] = [3u8; 32];
const MINT: [u8; 32] = [12u8; 32];
const TOKEN_ACCOUNT: [u8; 32] = [13u8; 32];
const NOW: i64 = 1_700_000_000;

fn message(token: u8, nonce: u64) -> CrossChainNftPayload {
    CrossChainNftPayload {
        token_id: [token; 32],
        nonce,
        origin_chain_id: 7,
        origin_mint: [2u8; 32],
        metadata_uri: "ipfs://a".to_string(),
        recipient: RECIPIENT,
    }
}

fn accounts_for(message: &CrossChainNftPayload) -> HandleIncoming {
    HandleIncoming {
        payer: PAYER,
        recipient: RECIPIENT,
        mint: MINT,
        recipient_token_account: TOKEN_ACCOUNT,
        gateway_config: derive_gateway_config_pda().unwrap().0,
        replay_marker: derive_replay_marker_pda(&message.token_id, message.nonce).unwrap().0,
        nft_origin: derive_nft_origin_pda(&message.token_id).unwrap().0,
    }
}

fn ledger_with_gateway() -> Ledger {
    let mut ledger = Ledger::new();
    let config = GatewayConfig { gateway: [9u8; 32] };
    assert!(ledger.allocate(derive_gateway_config_pda().unwrap().0, config.to_account_data()));
    ledger
}

fn rejected(stage: Stage, code: ErrorCode) -> Result<Receipt, Aborted> {
    Err(Aborted { stage, cause: Cause::Rejected(code) })
}

fn snapshot(ledger: &Ledger, accounts: &HandleIncoming) -> (Vec<u8>, Vec<u8>, Vec<u8>, usize, usize) {
    (
        ledger.data(&accounts.gateway_config),
        ledger.data(&accounts.replay_marker),
        ledger.data(&accounts.nft_origin),
        ledger.issued().len(),
        ledger.events().len(),
    )
}

#[test]
fn transfer_goes_through() {
    let mut ledger = ledger_with_gateway();
    let sent = message(1, 1);
    let accounts = accounts_for(&sent);
    let receipt = handler(&mut ledger, &accounts, &sent.encode().unwrap(), NOW, Issuance::Done).unwrap();

    let replay_bump = derive_replay_marker_pda(&sent.token_id, 1).unwrap().1;
    let origin_bump = derive_nft_origin_pda(&sent.token_id).unwrap().1;
    let event = CrossChainMintEvent {
        token_id: [1u8; 32],
        origin_chain: 7,
        recipient: RECIPIENT,
        nonce: 1,
        timestamp: NOW,
    };
    let request = MintTo { mint: MINT, to: TOKEN_ACCOUNT, authority: PAYER, amount: 1 };
    let marker_slot = CreateAccount {
        payer: PAYER,
        key: accounts.replay_marker,
        space: 57,
        owner: ID,
        bump: replay_bump,
    };
    let origin_slot = CreateAccount {
        payer: PAYER,
        key: accounts.nft_origin,
        space: 95,
        owner: ID,
        bump: origin_bump,
    };
    assert_eq!(
        receipt,
        Receipt { marker: marker_slot, origin: Some(origin_slot), mint: request, event }
    );
    assert_eq!(ledger.data(&accounts.replay_marker).len(), 57);
    assert_eq!(ledger.data(&accounts.nft_origin).len(), 95);

    let marker = ReplayMarker { token_id: [1u8; 32], nonce: 1, created_at: NOW, bump: replay_bump };
    assert_eq!(ledger.data(&accounts.replay_marker), marker.to_account_data());
    let origin = NftOrigin {
        origin_chain: 7,
        origin_token_id: [1u8; 32],
        origin_mint: [2u8; 32],
        metadata_uri: "ipfs://a".to_string(),
        created_at: NOW,
        bump: origin_bump,
    };
    assert_eq!(ledger.data(&accounts.nft_origin), origin.to_account_data().unwrap());
    assert_eq!(ledger.issued(), &vec![request]);
    assert_eq!(ledger.events(), &vec![event]);
}

#[test]
fn second_identical_invocation_is_a_replay() {
    let mut ledger = ledger_with_gateway();
    let sent = message(1, 1);
    let accounts = accounts_for(&sent);
    let bytes = sent.encode().unwrap();
    assert!(handler(&mut ledger, &accounts, &bytes, NOW, Issuance::Done).is_ok());
    let before = snapshot(&ledger, &accounts);

    let again = handler(&mut ledger, &accounts, &bytes, NOW + 5, Issuance::Done);
    assert_eq!(again, rejected(Stage::Decoded, ErrorCode::ReplayAttack));
    assert_eq!(snapshot(&ledger, &accounts), before);
    assert_eq!(ledger.issued().len(), 1);
    assert_eq!(ledger.events().len(), 1);

    let third = handler(&mut ledger, &accounts, &bytes, NOW + 9, Issuance::Failed(3));
    assert_eq!(third, rejected(Stage::Decoded, ErrorCode::ReplayAttack));
    assert_eq!(ledger.issued().len(), 1);
}

#[test]
fn wrong_replay_slot_is_a_mismatch() {
    let mut ledger = ledger_with_gateway();
    let sent = message(1, 1);
    let mut accounts = accounts_for(&sent);
    accounts.replay_marker = derive_replay_marker_pda(&sent.token_id, 2).unwrap().0;
    let before = snapshot(&ledger, &accounts);
    let result = handler(&mut ledger, &accounts, &sent.encode().unwrap(), NOW, Issuance::Done);
    assert_eq!(result, rejected(Stage::Decoded, ErrorCode::ReplayPdaMismatch));
    assert_eq!(snapshot(&ledger, &accounts), before);

    accounts.replay_marker = [0u8; 32];
    let result = handler(&mut ledger, &accounts, &sent.encode().unwrap(), NOW, Issuance::Done);
    assert_eq!(result, rejected(Stage::Decoded, ErrorCode::ReplayPdaMismatch));
}

#[test]
fn mismatch_comes_before_the_replay_check() {
    let mut ledger = ledger_with_gateway();
    let sent = message(1, 1);
    let accounts = accounts_for(&sent);
    assert!(handler(&mut ledger, &accounts, &sent.encode().unwrap(), NOW, Issuance::Done).is_ok());
    // the slot of another message is offered, and it is populated
    let other = message(1, 2);
    let mut other_accounts = accounts_for(&other);
    other_accounts.replay_marker = accounts.replay_marker;
    let result = handler(&mut ledger, &other_accounts, &other.encode().unwrap(), NOW, Issuance::Done);
    assert_eq!(result, rejected(Stage::Decoded, ErrorCode::ReplayPdaMismatch));
}

#[test]
fn truncated_text_is_an_invalid_payload() {
    let mut ledger = ledger_with_gateway();
    let sent = message(1, 1);
    let accounts = accounts_for(&sent);
    let mut bytes = sent.encode().unwrap();
    bytes.drain(80..83);
    let before = snapshot(&ledger, &accounts);
    let result = handler(&mut ledger, &accounts, &bytes, NOW, Issuance::Done);
    assert_eq!(result, rejected(Stage::Authenticated, ErrorCode::InvalidPayload));
    assert_eq!(snapshot(&ledger, &accounts), before);
    assert!(ledger.data(&accounts.replay_marker).is_empty());
    assert!(ledger.data(&accounts.nft_origin).is_empty());
    assert!(ledger.issued().is_empty());
    assert!(ledger.events().is_empty());
}

#[test]
fn invalid_payload_does_not_depend_on_the_other_slots() {
    let mut ledger = ledger_with_gateway();
    let sent = message(1, 1);
    let mut accounts = accounts_for(&sent);
    accounts.replay_marker = [0u8; 32];
    accounts.nft_origin = [0u8; 32];
    accounts.mint = [0u8; 32];
    let bytes = sent.encode().unwrap();
    for kept in [0usize, 1, 50, 77, 78, 100, 117] {
        let result = handler(&mut ledger, &accounts, &bytes[..kept], NOW, Issuance::Done);
        assert_eq!(result, rejected(Stage::Authenticated, ErrorCode::InvalidPayload));
    }
    assert!(ledger.events().is_empty());
}

#[test]
fn wrong_gateway_slot_is_unauthorized() {
    let mut ledger = ledger_with_gateway();
    let sent = message(1, 1);
    let mut accounts = accounts_for(&sent);
    accounts.gateway_config = [5u8; 32];
    assert!(ledger.allocate([5u8; 32], GatewayConfig { gateway: [9u8; 32] }.to_account_data()));
    let before = snapshot(&ledger, &accounts);
    let result = handler(&mut ledger, &accounts, &sent.encode().unwrap(), NOW, Issuance::Done);
    assert_eq!(result, rejected(Stage::Start, ErrorCode::UnauthorizedGateway));
    assert_eq!(snapshot(&ledger, &accounts), before);
}

#[test]
fn gateway_is_checked_before_the_payload() {
    let mut ledger = ledger_with_gateway();
    let sent = message(1, 1);
    let mut accounts = accounts_for(&sent);
    accounts.gateway_config = [5u8; 32];
    let result = handler(&mut ledger, &accounts, &[1, 2, 3], NOW, Issuance::Done);
    assert_eq!(result, rejected(Stage::Start, ErrorCode::UnauthorizedGateway));
}

#[test]
fn missing_or_undecodable_configuration_is_unauthorized() {
    let sent = message(1, 1);
    let accounts = accounts_for(&sent);
    let mut empty = Ledger::new();
    let result = handler(&mut empty, &accounts, &sent.encode().unwrap(), NOW, Issuance::Done);
    assert_eq!(result, rejected(Stage::Start, ErrorCode::UnauthorizedGateway));

    let mut short = Ledger::new();
    assert!(short.allocate(accounts.gateway_config, vec![0u8; 39]));
    let result = handler(&mut short, &accounts, &sent.encode().unwrap(), NOW, Issuance::Done);
    assert_eq!(result, rejected(Stage::Start, ErrorCode::UnauthorizedGateway));
    assert!(short.data(&accounts.replay_marker).is_empty());
}

#[test]
fn failed_issuance_leaves_no_marker() {
    let mut ledger = ledger_with_gateway();
    let sent = message(1, 1);
    let accounts = accounts_for(&sent);
    let bytes = sent.encode().unwrap();
    let before = snapshot(&ledger, &accounts);
    let result = handler(&mut ledger, &accounts, &bytes, NOW, Issuance::Failed(17));
    assert_eq!(
        result,
        Err(Aborted { stage: Stage::ReplayClaimed, cause: Cause::Collaborator(17) })
    );
    assert_eq!(snapshot(&ledger, &accounts), before);
    assert!(ledger.data(&accounts.replay_marker).is_empty());
    assert!(ledger.events().is_empty());

    // the same message can still be delivered
    let retried = handler(&mut ledger, &accounts, &bytes, NOW + 1, Issuance::Done);
    assert!(retried.is_ok());
    assert_eq!(ledger.issued().len(), 1);
}

#[test]
fn same_token_with_another_nonce_keeps_its_origin() {
    let mut ledger = ledger_with_gateway();
    let first = message(1, 1);
    let accounts = accounts_for(&first);
    assert!(handler(&mut ledger, &accounts, &first.encode().unwrap(), NOW, Issuance::Done).is_ok());
    let recorded = ledger.data(&accounts.nft_origin);

    let mut second = message(1, 2);
    second.metadata_uri = "ipfs://b".to_string();
    let second_accounts = accounts_for(&second);
    assert_eq!(second_accounts.nft_origin, accounts.nft_origin);
    assert_ne!(second_accounts.replay_marker, accounts.replay_marker);
    let receipt =
        handler(&mut ledger, &second_accounts, &second.encode().unwrap(), NOW + 60, Issuance::Done)
            .unwrap();
    assert_eq!(receipt.origin, None);
    assert_eq!(receipt.marker.key, second_accounts.replay_marker);
    assert_eq!(receipt.marker.payer, PAYER);
    assert_eq!(receipt.event.nonce, 2);
    assert_eq!(receipt.event.timestamp, NOW + 60);
    assert_eq!(ledger.data(&accounts.nft_origin), recorded);
    assert_eq!(ledger.issued().len(), 2);
    assert_eq!(ledger.events().len(), 2);
    assert!(!ledger.data(&second_accounts.replay_marker).is_empty());
}

#[test]
fn wrong_origin_slot_aborts_after_the_mint() {
    let mut ledger = ledger_with_gateway();
    let sent = message(1, 1);
    let mut accounts = accounts_for(&sent);
    accounts.nft_origin = derive_nft_origin_pda(&[2u8; 32]).unwrap().0;
    let before = snapshot(&ledger, &accounts);
    let result = handler(&mut ledger, &accounts, &sent.encode().unwrap(), NOW, Issuance::Done);
    assert_eq!(result, rejected(Stage::Minted, ErrorCode::OriginMismatch));
    assert_eq!(snapshot(&ledger, &accounts), before);
    assert!(ledger.data(&accounts.replay_marker).is_empty());
}

#[test]
fn origin_slot_that_holds_something_else_aborts() {
    let mut ledger = ledger_with_gateway();
    let sent = message(1, 1);
    let accounts = accounts_for(&sent);
    assert!(ledger.allocate(accounts.nft_origin, vec![1, 2, 3]));
    let result = handler(&mut ledger, &accounts, &sent.encode().unwrap(), NOW, Issuance::Done);
    assert_eq!(result, rejected(Stage::Minted, ErrorCode::OriginMismatch));
    assert!(ledger.data(&accounts.replay_marker).is_empty());
    assert_eq!(ledger.data(&accounts.nft_origin), vec![1, 2, 3]);
    assert!(ledger.issued().is_empty());
    assert!(ledger.events().is_empty());
}

#[test]
fn origin_slot_with_the_record_of_another_token_aborts() {
    let mut ledger = ledger_with_gateway();
    let sent = message(1, 1);
    let accounts = accounts_for(&sent);
    let foreign = NftOrigin {
        origin_chain: 7,
        origin_token_id: [2u8; 32],
        origin_mint: [2u8; 32],
        metadata_uri: String::new(),
        created_at: 0,
        bump: 255,
    };
    assert!(ledger.allocate(accounts.nft_origin, foreign.to_account_data().unwrap()));
    let result = handler(&mut ledger, &accounts, &sent.encode().unwrap(), NOW, Issuance::Done);
    assert_eq!(result, rejected(Stage::Minted, ErrorCode::OriginMismatch));
}

#[test]
fn issuance_failure_comes_before_the_origin_check() {
    let mut ledger = ledger_with_gateway();
    let sent = message(1, 1);
    let mut accounts = accounts_for(&sent);
    accounts.nft_origin = [0u8; 32];
    let result = handler(&mut ledger, &accounts, &sent.encode().unwrap(), NOW, Issuance::Failed(2));
    assert_eq!(
        result,
        Err(Aborted { stage: Stage::ReplayClaimed, cause: Cause::Collaborator(2) })
    );
}

#[test]
fn event_is_published_only_on_success() {
    let mut ledger = ledger_with_gateway();
    let sent = message(4, 9);
    let accounts = accounts_for(&sent);
    let bytes = sent.encode().unwrap();
    let mut wrong = accounts;
    wrong.replay_marker = [0u8; 32];
    assert!(handler(&mut ledger, &wrong, &bytes, NOW, Issuance::Done).is_err());
    assert!(handler(&mut ledger, &accounts, &bytes[..20], NOW, Issuance::Done).is_err());
    assert!(handler(&mut ledger, &accounts, &bytes, NOW, Issuance::Failed(1)).is_err());
    assert!(ledger.events().is_empty());
    let receipt = handler(&mut ledger, &accounts, &bytes, NOW, Issuance::Done).unwrap();
    assert_eq!(ledger.events(), &vec![receipt.event]);
    assert!(handler(&mut ledger, &accounts, &bytes, NOW, Issuance::Done).is_err());
    assert_eq!(ledger.events().len(), 1);
}

#[test]
fn authenticate_checks_address_then_record() {
    let address = [1u8; 32];
    let data = GatewayConfig { gateway: [9u8; 32] }.to_account_data();
    assert_eq!(
        authenticate(&address, Some((address, 255)), &data),
        Ok(GatewayConfig { gateway: [9u8; 32] })
    );
    assert_eq!(
        authenticate(&address, Some(([2u8; 32], 255)), &data),
        Err(ErrorCode::UnauthorizedGateway)
    );
    assert_eq!(authenticate(&address, None, &data), Err(ErrorCode::UnauthorizedGateway));
    assert_eq!(
        authenticate(&address, Some((address, 255)), &data[..39]),
        Err(ErrorCode::UnauthorizedGateway)
    );
    assert_eq!(
        authenticate(&address, Some((address, 255)), &[]),
        Err(ErrorCode::UnauthorizedGateway)
    );
}

#[test]
fn guard_replay_checks_address_then_emptiness() {
    let address = [1u8; 32];
    let sent = message(1, 5);
    assert_eq!(
        guard_replay(&address, Some((address, 250)), &[], &sent, NOW),
        Ok(ReplayMarker { token_id: [1u8; 32], nonce: 5, created_at: NOW, bump: 250 })
    );
    assert_eq!(
        guard_replay(&address, Some((address, 250)), &[0], &sent, NOW),
        Err(ErrorCode::ReplayAttack)
    );
    assert_eq!(
        guard_replay(&address, Some(([2u8; 32], 250)), &[0], &sent, NOW),
        Err(ErrorCode::ReplayPdaMismatch)
    );
    assert_eq!(
        guard_replay(&address, Some(([2u8; 32], 250)), &[], &sent, NOW),
        Err(ErrorCode::ReplayPdaMismatch)
    );
    assert_eq!(guard_replay(&address, None, &[], &sent, NOW), Err(ErrorCode::ReplayPdaMismatch));
}

#[test]
fn register_origin_writes_once() {
    let address = [1u8; 32];
    let sent = message(1, 5);
    let record = NftOrigin {
        origin_chain: 7,
        origin_token_id: [1u8; 32],
        origin_mint: [2u8; 32],
        metadata_uri: "ipfs://a".to_string(),
        created_at: NOW,
        bump: 251,
    };
    let data = record.to_account_data().unwrap();
    assert_eq!(
        register_origin(&address, Some((address, 251)), &[], &sent, NOW),
        Ok(Some(data.clone()))
    );
    assert_eq!(register_origin(&address, Some((address, 251)), &data, &sent, NOW + 1), Ok(None));
    assert_eq!(
        register_origin(&address, Some((address, 251)), &data, &message(2, 5), NOW),
        Err(ErrorCode::OriginMismatch)
    );
    assert_eq!(
        register_origin(&address, Some((address, 251)), &data[..20], &sent, NOW),
        Err(ErrorCode::OriginMismatch)
    );
    assert_eq!(
        register_origin(&address, Some(([2u8; 32], 251)), &[], &sent, NOW),
        Err(ErrorCode::OriginMismatch)
    );
    assert_eq!(register_origin(&address, None, &[], &sent, NOW), Err(ErrorCode::OriginMismatch));
}

#[test]
fn mint_request_is_one_unit_to_the_recipient_account() {
    let accounts = accounts_for(&message(1, 1));
    assert_eq!(
        mint_request(&accounts),
        MintTo { mint: MINT, to: TOKEN_ACCOUNT, authority: PAYER, amount: 1 }
    );
}

#[test]
fn mint_event_takes_its_fields_from_the_message() {
    let mut sent = message(6, 77);
    sent.recipient = [8u8; 32];
    sent.origin_chain_id = 1001;
    assert_eq!(
        mint_event(&sent, -5),
        CrossChainMintEvent {
            token_id: [6u8; 32],
            origin_chain: 1001,
            recipient: [8u8; 32],
            nonce: 77,
            timestamp: -5,
        }
    );
}

#[test]
fn error_messages() {
    assert_eq!(ErrorCode::UnauthorizedGateway.message(), "Unauthorized gateway");
    assert_eq!(ErrorCode::InvalidPayload.message(), "Invalid payload");
    assert_eq!(ErrorCode::ReplayAttack.message(), "Replay attack detected");
    assert_eq!(ErrorCode::ReplayPdaMismatch.message(), "Replay PDA mismatch");
    assert_eq!(ErrorCode::OriginMismatch.message(), "Origin record mismatch");
}

#[test]
fn claim_writes_the_marker_and_blocks_a_second_claim() {
    let mut ledger = ledger_with_gateway();
    let sent = message(1, 1);
    let accounts = accounts_for(&sent);
    let bytes = sent.encode().unwrap();
    let first = claim(&mut ledger, &accounts, &bytes, NOW).unwrap();
    let bump = derive_replay_marker_pda(&sent.token_id, 1).unwrap().1;
    assert_eq!(
        first.marker_allocation(),
        CreateAccount { payer: PAYER, key: accounts.replay_marker, space: 57, owner: ID, bump }
    );
    assert_eq!(first.message(), &sent);
    assert_eq!(
        first.mint_request(),
        MintTo { mint: MINT, to: TOKEN_ACCOUNT, authority: PAYER, amount: 1 }
    );
    let marker = ReplayMarker { token_id: [1u8; 32], nonce: 1, created_at: NOW, bump };
    assert_eq!(ledger.data(&accounts.replay_marker), marker.to_account_data());
    assert!(ledger.data(&accounts.nft_origin).is_empty());
    assert!(ledger.issued().is_empty());
    assert!(ledger.events().is_empty());

    let second = claim(&mut ledger, &accounts, &bytes, NOW + 1);
    assert_eq!(
        second.err(),
        Some(Aborted { stage: Stage::Decoded, cause: Cause::Rejected(ErrorCode::ReplayAttack) })
    );
    assert_eq!(ledger.data(&accounts.replay_marker), marker.to_account_data());
}

#[test]
fn settle_after_a_failed_issuance_gives_the_slot_up() {
    let mut ledger = ledger_with_gateway();
    let sent = message(1, 1);
    let accounts = accounts_for(&sent);
    let bytes = sent.encode().unwrap();
    let before = snapshot(&ledger, &accounts);
    let pending = claim(&mut ledger, &accounts, &bytes, NOW).unwrap();
    let result = settle(&mut ledger, pending, Issuance::Failed(40));
    assert_eq!(
        result,
        Err(Aborted { stage: Stage::ReplayClaimed, cause: Cause::Collaborator(40) })
    );
    assert_eq!(snapshot(&ledger, &accounts), before);
    assert!(claim(&mut ledger, &accounts, &bytes, NOW).is_ok());
}

#[test]
fn claim_then_settle_is_the_handler() {
    let sent = message(5, 3);
    let accounts = accounts_for(&sent);
    let bytes = sent.encode().unwrap();

    let mut whole = ledger_with_gateway();
    let expected = handler(&mut whole, &accounts, &bytes, NOW, Issuance::Done);

    let mut parts = ledger_with_gateway();
    let pending = claim(&mut parts, &accounts, &bytes, NOW).unwrap();
    let result = settle(&mut parts, pending, Issuance::Done);

    assert!(result.is_ok());
    assert_eq!(result, expected);
    assert_eq!(snapshot(&parts, &accounts), snapshot(&whole, &accounts));
    assert_eq!(parts.issued(), whole.issued());
    assert_eq!(parts.events(), whole.events());
}

#[test]
fn claim_aborts_as_the_handler_does() {
    let sent = message(5, 3);
    let mut accounts = accounts_for(&sent);
    let bytes = sent.encode().unwrap();
    let mut ledger = ledger_with_gateway();
    assert_eq!(
        claim(&mut ledger, &accounts, &bytes[..30], NOW).err(),
        Some(Aborted {
            stage: Stage::Authenticated,
            cause: Cause::Rejected(ErrorCode::InvalidPayload)
        })
    );
    accounts.replay_marker = [0u8; 32];
    assert_eq!(
        claim(&mut ledger, &accounts, &bytes, NOW).err(),
        Some(Aborted {
            stage: Stage::Decoded,
            cause: Cause::Rejected(ErrorCode::ReplayPdaMismatch)
        })
    );
    accounts.gateway_config = [0u8; 32];
    assert_eq!(
        claim(&mut ledger, &accounts, &bytes, NOW).err(),
        Some(Aborted {
            stage: Stage::Start,
            cause: Cause::Rejected(ErrorCode::UnauthorizedGateway)
        })
    );
    assert!(ledger.data(&[0u8; 32]).is_empty());
}
