use nft_market::actions::NotifyOutcome;
use nft_market::errors::Error;
use nft_market::events::EventLogVariant;
use nft_market::nft::Contract;
use nft_market::nft::approval::NonFungibleTokenApproval;
use nft_market::nft::metadata::TokenMetadata;
use nft_market::nft::nft_core::NonFungibleTokenCore;
use nft_market::nft::royalty::NonFungibleTokenCore as PayoutInterface;
use nft_market::smap::StrMap;

fn get_sample_metadata() -> TokenMetadata {
    TokenMetadata {
        title: Some("TOKEN_TEST".to_owned()),
        description: Some("Description".to_owned()),
        media: None,
        media_hash: None,
        copies: None,
        issued_at: None,
        expires_at: None,
        starts_at: None,
        updated_at: None,
        extra: None,
        reference: None,
        reference_hash: None,
    }
}

const BYTE_COST: u128 = 10_000_000_000_000_000_000;

#[test]
fn test_mint_token() {
    let mut contract = Contract::new_default_metadata("alice".to_string());

    let token_id = "VBI_NFT".to_string();
    contract
        .nft_mint(token_id.clone(), get_sample_metadata(), "alice".to_string(), None)
        .unwrap();

    let token = contract.nft_token(token_id.clone()).unwrap();

    assert_eq!("alice".to_string(), token.owner_id);
    assert_eq!(token_id.clone(), token.token_id);
    assert_eq!(token.metadata, get_sample_metadata());
}

#[test]
fn test_transfer_nft() {
    let mut contract = Contract::new_default_metadata("alice".to_string());

    let token_id = "vbi_nft".to_owned();
    contract
        .nft_mint(token_id.clone(), get_sample_metadata(), "alice".to_string(), None)
        .unwrap();

    let token = contract.nft_token(token_id.clone()).unwrap();
    assert_eq!(token.owner_id, "alice".to_string());
    assert_eq!(token.token_id, token_id);
    assert_eq!(get_sample_metadata(), token.metadata);

    contract
        .nft_transfer("bob".to_string(), token_id.clone(), 0, None, "alice".to_string(), 1)
        .unwrap();

    let new_token = contract.nft_token(token_id.clone()).unwrap();
    assert_eq!(new_token.owner_id, "bob".to_string());
    assert_eq!(new_token.token_id, token_id);
    assert_eq!(get_sample_metadata(), new_token.metadata);
}

#[test]
fn transfer_of_missing_token_is_rejected() {
    let mut contract = Contract::new_default_metadata("alice".to_string());
    let r = contract.nft_transfer(
        "bob".to_string(),
        "nope".to_string(),
        0,
        None,
        "alice".to_string(),
        1,
    );
    assert_eq!(r.unwrap_err(), Error::TokenNotFound);
}

#[test]
fn transfer_to_current_owner_is_rejected() {
    let mut contract = Contract::new_default_metadata("alice".to_string());
    contract
        .nft_mint("t".to_string(), get_sample_metadata(), "alice".to_string(), None)
        .unwrap();
    let r = contract.nft_transfer(
        "alice".to_string(),
        "t".to_string(),
        0,
        None,
        "alice".to_string(),
        1,
    );
    assert_eq!(r.unwrap_err(), Error::SelfTransfer);
}

#[test]
fn transfer_by_stranger_is_rejected() {
    let mut contract = Contract::new_default_metadata("alice".to_string());
    contract
        .nft_mint("t".to_string(), get_sample_metadata(), "alice".to_string(), None)
        .unwrap();
    let r = contract.nft_transfer(
        "carol".to_string(),
        "t".to_string(),
        0,
        None,
        "bob".to_string(),
        1,
    );
    assert_eq!(r.unwrap_err(), Error::NotOwner);
}

#[test]
fn stale_approval_is_rejected() {
    let mut contract = Contract::new_default_metadata("alice".to_string());
    contract
        .nft_mint("t".to_string(), get_sample_metadata(), "alice".to_string(), None)
        .unwrap();
    // Approval 0 for bob, then a fresh approval 1 replaces it.
    contract
        .nft_approve("t".to_string(), "bob".to_string(), None, "alice".to_string(), BYTE_COST * 100, BYTE_COST)
        .unwrap();
    contract
        .nft_approve("t".to_string(), "bob".to_string(), None, "alice".to_string(), BYTE_COST * 100, BYTE_COST)
        .unwrap();
    let r = contract.nft_transfer(
        "carol".to_string(),
        "t".to_string(),
        0,
        None,
        "bob".to_string(),
        1,
    );
    assert_eq!(r.unwrap_err(), Error::StaleApproval);
    // The current approval works.
    contract
        .nft_transfer("carol".to_string(), "t".to_string(), 1, None, "bob".to_string(), 1)
        .unwrap();
    assert_eq!(contract.nft_token("t".to_string()).unwrap().owner_id, "carol".to_string());
}

#[test]
fn mint_of_existing_token_is_rejected() {
    let mut contract = Contract::new_default_metadata("alice".to_string());
    contract
        .nft_mint("t".to_string(), get_sample_metadata(), "alice".to_string(), None)
        .unwrap();
    let r = contract.nft_mint("t".to_string(), get_sample_metadata(), "bob".to_string(), None);
    assert_eq!(r.unwrap_err(), Error::TokenAlreadyExists);
}

#[test]
fn mint_with_seven_royalties_is_rejected() {
    let mut contract = Contract::new_default_metadata("alice".to_string());
    let mut royalties: StrMap<u32> = StrMap::new();
    for i in 0..7 {
        royalties.insert(format!("r{}", i), 100);
    }
    let r = contract.nft_mint(
        "t".to_string(),
        get_sample_metadata(),
        "alice".to_string(),
        Some(royalties),
    );
    assert_eq!(r.unwrap_err(), Error::TooManyRoyalties);
}

#[test]
fn approve_with_insufficient_deposit_is_rejected() {
    let mut contract = Contract::new_default_metadata("alice".to_string());
    contract
        .nft_mint("t".to_string(), get_sample_metadata(), "alice".to_string(), None)
        .unwrap();
    let r = contract.nft_approve(
        "t".to_string(),
        "bob".to_string(),
        None,
        "alice".to_string(),
        1,
        BYTE_COST,
    );
    assert_eq!(r.unwrap_err(), Error::InsufficientDeposit);
}

#[test]
fn approve_revoke_round_trip() {
    let mut contract = Contract::new_default_metadata("alice".to_string());
    contract
        .nft_mint("t".to_string(), get_sample_metadata(), "alice".to_string(), None)
        .unwrap();
    contract
        .nft_approve("t".to_string(), "bob".to_string(), None, "alice".to_string(), BYTE_COST * 100, BYTE_COST)
        .unwrap();
    assert!(contract.nft_is_approved("t".to_string(), "bob".to_string(), Some(0)));
    assert!(!contract.nft_is_approved("t".to_string(), "bob".to_string(), Some(5)));

    let refund = contract
        .nft_revoke("t".to_string(), "bob".to_string(), "alice".to_string(), 1)
        .unwrap()
        .unwrap();
    assert_eq!(refund.receiver_id, "alice".to_string());
    // "bob" is three bytes, plus the twelve bookkeeping bytes.
    assert_eq!(refund.storage_bytes, 15);
    assert!(!contract.nft_is_approved("t".to_string(), "bob".to_string(), Some(0)));

    // Revoking again finds nothing to remove.
    let second = contract
        .nft_revoke("t".to_string(), "bob".to_string(), "alice".to_string(), 1)
        .unwrap();
    assert!(second.is_none());
}

#[test]
fn revoke_all_clears_every_approval() {
    let mut contract = Contract::new_default_metadata("alice".to_string());
    contract
        .nft_mint("t".to_string(), get_sample_metadata(), "alice".to_string(), None)
        .unwrap();
    contract
        .nft_approve("t".to_string(), "bob".to_string(), None, "alice".to_string(), BYTE_COST * 100, BYTE_COST)
        .unwrap();
    contract
        .nft_approve("t".to_string(), "carol".to_string(), None, "alice".to_string(), BYTE_COST * 100, BYTE_COST)
        .unwrap();
    let refund = contract
        .nft_revoke_all("t".to_string(), "alice".to_string(), 1)
        .unwrap()
        .unwrap();
    // "bob" and "carol": (3 + 12) + (5 + 12) bytes.
    assert_eq!(refund.storage_bytes, 32);
    assert!(!contract.nft_is_approved("t".to_string(), "bob".to_string(), Some(0)));
    assert!(!contract.nft_is_approved("t".to_string(), "carol".to_string(), Some(1)));
}

#[test]
fn notified_transfer_rollback_restores_owner_and_approvals() {
    let mut contract = Contract::new_default_metadata("alice".to_string());
    contract
        .nft_mint("t".to_string(), get_sample_metadata(), "alice".to_string(), None)
        .unwrap();
    contract
        .nft_approve("t".to_string(), "bob".to_string(), None, "alice".to_string(), BYTE_COST * 100, BYTE_COST)
        .unwrap();

    let (dispatch, ctx) = contract
        .nft_transfer_call(
            "bob".to_string(),
            "t".to_string(),
            0,
            None,
            "payload".to_string(),
            "alice".to_string(),
            1,
        )
        .unwrap();
    assert_eq!(dispatch.receiver_contract_id, "bob".to_string());
    assert_eq!(contract.nft_token("t".to_string()).unwrap().owner_id, "bob".to_string());
    let events_after_dispatch = contract.events.len();

    // The receiver asks for a rollback and still holds the token.
    let (kept, refund) = contract.nft_resolve_transfer(
        ctx.authorized_id,
        ctx.owner_id,
        ctx.receiver_id,
        ctx.token_id,
        ctx.approved_account_ids,
        ctx.memo,
        NotifyOutcome::Returned(Some(true)),
    );
    assert!(!kept);
    assert!(refund.is_some());
    assert_eq!(contract.nft_token("t".to_string()).unwrap().owner_id, "alice".to_string());
    // The pre-transfer approval is back, exactly as granted.
    assert!(contract.nft_is_approved("t".to_string(), "bob".to_string(), Some(0)));
    // A reversal event was recorded.
    assert_eq!(contract.events.len(), events_after_dispatch + 1);
    match &contract.events.last().unwrap().event {
        EventLogVariant::NftTransfer(logs) => {
            assert_eq!(logs[0].old_owner_id, "bob".to_string());
            assert_eq!(logs[0].new_owner_id, "alice".to_string());
        },
        _ => panic!("expected a transfer event"),
    }
}

#[test]
fn notified_transfer_keeps_on_false_and_on_undecodable() {
    let mut contract = Contract::new_default_metadata("alice".to_string());
    contract
        .nft_mint("t".to_string(), get_sample_metadata(), "alice".to_string(), None)
        .unwrap();
    let (_dispatch, ctx) = contract
        .nft_transfer_call(
            "bob".to_string(),
            "t".to_string(),
            0,
            None,
            "payload".to_string(),
            "alice".to_string(),
            1,
        )
        .unwrap();
    let (kept, refund) = contract.nft_resolve_transfer(
        ctx.authorized_id,
        ctx.owner_id,
        ctx.receiver_id,
        ctx.token_id,
        ctx.approved_account_ids,
        ctx.memo,
        NotifyOutcome::Returned(Some(false)),
    );
    assert!(kept);
    assert!(refund.is_none());
    assert_eq!(contract.nft_token("t".to_string()).unwrap().owner_id, "bob".to_string());

    // An undecodable response also lets the transfer stand.
    let (_d2, ctx2) = contract
        .nft_transfer_call(
            "carol".to_string(),
            "t".to_string(),
            0,
            None,
            "payload".to_string(),
            "bob".to_string(),
            1,
        )
        .unwrap();
    let (kept2, refund2) = contract.nft_resolve_transfer(
        ctx2.authorized_id,
        ctx2.owner_id,
        ctx2.receiver_id,
        ctx2.token_id,
        ctx2.approved_account_ids,
        ctx2.memo,
        NotifyOutcome::Returned(None),
    );
    assert!(kept2);
    assert!(refund2.is_none());
    assert_eq!(contract.nft_token("t".to_string()).unwrap().owner_id, "carol".to_string());
}

#[test]
fn notified_transfer_rolls_back_on_failed_call() {
    let mut contract = Contract::new_default_metadata("alice".to_string());
    contract
        .nft_mint("t".to_string(), get_sample_metadata(), "alice".to_string(), None)
        .unwrap();
    let (_dispatch, ctx) = contract
        .nft_transfer_call(
            "bob".to_string(),
            "t".to_string(),
            0,
            None,
            "payload".to_string(),
            "alice".to_string(),
            1,
        )
        .unwrap();
    let (kept, _refund) = contract.nft_resolve_transfer(
        ctx.authorized_id,
        ctx.owner_id,
        ctx.receiver_id,
        ctx.token_id,
        ctx.approved_account_ids,
        ctx.memo,
        NotifyOutcome::Failed,
    );
    assert!(!kept);
    assert_eq!(contract.nft_token("t".to_string()).unwrap().owner_id, "alice".to_string());
}

#[test]
fn rollback_is_skipped_when_the_token_moved_again() {
    let mut contract = Contract::new_default_metadata("alice".to_string());
    contract
        .nft_mint("t".to_string(), get_sample_metadata(), "alice".to_string(), None)
        .unwrap();
    let (_dispatch, ctx) = contract
        .nft_transfer_call(
            "bob".to_string(),
            "t".to_string(),
            0,
            None,
            "payload".to_string(),
            "alice".to_string(),
            1,
        )
        .unwrap();
    // Between dispatch and continuation, the token moves on to carol.
    contract
        .nft_transfer("carol".to_string(), "t".to_string(), 0, None, "bob".to_string(), 1)
        .unwrap();

    let (kept, refund) = contract.nft_resolve_transfer(
        ctx.authorized_id,
        ctx.owner_id,
        ctx.receiver_id,
        ctx.token_id,
        ctx.approved_account_ids,
        ctx.memo,
        NotifyOutcome::Returned(Some(true)),
    );
    // Rollback is skipped, the saga reports the transfer as kept, and no
    // approval of the stale receiver remains attached to the token.
    assert!(kept);
    assert!(refund.is_some());
    let token = contract.nft_token("t".to_string()).unwrap();
    assert_eq!(token.owner_id, "carol".to_string());
    assert!(token.approved_account_ids.is_empty());
}

#[test]
fn enumeration_counts_and_pages() {
    let mut contract = Contract::new_default_metadata("alice".to_string());
    contract
        .nft_mint("t1".to_string(), get_sample_metadata(), "alice".to_string(), None)
        .unwrap();
    contract
        .nft_mint("t2".to_string(), get_sample_metadata(), "alice".to_string(), None)
        .unwrap();
    contract
        .nft_mint("t3".to_string(), get_sample_metadata(), "bob".to_string(), None)
        .unwrap();

    assert_eq!(contract.nft_total_supply(), 3);
    assert_eq!(contract.nft_supply_for_owner("alice".to_string()), 2);
    assert_eq!(contract.nft_supply_for_owner("carol".to_string()), 0);

    let page = contract.nft_tokens(Some(1), Some(2));
    assert_eq!(page.len(), 2);
    assert_eq!(page[0].token_id, "t2".to_string());
    assert_eq!(page[1].token_id, "t3".to_string());

    let alices = contract.nft_tokens_for_owner("alice".to_string(), None, Some(10));
    assert_eq!(alices.len(), 2);
    assert_eq!(alices[0].token_id, "t1".to_string());
    assert_eq!(alices[1].token_id, "t2".to_string());

    // A missing limit means an empty page, as the table reads it.
    assert_eq!(contract.nft_tokens(None, None).len(), 0);
}

#[test]
fn transfer_event_records_acting_account_and_memo() {
    let mut contract = Contract::new_default_metadata("alice".to_string());
    contract
        .nft_mint("t".to_string(), get_sample_metadata(), "alice".to_string(), None)
        .unwrap();
    contract
        .nft_transfer(
            "bob".to_string(),
            "t".to_string(),
            0,
            Some("gift".to_string()),
            "alice".to_string(),
            1,
        )
        .unwrap();
    match &contract.events.last().unwrap().event {
        EventLogVariant::NftTransfer(logs) => {
            assert_eq!(logs[0].old_owner_id, "alice".to_string());
            assert_eq!(logs[0].new_owner_id, "bob".to_string());
            assert_eq!(logs[0].authorized_id, Some("alice".to_string()));
            assert_eq!(logs[0].memo, Some("gift".to_string()));
        },
        _ => panic!("expected a transfer event"),
    }
}

#[test]
fn payout_cap_is_enforced_for_every_balance() {
    let mut contract = Contract::new_default_metadata("alice".to_string());
    let mut royalties: StrMap<u32> = StrMap::new();
    royalties.insert("a".to_string(), 100);
    royalties.insert("b".to_string(), 100);
    royalties.insert("c".to_string(), 100);
    contract
        .nft_mint("t".to_string(), get_sample_metadata(), "alice".to_string(), Some(royalties))
        .unwrap();
    // The cap failure needs no bound on the balance.
    let r = contract.nft_payout("t".to_string(), u128::MAX, 2);
    assert_eq!(r.unwrap_err(), Error::TooManyPayees);
}
