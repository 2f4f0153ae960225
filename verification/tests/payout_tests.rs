use nft_market::errors::Error;
use nft_market::nft::Contract;
use nft_market::nft::metadata::TokenMetadata;
use nft_market::nft::royalty::NonFungibleTokenCore;
use nft_market::nft::utils::{
    bytes_for_approved_account_id, refund_approved_account_ids, refund_deposit, royalty_to_payout,
};
use nft_market::smap::StrMap;

fn bare_metadata() -> TokenMetadata {
    TokenMetadata {
        title: None,
        description: None,
        media: None,
        media_hash: None,
        copies: None,
        issued_at: None,
        expires_at: None,
        starts_at: None,
        updated_at: None,
        extra: None,
        reference: None,
        reference_hash: None,
    }
}

fn contract_with_royalties(entries: &[(&str, u32)], owner: &str) -> Contract {
    let mut contract = Contract::new_default_metadata(owner.to_string());
    let mut royalties: StrMap<u32> = StrMap::new();
    for (account, bps) in entries {
        royalties.insert(account.to_string(), *bps);
    }
    contract
        .nft_mint("t".to_string(), bare_metadata(), owner.to_string(), Some(royalties))
        .unwrap();
    contract
}

#[test]
fn royalty_share_is_floored() {
    assert_eq!(royalty_to_payout(500, 1000), 50);
    assert_eq!(royalty_to_payout(300, 1000), 30);
    assert_eq!(royalty_to_payout(9200, 1000), 920);
    assert_eq!(royalty_to_payout(1000, 9), 0);
    assert_eq!(royalty_to_payout(8000, 9), 7);
}

#[test]
fn payout_splits_the_balance_with_the_owner_taking_the_rest() {
    let contract = contract_with_royalties(&[("a", 500), ("b", 300)], "o");
    let payout = contract.nft_payout("t".to_string(), 1000, 10).unwrap().payout;
    assert_eq!(payout.len(), 3);
    assert_eq!(*payout.get(&"a".to_string()).unwrap(), 50);
    assert_eq!(*payout.get(&"b".to_string()).unwrap(), 30);
    assert_eq!(*payout.get(&"o".to_string()).unwrap(), 920);
}

#[test]
fn payout_total_never_exceeds_the_balance() {
    // Flooring can lose up to one unit per non-owner entry: with two such
    // entries on a balance of nine, the total falls two short.
    let contract = contract_with_royalties(&[("a", 1000), ("b", 1000)], "o");
    let payout = contract.nft_payout("t".to_string(), 9, 10).unwrap().payout;
    assert_eq!(*payout.get(&"a".to_string()).unwrap(), 0);
    assert_eq!(*payout.get(&"b".to_string()).unwrap(), 0);
    assert_eq!(*payout.get(&"o".to_string()).unwrap(), 7);
}

#[test]
fn payout_with_too_many_payees_is_rejected() {
    let contract = contract_with_royalties(&[("a", 100), ("b", 100), ("c", 100)], "o");
    let r = contract.nft_payout("t".to_string(), 1000, 2);
    assert_eq!(r.unwrap_err(), Error::TooManyPayees);
    let r2 = contract.nft_payout("missing".to_string(), 1000, 10);
    assert_eq!(r2.unwrap_err(), Error::TokenNotFound);
}

#[test]
fn royalty_entry_naming_the_owner_is_skipped() {
    let contract = contract_with_royalties(&[("a", 500), ("o", 300)], "o");
    let payout = contract.nft_payout("t".to_string(), 1000, 10).unwrap().payout;
    assert_eq!(payout.len(), 2);
    assert_eq!(*payout.get(&"a".to_string()).unwrap(), 50);
    // The owner gets the full remainder, the skipped entry included.
    assert_eq!(*payout.get(&"o".to_string()).unwrap(), 950);
}

#[test]
fn transfer_payout_moves_the_token_and_reports_the_split() {
    let mut contract = contract_with_royalties(&[("a", 500), ("b", 300)], "o");
    let (payout, refund) = contract
        .nft_transfer_payout(
            "buyer".to_string(),
            "t".to_string(),
            0,
            "settlement".to_string(),
            1000,
            10,
            "o".to_string(),
            1,
        )
        .unwrap();
    assert_eq!(contract.nft_token("t".to_string()).unwrap().owner_id, "buyer".to_string());
    assert_eq!(*payout.payout.get(&"o".to_string()).unwrap(), 920);
    assert_eq!(refund.receiver_id, "o".to_string());
    assert_eq!(refund.storage_bytes, 0);
}

#[test]
fn transfer_payout_checks_authority_before_the_cap() {
    let mut contract = contract_with_royalties(&[("a", 100), ("b", 100), ("c", 100)], "o");
    let r = contract.nft_transfer_payout(
        "buyer".to_string(),
        "t".to_string(),
        0,
        "settlement".to_string(),
        1000,
        2,
        "mallory".to_string(),
        1,
    );
    assert_eq!(r.unwrap_err(), Error::NotOwner);

    let r2 = contract.nft_transfer_payout(
        "buyer".to_string(),
        "t".to_string(),
        0,
        "settlement".to_string(),
        1000,
        2,
        "o".to_string(),
        1,
    );
    assert_eq!(r2.unwrap_err(), Error::TooManyPayees);
    // Nothing moved.
    assert_eq!(contract.nft_token("t".to_string()).unwrap().owner_id, "o".to_string());
}

#[test]
fn storage_byte_accounting_matches_the_account_ids() {
    assert_eq!(bytes_for_approved_account_id(&"alice".to_string()), 17);

    let mut approvals: StrMap<u64> = StrMap::new();
    approvals.insert("bob".to_string(), 0);
    approvals.insert("carol".to_string(), 1);
    let refund = refund_approved_account_ids("alice".to_string(), &approvals);
    assert_eq!(refund.receiver_id, "alice".to_string());
    assert_eq!(refund.storage_bytes, 32);
}

#[test]
fn deposit_refund_keeps_small_change() {
    // Ten bytes at cost three: thirty consumed of one hundred attached.
    let action = refund_deposit(10, 100, 3, "alice".to_string()).unwrap().unwrap();
    assert_eq!(action.receiver_id, "alice".to_string());
    assert_eq!(action.amount, 70);

    // A refund of one unit or less is kept.
    assert!(refund_deposit(10, 31, 3, "alice".to_string()).unwrap().is_none());

    let r = refund_deposit(10, 29, 3, "alice".to_string());
    assert_eq!(r.unwrap_err(), Error::InsufficientDeposit);
}

#[test]
fn empty_royalty_table_pays_the_owner_everything() {
    let contract = contract_with_royalties(&[], "o");
    let payout = contract.nft_payout("t".to_string(), 1000, 10).unwrap().payout;
    assert_eq!(payout.len(), 1);
    assert_eq!(*payout.get(&"o".to_string()).unwrap(), 1000);
}
