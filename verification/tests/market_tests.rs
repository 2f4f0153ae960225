use nft_market::errors::Error;
use nft_market::market::Contract;
use nft_market::market::STORAGE_PER_SALE;
use nft_market::market::SalePrice;
use nft_market::market::ft_callback::{FTSaleArgs, FungibleTokenReceiver};
use nft_market::market::nft_callback::{NonFungibleTokenApprovalReceiver, SaleArgs};
use nft_market::market::sale::Payout;
use nft_market::smap::StrMap;

fn native_price(amount: u128) -> SalePrice {
    SalePrice {
        is_native: true,
        contract_id: "market".to_string(),
        decimals: 0,
        amount,
    }
}

fn token_price(contract_id: &str, amount: u128) -> SalePrice {
    SalePrice {
        is_native: false,
        contract_id: contract_id.to_string(),
        decimals: 18,
        amount,
    }
}

fn market_with_listing(price: SalePrice) -> Contract {
    let mut market = Contract::new("owner".to_string());
    market.storage_deposit(None, "seller".to_string(), STORAGE_PER_SALE);
    market
        .nft_on_approve(
            "token".to_string(),
            "seller".to_string(),
            7,
            SaleArgs { sale_conditions: price },
            "nft".to_string(),
            "seller".to_string(),
        )
        .unwrap();
    market
}

#[test]
fn listing_requires_storage_reservation() {
    let mut market = Contract::new("owner".to_string());
    let r = market.nft_on_approve(
        "token".to_string(),
        "seller".to_string(),
        7,
        SaleArgs { sale_conditions: native_price(1000) },
        "nft".to_string(),
        "seller".to_string(),
    );
    assert_eq!(r.unwrap_err(), Error::InsufficientStorageDeposit);
    assert_eq!(market.get_supply_sales(), 0);
}

#[test]
fn listing_appears_in_every_view() {
    let market = market_with_listing(native_price(1000));
    assert_eq!(market.get_supply_sales(), 1);
    assert_eq!(market.get_supply_by_owner_id("seller".to_string()), 1);
    assert_eq!(market.get_suppy_by_contract_id("nft".to_string()), 1);
    let sales = market.get_sales(None, Some(10));
    assert_eq!(sales.len(), 1);
    assert_eq!(sales[0].owner_id, "seller".to_string());
    assert_eq!(sales[0].approval_id, 7);
    let by_owner = market.get_sales_by_owner_id("seller".to_string(), None, Some(10));
    assert_eq!(by_owner.len(), 1);
    assert_eq!(by_owner[0].token_id, "token".to_string());
    let by_contract = market.get_sales_by_contract_id("nft".to_string(), None, Some(10));
    assert_eq!(by_contract.len(), 1);
    assert_eq!(by_contract[0].sale_conditions.amount, 1000);
}

#[test]
fn update_price_changes_only_the_price() {
    let mut market = market_with_listing(native_price(1000));
    market
        .update_price(
            "nft".to_string(),
            "token".to_string(),
            native_price(2500),
            "seller".to_string(),
            1,
        )
        .unwrap();
    let sales = market.get_sales(None, Some(10));
    assert_eq!(sales[0].sale_conditions.amount, 2500);
    assert_eq!(sales[0].approval_id, 7);

    let r = market.update_price(
        "nft".to_string(),
        "token".to_string(),
        native_price(1),
        "mallory".to_string(),
        1,
    );
    assert_eq!(r.unwrap_err(), Error::NotOwner);

    let r2 = market.update_price(
        "nft".to_string(),
        "missing".to_string(),
        native_price(1),
        "seller".to_string(),
        1,
    );
    assert_eq!(r2.unwrap_err(), Error::SaleNotFound);
}

#[test]
fn remove_sale_twice_fails_the_second_time() {
    let mut market = market_with_listing(native_price(1000));
    let r = market.remove_sale(
        "nft".to_string(),
        "token".to_string(),
        "mallory".to_string(),
        1,
    );
    assert_eq!(r.unwrap_err(), Error::NotOwner);

    market
        .remove_sale("nft".to_string(), "token".to_string(), "seller".to_string(), 1)
        .unwrap();
    assert_eq!(market.get_supply_sales(), 0);
    assert_eq!(market.get_supply_by_owner_id("seller".to_string()), 0);
    assert_eq!(market.get_suppy_by_contract_id("nft".to_string()), 0);

    let second = market.remove_sale(
        "nft".to_string(),
        "token".to_string(),
        "seller".to_string(),
        1,
    );
    assert_eq!(second.unwrap_err(), Error::SaleNotFound);
}

#[test]
fn offer_validates_payment_and_commits() {
    let mut market = market_with_listing(native_price(1000));

    let r = market.offer("nft".to_string(), "token".to_string(), 0, "buyer".to_string());
    assert_eq!(r.unwrap_err(), Error::InsufficientPayment);

    let r = market.offer("nft".to_string(), "token".to_string(), 999, "buyer".to_string());
    assert_eq!(r.unwrap_err(), Error::InsufficientPayment);

    let r = market.offer("nft".to_string(), "token".to_string(), 1000, "seller".to_string());
    assert_eq!(r.unwrap_err(), Error::SelfPurchase);

    let dispatch = market
        .offer("nft".to_string(), "token".to_string(), 1000, "buyer".to_string())
        .unwrap();
    assert_eq!(dispatch.nft_contract_id, "nft".to_string());
    assert_eq!(dispatch.receiver_id, "buyer".to_string());
    assert_eq!(dispatch.approval_id, 7);
    assert_eq!(dispatch.balance, 1000);
    assert_eq!(dispatch.max_len_payout, 10);

    // The commit point: the sale is gone, whatever happens later.
    assert_eq!(market.get_supply_sales(), 0);

    // The remote transfer fails; the buyer is refunded, and the sale stays
    // gone.
    let (charged, refunds) = market.resolve_purchase("buyer".to_string(), 1000, None);
    assert_eq!(charged, 1000);
    assert_eq!(refunds.len(), 1);
    assert_eq!(refunds[0].receiver_id, "buyer".to_string());
    assert_eq!(refunds[0].amount, 1000);
    assert_eq!(market.get_supply_sales(), 0);
}

#[test]
fn offer_on_token_denominated_sale_is_rejected() {
    let mut market = market_with_listing(token_price("usd", 1000));
    let r = market.offer("nft".to_string(), "token".to_string(), 1000, "buyer".to_string());
    assert_eq!(r.unwrap_err(), Error::CurrencyMismatch);
}

#[test]
fn payout_with_tolerated_remainder_is_distributed() {
    let mut market = Contract::new("owner".to_string());
    let mut table: StrMap<u128> = StrMap::new();
    table.insert("a".to_string(), 999);
    let payout = Payout { payout: table };
    let (charged, transfers) = market.resolve_purchase("buyer".to_string(), 1000, Some(payout));
    assert_eq!(charged, 0);
    assert_eq!(transfers.len(), 1);
    assert_eq!(transfers[0].receiver_id, "a".to_string());
    assert_eq!(transfers[0].amount, 999);
}

#[test]
fn payout_with_large_remainder_is_refunded() {
    let mut market = Contract::new("owner".to_string());
    let mut table: StrMap<u128> = StrMap::new();
    table.insert("a".to_string(), 990);
    let payout = Payout { payout: table };
    let (charged, transfers) = market.resolve_purchase("buyer".to_string(), 1000, Some(payout));
    assert_eq!(charged, 1000);
    assert_eq!(transfers.len(), 1);
    assert_eq!(transfers[0].receiver_id, "buyer".to_string());
    assert_eq!(transfers[0].amount, 1000);
}

#[test]
fn payout_exceeding_price_or_empty_is_refunded() {
    let mut market = Contract::new("owner".to_string());
    let mut table: StrMap<u128> = StrMap::new();
    table.insert("a".to_string(), 600);
    table.insert("b".to_string(), 600);
    let (charged, transfers) =
        market.resolve_purchase("buyer".to_string(), 1000, Some(Payout { payout: table }));
    assert_eq!(charged, 1000);
    assert_eq!(transfers[0].receiver_id, "buyer".to_string());

    let empty = Payout { payout: StrMap::new() };
    let (charged2, transfers2) = market.resolve_purchase("buyer".to_string(), 1000, Some(empty));
    assert_eq!(charged2, 1000);
    assert_eq!(transfers2.len(), 1);
}

#[test]
fn ft_purchase_validates_and_settles_in_the_sale_token() {
    let mut market = market_with_listing(token_price("usd", 1000));

    let r = market.ft_on_transfer(
        "buyer".to_string(),
        500,
        FTSaleArgs { nft_contract_id: "nft".to_string(), token_id: "token".to_string() },
        "usd".to_string(),
    );
    assert_eq!(r.unwrap_err(), Error::InsufficientPayment);

    let r = market.ft_on_transfer(
        "buyer".to_string(),
        1000,
        FTSaleArgs { nft_contract_id: "nft".to_string(), token_id: "token".to_string() },
        "eur".to_string(),
    );
    assert_eq!(r.unwrap_err(), Error::CurrencyMismatch);

    let (dispatch, bound_price) = market
        .ft_on_transfer(
            "buyer".to_string(),
            1000,
            FTSaleArgs { nft_contract_id: "nft".to_string(), token_id: "token".to_string() },
            "usd".to_string(),
        )
        .unwrap();
    assert_eq!(dispatch.balance, 1000);
    assert_eq!(bound_price.contract_id, "usd".to_string());
    assert_eq!(market.get_supply_sales(), 0);

    // Distribution goes out as transfer instructions on the sale's token.
    let mut table: StrMap<u128> = StrMap::new();
    table.insert("seller".to_string(), 950);
    table.insert("royalty_holder".to_string(), 50);
    let (charged, transfers) = market.ft_resolve_purchase(
        "buyer".to_string(),
        bound_price,
        Some(Payout { payout: table }),
    );
    assert_eq!(charged, 0);
    assert_eq!(transfers.len(), 2);
    assert_eq!(transfers[0].ft_contract_id, "usd".to_string());
    assert_eq!(transfers[0].receiver_id, "seller".to_string());
    assert_eq!(transfers[0].amount, 950);
    assert_eq!(transfers[1].receiver_id, "royalty_holder".to_string());
}

#[test]
fn ft_purchase_refund_goes_back_in_the_sale_token() {
    let mut market = market_with_listing(token_price("usd", 1000));
    let (_dispatch, bound_price) = market
        .ft_on_transfer(
            "buyer".to_string(),
            1000,
            FTSaleArgs { nft_contract_id: "nft".to_string(), token_id: "token".to_string() },
            "usd".to_string(),
        )
        .unwrap();
    let (charged, refunds) =
        market.ft_resolve_purchase("buyer".to_string(), bound_price, None);
    assert_eq!(charged, 1000);
    assert_eq!(refunds.len(), 1);
    assert_eq!(refunds[0].ft_contract_id, "usd".to_string());
    assert_eq!(refunds[0].receiver_id, "buyer".to_string());
    assert_eq!(refunds[0].amount, 1000);
}

#[test]
fn storage_deposit_and_withdraw_keep_the_required_part() {
    let mut market = Contract::new("owner".to_string());
    market.storage_deposit(None, "seller".to_string(), STORAGE_PER_SALE * 3);
    assert_eq!(market.storage_balance_of("seller".to_string()), STORAGE_PER_SALE * 3);
    assert_eq!(market.storage_minimum_balance(), STORAGE_PER_SALE);

    market
        .nft_on_approve(
            "token".to_string(),
            "seller".to_string(),
            7,
            SaleArgs { sale_conditions: native_price(1000) },
            "nft".to_string(),
            "seller".to_string(),
        )
        .unwrap();

    // One sale is active: its reservation stays, the rest is released.
    let refund = market.storage_withdraw("seller".to_string(), 1).unwrap();
    assert_eq!(refund.receiver_id, "seller".to_string());
    assert_eq!(refund.amount, STORAGE_PER_SALE * 2);
    assert_eq!(market.storage_balance_of("seller".to_string()), STORAGE_PER_SALE);
}

#[test]
fn relisting_replaces_the_sale_and_keeps_indices_exact() {
    let mut market = Contract::new("owner".to_string());
    market.storage_deposit(None, "seller".to_string(), STORAGE_PER_SALE * 2);
    for approval in [1u64, 2u64] {
        market
            .nft_on_approve(
                "token".to_string(),
                "seller".to_string(),
                approval,
                SaleArgs { sale_conditions: native_price(1000 * approval as u128) },
                "nft".to_string(),
                "seller".to_string(),
            )
            .unwrap();
    }
    assert_eq!(market.get_supply_sales(), 1);
    assert_eq!(market.get_supply_by_owner_id("seller".to_string()), 1);
    let sales = market.get_sales(None, Some(10));
    assert_eq!(sales[0].approval_id, 2);
    assert_eq!(sales[0].sale_conditions.amount, 2000);
}

#[test]
fn payout_with_more_than_ten_entries_is_refunded() {
    let mut market = Contract::new("owner".to_string());
    let mut table: StrMap<u128> = StrMap::new();
    for i in 0..11 {
        table.insert(format!("p{}", i), 1);
    }
    let (charged, transfers) =
        market.resolve_purchase("buyer".to_string(), 1000, Some(Payout { payout: table }));
    assert_eq!(charged, 1000);
    assert_eq!(transfers.len(), 1);
    assert_eq!(transfers[0].receiver_id, "buyer".to_string());
}

#[test]
fn relisting_by_a_new_seller_moves_the_index_entry() {
    let mut market = Contract::new("owner".to_string());
    market.storage_deposit(None, "first".to_string(), STORAGE_PER_SALE);
    market.storage_deposit(None, "second".to_string(), STORAGE_PER_SALE);
    market
        .nft_on_approve(
            "token".to_string(),
            "first".to_string(),
            1,
            SaleArgs { sale_conditions: native_price(1000) },
            "nft".to_string(),
            "first".to_string(),
        )
        .unwrap();
    // The token changes hands off-market and the new owner lists it again.
    market
        .nft_on_approve(
            "token".to_string(),
            "second".to_string(),
            2,
            SaleArgs { sale_conditions: native_price(500) },
            "nft".to_string(),
            "second".to_string(),
        )
        .unwrap();
    assert_eq!(market.get_supply_sales(), 1);
    assert_eq!(market.get_supply_by_owner_id("first".to_string()), 0);
    assert_eq!(market.get_supply_by_owner_id("second".to_string()), 1);
    let sales = market.get_sales_by_owner_id("second".to_string(), None, Some(10));
    assert_eq!(sales[0].sale_conditions.amount, 500);
}

#[test]
fn storage_withdraw_with_no_sales_releases_everything() {
    let mut market = Contract::new("owner".to_string());
    market.storage_deposit(None, "seller".to_string(), STORAGE_PER_SALE * 2);
    let refund = market.storage_withdraw("seller".to_string(), 1).unwrap();
    assert_eq!(refund.amount, STORAGE_PER_SALE * 2);
    assert_eq!(market.storage_balance_of("seller".to_string()), 0);
}
