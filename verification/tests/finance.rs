use workbench::finance::{
    answer, credits_destination, destination_balance, listing_limit, opening_balance, source_balance, Amount,
    Endpoint, HttpStatus, Outcome, TransactionType, TransferError,
};

fn amt(mantissa: i128, scale: u32) -> Amount {
    Amount { mantissa, scale }
}

#[test]
fn withdrawals_need_funds() {
    assert_eq!(
        source_balance(TransactionType::Withdrawal, amt(10000, 2), amt(150, 0)),
        Err(TransferError::InsufficientFunds)
    );
    assert_eq!(
        source_balance(TransactionType::Transfer, amt(10000, 2), amt(1001, 1)),
        Err(TransferError::InsufficientFunds)
    );
    assert_eq!(
        source_balance(TransactionType::Withdrawal, amt(10000, 2), amt(100, 0)),
        Ok(amt(0, 2))
    );
}

#[test]
fn payments_and_fees_may_overdraw() {
    assert_eq!(
        source_balance(TransactionType::Payment, amt(10000, 2), amt(150, 0)),
        Ok(amt(-5000, 2))
    );
    assert_eq!(source_balance(TransactionType::Fee, amt(1, 0), amt(2, 0)), Ok(amt(-1, 0)));
}

#[test]
fn deposits_and_interest_add() {
    assert_eq!(
        source_balance(TransactionType::Deposit, amt(10000, 2), amt(150, 0)),
        Ok(amt(25000, 2))
    );
    assert_eq!(
        source_balance(TransactionType::Interest, amt(5, 1), amt(25, 2)),
        Ok(amt(75, 2))
    );
}

#[test]
fn overflow_is_reported() {
    let max = amt(0xFFFF_FFFF_FFFF_FFFF_FFFF_FFFF, 0);
    assert_eq!(
        source_balance(TransactionType::Deposit, max, max),
        Err(TransferError::Overflow)
    );
    assert_eq!(destination_balance(max, max), Err(TransferError::Overflow));
    assert_eq!(destination_balance(amt(1, 0), amt(2, 0)), Ok(amt(3, 0)));
}

#[test]
fn only_transfers_credit_a_destination() {
    assert!(credits_destination(TransactionType::Transfer, true));
    assert!(!credits_destination(TransactionType::Transfer, false));
    assert!(!credits_destination(TransactionType::Deposit, true));
}

#[test]
fn answers() {
    let a = answer(Endpoint::GetAccount, false, Outcome::Found);
    assert_eq!(a.status, HttpStatus::TooManyRequests);
    assert_eq!(a.error.as_deref(), Some("Rate limit exceeded"));
    let a = answer(Endpoint::CreateAccount, true, Outcome::Found);
    assert_eq!(a.status, HttpStatus::Created);
    assert_eq!(a.status_text, "success");
    assert!(a.with_data);
    let a = answer(Endpoint::GetAccount, true, Outcome::Missing);
    assert_eq!(a.status, HttpStatus::NotFound);
    assert_eq!(a.error.as_deref(), Some("Account not found"));
    let a = answer(Endpoint::CreateTransaction, true, Outcome::Refused);
    assert_eq!(a.status, HttpStatus::BadRequest);
    let a = answer(Endpoint::GetAccountTransactions, true, Outcome::Failed("boom".to_string()));
    assert_eq!(a.status, HttpStatus::InternalServerError);
    assert_eq!(a.error.as_deref(), Some("Failed to get transactions: boom"));
    let a = answer(Endpoint::GetAccount, true, Outcome::Failed("x".to_string()));
    assert_eq!(a.error.as_deref(), Some("Database error: x"));
}

#[test]
fn listing_limit_defaults_to_twenty() {
    assert_eq!(listing_limit(None), 20);
    assert_eq!(listing_limit(Some("5")), 5);
    assert_eq!(listing_limit(Some("-3")), -3);
    assert_eq!(listing_limit(Some("many")), 20);
}

#[test]
fn new_accounts_open_with_the_deposit_or_zero() {
    let d = Amount { mantissa: 12345, scale: 2 };
    assert_eq!(opening_balance(Some(d)), d);
    assert_eq!(opening_balance(None), Amount { mantissa: 0, scale: 0 });
}
