//! The decisions of a financial operations service: how a transaction
//! moves account balances, how each request is answered, and the page
//! size of a transaction listing.

use vstd::prelude::*;

use crate::numeric::{parse_i64, parse_i64_spec};
use crate::text::{chars_of, push_str, string_of};

verus! {

/// A decimal amount: `mantissa / 10^scale`.
#[derive(Clone, Copy, PartialEq, Eq, Structural, Debug)]
pub struct Amount {
    pub mantissa: i128,
    pub scale: u32,
}

/// The mantissa fits in 96 bits and the scale is at most 28 (what a
/// `rust_decimal::Decimal` can hold).
pub open spec fn valid_amount(a: Amount) -> bool {
    -0xFFFF_FFFF_FFFF_FFFF_FFFF_FFFF <= a.mantissa <= 0xFFFF_FFFF_FFFF_FFFF_FFFF_FFFF
        && a.scale <= 28
}

/// `10^n`.
pub open spec fn pow10(n: nat) -> int
    decreases n,
{
    if n == 0 {
        1
    } else {
        10 * pow10((n - 1) as nat)
    }
}

/// The value of `a` is less than the value of `b`.
pub open spec fn less_than(a: Amount, b: Amount) -> bool {
    a.mantissa * pow10(b.scale as nat) < b.mantissa * pow10(a.scale as nat)
}

/// `a + b` as `rust_decimal` computes it (`Decimal::checked_add`), `None`
/// on overflow.
pub uninterp spec fn decimal_sum(a: Amount, b: Amount) -> Option<Amount>;

/// `a - b` as `rust_decimal` computes it (`Decimal::checked_sub`), `None`
/// on overflow.
pub uninterp spec fn decimal_difference(a: Amount, b: Amount) -> Option<Amount>;

/// Compares two amounts by value with `rust_decimal`'s ordering of
/// `Decimal`.  Trusted: the answer is the numeric comparison of the two
/// values.
#[verifier::external_body]
fn decimal_less(a: Amount, b: Amount) -> (r: bool)
    requires
        valid_amount(a),
        valid_amount(b),
    ensures
        r == less_than(a, b),
{
    rust_decimal::Decimal::from_i128_with_scale(a.mantissa, a.scale)
        < rust_decimal::Decimal::from_i128_with_scale(b.mantissa, b.scale)
}

/// Adds two amounts with `Decimal::checked_add`.  Trusted: the outcome is
/// the named value `decimal_sum(a, b)`, and a sum is a valid amount.
#[verifier::external_body]
fn decimal_add(a: Amount, b: Amount) -> (r: Option<Amount>)
    requires
        valid_amount(a),
        valid_amount(b),
    ensures
        r == decimal_sum(a, b),
        r matches Some(c) ==> valid_amount(c),
{
    let x = rust_decimal::Decimal::from_i128_with_scale(a.mantissa, a.scale);
    let y = rust_decimal::Decimal::from_i128_with_scale(b.mantissa, b.scale);
    match x.checked_add(y) {
        Some(d) => Some(Amount { mantissa: d.mantissa(), scale: d.scale() }),
        None => None,
    }
}

/// Subtracts two amounts with `Decimal::checked_sub`.  Trusted: the
/// outcome is the named value `decimal_difference(a, b)`, and a difference
/// is a valid amount.
#[verifier::external_body]
fn decimal_sub(a: Amount, b: Amount) -> (r: Option<Amount>)
    requires
        valid_amount(a),
        valid_amount(b),
    ensures
        r == decimal_difference(a, b),
        r matches Some(c) ==> valid_amount(c),
{
    let x = rust_decimal::Decimal::from_i128_with_scale(a.mantissa, a.scale);
    let y = rust_decimal::Decimal::from_i128_with_scale(b.mantissa, b.scale);
    match x.checked_sub(y) {
        Some(d) => Some(Amount { mantissa: d.mantissa(), scale: d.scale() }),
        None => None,
    }
}

/// The kinds of transaction.
#[derive(Clone, Copy, PartialEq, Eq, Structural, Debug)]
pub enum TransactionType {
    Deposit,
    Withdrawal,
    Transfer,
    Payment,
    Fee,
    Interest,
}

/// Why a transaction cannot go through.
#[derive(Clone, Copy, PartialEq, Eq, Structural, Debug)]
pub enum TransferError {
    /// A withdrawal or transfer larger than the balance.
    InsufficientFunds,
    /// The new balance is beyond what a decimal amount can hold.
    Overflow,
}

/// Whether the transaction takes money out of the source account.
pub open spec fn takes_out(t: TransactionType) -> bool {
    match t {
        TransactionType::Withdrawal | TransactionType::Transfer | TransactionType::Payment
        | TransactionType::Fee => true,
        TransactionType::Deposit | TransactionType::Interest => false,
    }
}

/// Whether the balance must cover the amount.
pub open spec fn needs_funds(t: TransactionType) -> bool {
    t == TransactionType::Withdrawal || t == TransactionType::Transfer
}

/// The source account's balance after the transaction.
pub open spec fn source_balance_after(t: TransactionType, balance: Amount, amount: Amount) -> Result<
    Amount,
    TransferError,
> {
    if needs_funds(t) && less_than(balance, amount) {
        Err(TransferError::InsufficientFunds)
    } else {
        match if takes_out(t) {
            decimal_difference(balance, amount)
        } else {
            decimal_sum(balance, amount)
        } {
            Some(b) => Ok(b),
            None => Err(TransferError::Overflow),
        }
    }
}

/// The source account's new balance: withdrawals and transfers need
/// enough funds; withdrawals, transfers, payments and fees take the amount
/// out, deposits and interest put it in.
pub fn source_balance(t: TransactionType, balance: Amount, amount: Amount) -> (r: Result<
    Amount,
    TransferError,
>)
    requires
        valid_amount(balance),
        valid_amount(amount),
    ensures
        r == source_balance_after(t, balance, amount),
        r matches Ok(b) ==> valid_amount(b),
{
    let needs = match t {
        TransactionType::Withdrawal | TransactionType::Transfer => true,
        _ => false,
    };
    if needs && decimal_less(balance, amount) {
        return Err(TransferError::InsufficientFunds);
    }
    let moved = match t {
        TransactionType::Withdrawal | TransactionType::Transfer | TransactionType::Payment
        | TransactionType::Fee => decimal_sub(balance, amount),
        TransactionType::Deposit | TransactionType::Interest => decimal_add(balance, amount),
    };
    match moved {
        Some(b) => Ok(b),
        None => Err(TransferError::Overflow),
    }
}

/// Whether the destination account is credited: only a transfer that
/// names one.
pub fn credits_destination(t: TransactionType, has_destination: bool) -> (b: bool)
    ensures
        b == (has_destination && t == TransactionType::Transfer),
{
    has_destination && t == TransactionType::Transfer
}

/// The destination account's new balance after receiving `amount`.
pub fn destination_balance(balance: Amount, amount: Amount) -> (r: Result<Amount, TransferError>)
    requires
        valid_amount(balance),
        valid_amount(amount),
    ensures
        match decimal_sum(balance, amount) {
            Some(b) => r == Ok::<Amount, TransferError>(b),
            None => r == Err::<Amount, TransferError>(TransferError::Overflow),
        },
{
    match decimal_add(balance, amount) {
        Some(b) => Ok(b),
        None => Err(TransferError::Overflow),
    }
}

/// The balance a new account opens with: the initial deposit, or zero
/// without one.
pub fn opening_balance(deposit: Option<Amount>) -> (b: Amount)
    ensures
        b == match deposit {
            Some(d) => d,
            None => Amount { mantissa: 0, scale: 0 },
        },
{
    match deposit {
        Some(d) => d,
        None => Amount { mantissa: 0, scale: 0 },
    }
}

/// A transaction that needs funds is refused whenever the balance is below
/// the amount, whatever else holds.
pub proof fn law_no_overdraft(t: TransactionType, balance: Amount, amount: Amount)
    requires
        needs_funds(t),
        less_than(balance, amount),
    ensures
        source_balance_after(t, balance, amount) == Err::<Amount, TransferError>(
            TransferError::InsufficientFunds,
        ),
{
}

// ---------------------------------------------------------------------------
// Answers to requests
// ---------------------------------------------------------------------------

/// The HTTP statuses the service answers with.
#[derive(Clone, Copy, PartialEq, Eq, Structural, Debug)]
pub enum HttpStatus {
    Success,
    Created,
    BadRequest,
    NotFound,
    TooManyRequests,
    InternalServerError,
}

/// The endpoints of the service.
#[derive(Clone, Copy, PartialEq, Eq, Structural, Debug)]
pub enum Endpoint {
    GetAccount,
    CreateAccount,
    CreateTransaction,
    GetAccountTransactions,
}

/// How the work behind a request turned out.
pub enum Outcome {
    /// It produced the data asked for.
    Found,
    /// The account asked for does not exist.
    Missing,
    /// The transaction was refused for lack of funds or of an account.
    Refused,
    /// The store failed, with this message.
    Failed(String),
}

/// An answer: its status, the status word, whether the data is included,
/// and the error message if any.
pub struct Answer {
    pub status: HttpStatus,
    pub status_text: String,
    pub with_data: bool,
    pub error: Option<String>,
}

/// The status of a successful request to `e`.
pub open spec fn success_status(e: Endpoint) -> HttpStatus {
    match e {
        Endpoint::CreateAccount | Endpoint::CreateTransaction => HttpStatus::Created,
        _ => HttpStatus::Success,
    }
}

/// The prefix of a store failure's message at `e`.
pub open spec fn failure_prefix(e: Endpoint) -> Seq<char> {
    match e {
        Endpoint::GetAccount => "Database error: "@,
        Endpoint::CreateAccount => "Failed to create account: "@,
        Endpoint::CreateTransaction => "Transaction failed: "@,
        Endpoint::GetAccountTransactions => "Failed to get transactions: "@,
    }
}

/// The answer as plain values: status, status word, data included, error.
pub open spec fn answer_view(a: Answer) -> (HttpStatus, Seq<char>, bool, Option<Seq<char>>) {
    (
        a.status,
        a.status_text@,
        a.with_data,
        match a.error {
            Some(e) => Some(e@),
            None => None,
        },
    )
}

/// How a request to `e` is answered: over the rate limit it is refused;
/// otherwise found data is returned, a missing account is not found, a
/// refused transaction is a bad request, and a store failure is a server
/// error that carries the store's message.
pub open spec fn answer_for(e: Endpoint, within_limit: bool, outcome: Outcome) -> (
    HttpStatus,
    Seq<char>,
    bool,
    Option<Seq<char>>,
) {
    if !within_limit {
        (HttpStatus::TooManyRequests, "error"@, false, Some("Rate limit exceeded"@))
    } else {
        match outcome {
            Outcome::Found => (success_status(e), "success"@, true, None),
            Outcome::Missing => (HttpStatus::NotFound, "error"@, false, Some("Account not found"@)),
            Outcome::Refused => (
                HttpStatus::BadRequest,
                "error"@,
                false,
                Some("Insufficient funds or account not found"@),
            ),
            Outcome::Failed(m) => (
                HttpStatus::InternalServerError,
                "error"@,
                false,
                Some(failure_prefix(e) + m@),
            ),
        }
    }
}

/// Answers a request to `endpoint`, given whether it was within the rate
/// limit and how the work behind it turned out.
pub fn answer(endpoint: Endpoint, within_limit: bool, outcome: Outcome) -> (a: Answer)
    ensures
        answer_view(a) == answer_for(endpoint, within_limit, outcome),
{
    let ghost o = outcome;
    if !within_limit {
        return Answer {
            status: HttpStatus::TooManyRequests,
            status_text: String::from_str("error"),
            with_data: false,
            error: Some(String::from_str("Rate limit exceeded")),
        };
    }
    match outcome {
        Outcome::Found => {
            let status = match endpoint {
                Endpoint::CreateAccount | Endpoint::CreateTransaction => HttpStatus::Created,
                _ => HttpStatus::Success,
            };
            Answer { status, status_text: String::from_str("success"), with_data: true, error: None }
        },
        Outcome::Missing => Answer {
            status: HttpStatus::NotFound,
            status_text: String::from_str("error"),
            with_data: false,
            error: Some(String::from_str("Account not found")),
        },
        Outcome::Refused => Answer {
            status: HttpStatus::BadRequest,
            status_text: String::from_str("error"),
            with_data: false,
            error: Some(String::from_str("Insufficient funds or account not found")),
        },
        Outcome::Failed(m) => {
            let mut v: Vec<char> = match endpoint {
                Endpoint::GetAccount => chars_of("Database error: "),
                Endpoint::CreateAccount => chars_of("Failed to create account: "),
                Endpoint::CreateTransaction => chars_of("Transaction failed: "),
                Endpoint::GetAccountTransactions => chars_of("Failed to get transactions: "),
            };
            push_str(&mut v, m.as_str());
            Answer {
                status: HttpStatus::InternalServerError,
                status_text: String::from_str("error"),
                with_data: false,
                error: Some(string_of(v.as_slice())),
            }
        },
    }
}

/// Every request over the rate limit is refused with `TooManyRequests`
/// and the error `Rate limit exceeded`, without data, whatever the
/// endpoint and however the work behind it would have turned out.
pub proof fn law_over_limit_is_refused(e: Endpoint, outcome: Outcome)
    ensures
        answer_for(e, false, outcome) == (
            HttpStatus::TooManyRequests,
            "error"@,
            false,
            Some("Rate limit exceeded"@),
        ),
{
}

/// The number of transactions to list: the `limit` parameter when it is a
/// 64-bit number, 20 otherwise.
pub open spec fn page_size(limit: Option<Seq<char>>) -> i64 {
    match limit {
        Some(l) => match parse_i64_spec(l) {
            Some(n) => n,
            None => 20,
        },
        None => 20,
    }
}

/// Reads the `limit` parameter of a transaction listing.
pub fn listing_limit(limit: Option<&str>) -> (n: i64)
    ensures
        n == page_size(
            match limit {
                Some(l) => Some(l@),
                None => None,
            },
        ),
{
    match limit {
        Some(l) => {
            let c = chars_of(l);
            match parse_i64(c.as_slice()) {
                Some(n) => n,
                None => 20,
            }
        },
        None => 20,
    }
}

} // verus!
