use vstd::prelude::*;

verus! {

/// Why a ledger operation was refused. A refused operation changes nothing.
#[derive(Debug, Clone, Copy, PartialEq, Eq, Structural)]
pub enum LedgerError {
    /// An account string did not pass the host's validation; raised where the
    /// strings are validated, before any ledger operation.
    InvalidAccount,
    /// A debit is larger than the balance it is taken from.
    InsufficientBalance,
    /// A balance or the total supply would exceed `u128::MAX`.
    Overflow,
    /// The total supply would drop below zero.
    Underflow,
    /// The ledger has not been initialized.
    NotFound,
    /// `instantiate` was called on a ledger that already holds metadata.
    AlreadyInitialized,
}

/// Takes `amount` from `balance`.
pub fn debit(balance: u128, amount: u128) -> (r: Result<u128, LedgerError>)
    ensures
        amount <= balance ==> r == Ok::<u128, LedgerError>((balance - amount) as u128),
        amount > balance ==> r == Err::<u128, LedgerError>(LedgerError::InsufficientBalance),
{
    match balance.checked_sub(amount) {
        Some(v) => Ok(v),
        None => Err(LedgerError::InsufficientBalance),
    }
}

/// Adds `amount` to `balance`.
pub fn credit(balance: u128, amount: u128) -> (r: Result<u128, LedgerError>)
    ensures
        balance + amount <= u128::MAX ==> r == Ok::<u128, LedgerError>((balance + amount) as u128),
        balance + amount > u128::MAX ==> r == Err::<u128, LedgerError>(LedgerError::Overflow),
{
    match balance.checked_add(amount) {
        Some(v) => Ok(v),
        None => Err(LedgerError::Overflow),
    }
}

/// New balances of the two sides of a move of `amount` from an account holding
/// `from_balance` to one holding `to_balance`. When both sides are one account the
/// credit goes to the balance left after the debit, so the balance is unchanged.
pub fn move_amount(from_balance: u128, to_balance: u128, same_account: bool, amount: u128) -> (r:
    Result<(u128, u128), LedgerError>)
    ensures
        amount > from_balance ==> r == Err::<(u128, u128), LedgerError>(
            LedgerError::InsufficientBalance,
        ),
        amount <= from_balance && same_account ==> r == Ok::<(u128, u128), LedgerError>(
            (from_balance, from_balance),
        ),
        amount <= from_balance && !same_account && to_balance + amount > u128::MAX ==> r == Err::<
            (u128, u128),
            LedgerError,
        >(LedgerError::Overflow),
        amount <= from_balance && !same_account && to_balance + amount <= u128::MAX ==> r == Ok::<
            (u128, u128),
            LedgerError,
        >(((from_balance - amount) as u128, (to_balance + amount) as u128)),
{
    let left = match debit(from_balance, amount) {
        Ok(v) => v,
        Err(e) => return Err(e),
    };
    if same_account {
        match credit(left, amount) {
            Ok(back) => Ok((back, back)),
            Err(e) => Err(e),
        }
    } else {
        match credit(to_balance, amount) {
            Ok(to) => Ok((left, to)),
            Err(e) => Err(e),
        }
    }
}

/// New balance and total supply after `amount` is created for an account holding
/// `balance`. Both sums are checked before either is returned.
pub fn mint_amounts(balance: u128, supply: u128, amount: u128) -> (r: Result<
    (u128, u128),
    LedgerError,
>)
    ensures
        balance + amount <= u128::MAX && supply + amount <= u128::MAX ==> r == Ok::<
            (u128, u128),
            LedgerError,
        >(((balance + amount) as u128, (supply + amount) as u128)),
        balance + amount > u128::MAX || supply + amount > u128::MAX ==> r == Err::<
            (u128, u128),
            LedgerError,
        >(LedgerError::Overflow),
{
    let b = match credit(balance, amount) {
        Ok(v) => v,
        Err(e) => return Err(e),
    };
    match credit(supply, amount) {
        Ok(s) => Ok((b, s)),
        Err(e) => Err(e),
    }
}

/// New balance and total supply after `amount` is destroyed from an account holding
/// `balance`. The balance is checked first.
pub fn burn_amounts(balance: u128, supply: u128, amount: u128) -> (r: Result<
    (u128, u128),
    LedgerError,
>)
    ensures
        amount > balance ==> r == Err::<(u128, u128), LedgerError>(
            LedgerError::InsufficientBalance,
        ),
        amount <= balance && amount > supply ==> r == Err::<(u128, u128), LedgerError>(
            LedgerError::Underflow,
        ),
        amount <= balance && amount <= supply ==> r == Ok::<(u128, u128), LedgerError>(
            ((balance - amount) as u128, (supply - amount) as u128),
        ),
{
    let b = match debit(balance, amount) {
        Ok(v) => v,
        Err(e) => return Err(e),
    };
    match supply.checked_sub(amount) {
        Some(s) => Ok((b, s)),
        None => Err(LedgerError::Underflow),
    }
}

} // verus!
