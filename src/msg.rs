use vstd::prelude::*;

verus! {

/// What a ledger is created with.
pub struct InstantiateMsg {
    pub name: String,
    pub symbol: String,
    pub decimal: u128,
    pub initial_supply: u128,
    pub owner: String,
}

/// Answer to a `Name` query.
pub struct Name {
    pub name: String,
}

/// Answer to a `Symbol` query.
pub struct Symbol {
    pub symbol: String,
}

/// Answer to an `Owner` query.
pub struct Owner {
    pub owner: String,
}

/// Answer to a `Decimal` query.
pub struct Decimals {
    pub decimal: u128,
}

/// Answer to a `TotalSupply` query.
pub struct TotalSupply {
    pub decimal: u128,
}

/// Answer to a `BalanceOf` query.
pub struct BalanceOf {
    pub decimal: u128,
}

/// A state-changing request. The caller's own account comes beside it.
pub enum ExecuteMsg {
    Transfer { recipient: String, amount: u128 },
    TransferFrom { from: String, to: String, amount: u128 },
    Mint { recipient: String, amount: u128 },
    Burn { amount: u128 },
}

/// A read-only request.
pub enum QueryMsg {
    Name {},
    Symbol {},
    Owner {},
    Decimal {},
    TotalSupply {},
    BalanceOf { address: String },
}

/// The answer to a `QueryMsg`, one variant for each request.
pub enum QueryResponse {
    Name(Name),
    Symbol(Symbol),
    Owner(Owner),
    Decimals(Decimals),
    TotalSupply(TotalSupply),
    BalanceOf(BalanceOf),
}

} // verus!
