use erc20::contract::{
    balance_of, burn, decimal, execute, instantiate, mint, name, owner, query, symbol,
    total_supply, transfer, transfer_from,
};
use erc20::ledger::{burn_amounts, credit, debit, mint_amounts, move_amount, LedgerError};
use erc20::msg::{ExecuteMsg, InstantiateMsg, QueryMsg, QueryResponse};
use erc20::state::Ledger;

fn s(x: &str) -> String {
    x.to_string()
}

fn token() -> Ledger {
    let mut l = Ledger::new();
    let msg = InstantiateMsg {
        name: s("Tok"),
        symbol: s("TOK"),
        decimal: 18,
        initial_supply: 1000,
        owner: s("alice"),
    };
    instantiate(&mut l, msg).unwrap();
    l
}

fn bal(l: &Ledger, a: &str) -> u128 {
    balance_of(l, s(a)).unwrap()
}

#[test]
fn instantiate_gives_supply_to_owner() {
    let mut l = Ledger::new();
    let msg = InstantiateMsg {
        name: s("Tok"),
        symbol: s("TOK"),
        decimal: 18,
        initial_supply: 1000,
        owner: s("alice"),
    };
    let e = instantiate(&mut l, msg).unwrap();
    assert_eq!(e.from, "0");
    assert_eq!(e.to, "alice");
    assert_eq!(e.amount, 1000);
    assert_eq!(bal(&l, "alice"), 1000);
    assert_eq!(total_supply(&l), Ok(1000));
    assert_eq!(name(&l), Ok(s("Tok")));
    assert_eq!(symbol(&l), Ok(s("TOK")));
    assert_eq!(decimal(&l), Ok(18));
    assert_eq!(owner(&l), Ok(s("alice")));
}

#[test]
fn second_instantiate_is_refused() {
    let mut l = token();
    let msg = InstantiateMsg {
        name: s("Other"),
        symbol: s("OTH"),
        decimal: 6,
        initial_supply: 5,
        owner: s("bob"),
    };
    assert_eq!(instantiate(&mut l, msg).err(), Some(LedgerError::AlreadyInitialized));
    assert_eq!(name(&l), Ok(s("Tok")));
    assert_eq!(bal(&l, "bob"), 0);
    assert_eq!(total_supply(&l), Ok(1000));
}

#[test]
fn uninitialized_ledger_reports_not_found() {
    let mut l = Ledger::new();
    assert_eq!(total_supply(&l), Err(LedgerError::NotFound));
    assert_eq!(name(&l), Err(LedgerError::NotFound));
    assert_eq!(owner(&l), Err(LedgerError::NotFound));
    assert_eq!(bal(&l, "alice"), 0);
    assert_eq!(mint(&mut l, s("bob"), 5).err(), Some(LedgerError::NotFound));
    assert_eq!(transfer(&mut l, s("a"), s("b"), 0).err(), Some(LedgerError::NotFound));
    assert_eq!(burn(&mut l, s("a"), 0).err(), Some(LedgerError::NotFound));
}

#[test]
fn transfer_moves_balance() {
    let mut l = token();
    let e = transfer(&mut l, s("alice"), s("bob"), 300).unwrap();
    assert_eq!((e.from.as_str(), e.to.as_str(), e.amount), ("alice", "bob", 300));
    assert_eq!(bal(&l, "alice"), 700);
    assert_eq!(bal(&l, "bob"), 300);
    assert_eq!(total_supply(&l), Ok(1000));
}

#[test]
fn mint_raises_balance_and_supply() {
    let mut l = token();
    transfer(&mut l, s("alice"), s("bob"), 300).unwrap();
    let e = mint(&mut l, s("bob"), 50).unwrap();
    assert_eq!((e.from.as_str(), e.to.as_str(), e.amount), ("0", "bob", 50));
    assert_eq!(bal(&l, "bob"), 350);
    assert_eq!(total_supply(&l), Ok(1050));
}

#[test]
fn burn_beyond_balance_is_refused() {
    let mut l = token();
    transfer(&mut l, s("alice"), s("bob"), 300).unwrap();
    assert_eq!(bal(&l, "alice"), 700);
    assert_eq!(burn(&mut l, s("alice"), 800).err(), Some(LedgerError::InsufficientBalance));
    assert_eq!(bal(&l, "alice"), 700);
    assert_eq!(bal(&l, "bob"), 300);
    assert_eq!(total_supply(&l), Ok(1000));
}

#[test]
fn burn_lowers_balance_and_supply() {
    let mut l = token();
    let e = burn(&mut l, s("alice"), 400).unwrap();
    assert_eq!((e.from.as_str(), e.to.as_str(), e.amount), ("alice", "0", 400));
    assert_eq!(bal(&l, "alice"), 600);
    assert_eq!(total_supply(&l), Ok(600));
}

#[test]
fn transfers_keep_supply() {
    let mut l = token();
    transfer(&mut l, s("alice"), s("bob"), 300).unwrap();
    transfer_from(&mut l, s("bob"), s("carol"), 100).unwrap();
    assert!(transfer(&mut l, s("carol"), s("dave"), 101).is_err());
    transfer_from(&mut l, s("alice"), s("alice"), 700).unwrap();
    assert_eq!(total_supply(&l), Ok(1000));
    let sum = bal(&l, "alice") + bal(&l, "bob") + bal(&l, "carol") + bal(&l, "dave");
    assert_eq!(sum, 1000);
}

#[test]
fn overdrawn_transfer_changes_nothing() {
    let mut l = token();
    let r = transfer(&mut l, s("bob"), s("alice"), 1);
    assert_eq!(r.err(), Some(LedgerError::InsufficientBalance));
    assert_eq!(bal(&l, "alice"), 1000);
    assert_eq!(bal(&l, "bob"), 0);
}

#[test]
fn self_transfer_keeps_balance_at_the_top() {
    let mut l = Ledger::new();
    let msg = InstantiateMsg {
        name: s("Big"),
        symbol: s("BIG"),
        decimal: 0,
        initial_supply: u128::MAX,
        owner: s("alice"),
    };
    instantiate(&mut l, msg).unwrap();
    let e = transfer(&mut l, s("alice"), s("alice"), u128::MAX).unwrap();
    assert_eq!(e.amount, u128::MAX);
    assert_eq!(bal(&l, "alice"), u128::MAX);
    assert_eq!(total_supply(&l), Ok(u128::MAX));
}

#[test]
fn mint_past_the_top_overflows() {
    let mut l = token();
    assert_eq!(mint(&mut l, s("bob"), u128::MAX - 999).err(), Some(LedgerError::Overflow));
    assert_eq!(bal(&l, "bob"), 0);
    assert_eq!(total_supply(&l), Ok(1000));
    mint(&mut l, s("bob"), u128::MAX - 1000).unwrap();
    assert_eq!(total_supply(&l), Ok(u128::MAX));
}

#[test]
fn execute_dispatches() {
    let mut l = token();
    execute(&mut l, s("alice"), ExecuteMsg::Transfer { recipient: s("bob"), amount: 10 }).unwrap();
    execute(&mut l, s("x"), ExecuteMsg::TransferFrom { from: s("bob"), to: s("carol"), amount: 4 })
        .unwrap();
    execute(&mut l, s("x"), ExecuteMsg::Mint { recipient: s("carol"), amount: 6 }).unwrap();
    execute(&mut l, s("alice"), ExecuteMsg::Burn { amount: 90 }).unwrap();
    assert_eq!(bal(&l, "alice"), 900);
    assert_eq!(bal(&l, "bob"), 6);
    assert_eq!(bal(&l, "carol"), 10);
    assert_eq!(total_supply(&l), Ok(916));
}

#[test]
fn query_answers() {
    let l = token();
    match query(&l, QueryMsg::BalanceOf { address: s("alice") }) {
        Ok(QueryResponse::BalanceOf(b)) => assert_eq!(b.decimal, 1000),
        _ => panic!("wrong answer"),
    }
    match query(&l, QueryMsg::Name {}) {
        Ok(QueryResponse::Name(n)) => assert_eq!(n.name, "Tok"),
        _ => panic!("wrong answer"),
    }
    match query(&l, QueryMsg::Owner {}) {
        Ok(QueryResponse::Owner(o)) => assert_eq!(o.owner, "alice"),
        _ => panic!("wrong answer"),
    }
    match query(&l, QueryMsg::TotalSupply {}) {
        Ok(QueryResponse::TotalSupply(t)) => assert_eq!(t.decimal, 1000),
        _ => panic!("wrong answer"),
    }
    match query(&l, QueryMsg::Decimal {}) {
        Ok(QueryResponse::Decimals(d)) => assert_eq!(d.decimal, 18),
        _ => panic!("wrong answer"),
    }
    match query(&l, QueryMsg::Symbol {}) {
        Ok(QueryResponse::Symbol(t)) => assert_eq!(t.symbol, "TOK"),
        _ => panic!("wrong answer"),
    }
    assert!(matches!(query(&Ledger::new(), QueryMsg::Name {}), Err(LedgerError::NotFound)));
}

#[test]
fn kernels_exact_values() {
    assert_eq!(debit(10, 3), Ok(7));
    assert_eq!(debit(3, 10), Err(LedgerError::InsufficientBalance));
    assert_eq!(credit(10, 3), Ok(13));
    assert_eq!(credit(u128::MAX, 1), Err(LedgerError::Overflow));
    assert_eq!(move_amount(10, 5, false, 4), Ok((6, 9)));
    assert_eq!(move_amount(10, 10, true, 10), Ok((10, 10)));
    assert_eq!(move_amount(10, u128::MAX, false, 1), Err(LedgerError::Overflow));
    assert_eq!(move_amount(1, 0, false, 2), Err(LedgerError::InsufficientBalance));
    assert_eq!(mint_amounts(5, 20, 7), Ok((12, 27)));
    assert_eq!(mint_amounts(5, u128::MAX, 1), Err(LedgerError::Overflow));
    assert_eq!(burn_amounts(5, 20, 5), Ok((0, 15)));
    assert_eq!(burn_amounts(5, 3, 4), Err(LedgerError::Underflow));
    assert_eq!(burn_amounts(5, 20, 6), Err(LedgerError::InsufficientBalance));
}
