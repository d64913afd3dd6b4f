use vstd::prelude::*;

use crate::ledger::LedgerError;
use crate::msg::{
    BalanceOf, Decimals, ExecuteMsg, InstantiateMsg, Name, Owner, QueryMsg, QueryResponse, Symbol,
    TotalSupply,
};
use crate::state::{
    burn_outcome, instantiate_outcome, mint_outcome, sum_of, transfer_outcome, Event, Ledger,
};

verus! {

/// Creates the token: stores its metadata and gives the initial supply to the
/// owner. A ledger is initialized once; a second call is refused.
pub fn instantiate(store: &mut Ledger, msg: InstantiateMsg) -> (r: Result<Event, LedgerError>)
    requires
        old(store).wf(),
    ensures
        final(store).wf(),
        instantiate_outcome(*old(store), *final(store), r, msg),
{
    store.instantiate(msg)
}

/// What `execute` does with `msg` when sent by `sender`.
pub open spec fn execute_outcome(
    pre: Ledger,
    post: Ledger,
    r: Result<Event, LedgerError>,
    sender: Seq<char>,
    msg: ExecuteMsg,
) -> bool {
    match msg {
        ExecuteMsg::Transfer { recipient, amount } => transfer_outcome(
            pre,
            post,
            r,
            sender,
            recipient@,
            amount,
        ),
        ExecuteMsg::TransferFrom { from, to, amount } => transfer_outcome(
            pre,
            post,
            r,
            from@,
            to@,
            amount,
        ),
        ExecuteMsg::Mint { recipient, amount } => mint_outcome(pre, post, r, recipient@, amount),
        ExecuteMsg::Burn { amount } => burn_outcome(pre, post, r, sender, amount),
    }
}

/// Carries out a state-changing request sent by `sender`. Every account named in
/// `msg` has been validated by the caller.
pub fn execute(store: &mut Ledger, sender: String, msg: ExecuteMsg) -> (r: Result<
    Event,
    LedgerError,
>)
    requires
        old(store).wf(),
    ensures
        final(store).wf(),
        execute_outcome(*old(store), *final(store), r, sender@, msg),
{
    match msg {
        ExecuteMsg::Transfer { recipient, amount } => transfer(store, sender, recipient, amount),
        ExecuteMsg::TransferFrom { from, to, amount } => transfer_from(store, from, to, amount),
        ExecuteMsg::Mint { recipient, amount } => mint(store, recipient, amount),
        ExecuteMsg::Burn { amount } => burn(store, sender, amount),
    }
}

/// Answers a read-only request.
pub fn query(store: &Ledger, msg: QueryMsg) -> (r: Result<QueryResponse, LedgerError>)
    requires
        store.wf(),
    ensures
        msg matches QueryMsg::BalanceOf { address } ==> (r matches Ok(
            QueryResponse::BalanceOf(b),
        ) && b.decimal == store.balance(address@)),
        msg is Name && store.metadata() is Some ==> (r matches Ok(QueryResponse::Name(n))
            && n.name == store.metadata()->Some_0.name),
        msg is Symbol && store.metadata() is Some ==> (r matches Ok(QueryResponse::Symbol(n))
            && n.symbol == store.metadata()->Some_0.symbol),
        msg is Owner && store.metadata() is Some ==> (r matches Ok(QueryResponse::Owner(n))
            && n.owner == store.metadata()->Some_0.owner),
        msg is Decimal && store.metadata() is Some ==> (r matches Ok(QueryResponse::Decimals(n))
            && n.decimal == store.metadata()->Some_0.decimal),
        msg is TotalSupply && store.initialized() ==> (r matches Ok(
            QueryResponse::TotalSupply(t),
        ) && t.decimal == store.supply()),
        !(msg is BalanceOf) && !store.initialized() ==> r == Err::<QueryResponse, LedgerError>(
            LedgerError::NotFound,
        ),
{
    match msg {
        QueryMsg::Name {} => match name(store) {
            Ok(n) => Ok(QueryResponse::Name(Name { name: n })),
            Err(e) => Err(e),
        },
        QueryMsg::Symbol {} => match symbol(store) {
            Ok(s) => Ok(QueryResponse::Symbol(Symbol { symbol: s })),
            Err(e) => Err(e),
        },
        QueryMsg::Owner {} => match owner(store) {
            Ok(o) => Ok(QueryResponse::Owner(Owner { owner: o })),
            Err(e) => Err(e),
        },
        QueryMsg::Decimal {} => match decimal(store) {
            Ok(d) => Ok(QueryResponse::Decimals(Decimals { decimal: d })),
            Err(e) => Err(e),
        },
        QueryMsg::TotalSupply {} => match total_supply(store) {
            Ok(t) => Ok(QueryResponse::TotalSupply(TotalSupply { decimal: t })),
            Err(e) => Err(e),
        },
        QueryMsg::BalanceOf { address } => {
            let b = balance_of(store, address);
            match b {
                Ok(b) => Ok(QueryResponse::BalanceOf(BalanceOf { decimal: b })),
                Err(e) => Err(e),
            }
        },
    }
}

/// Moves `amount` from the authenticated `sender` to `recipient`.
pub fn transfer(store: &mut Ledger, sender: String, recipient: String, amount: u128) -> (r: Result<
    Event,
    LedgerError,
>)
    requires
        old(store).wf(),
    ensures
        final(store).wf(),
        transfer_outcome(*old(store), *final(store), r, sender@, recipient@, amount),
{
    store.move_balance(sender, recipient, amount)
}

/// Moves `amount` between two accounts named by the caller. No check is made that
/// the caller may spend what `from` holds: that is left to the calling system.
pub fn transfer_from(store: &mut Ledger, from: String, to: String, amount: u128) -> (r: Result<
    Event,
    LedgerError,
>)
    requires
        old(store).wf(),
    ensures
        final(store).wf(),
        transfer_outcome(*old(store), *final(store), r, from@, to@, amount),
{
    store.move_balance(from, to, amount)
}

/// Creates `amount` for `recipient`. No restriction is made on who asks for it.
pub fn mint(store: &mut Ledger, recipient: String, amount: u128) -> (r: Result<Event, LedgerError>)
    requires
        old(store).wf(),
    ensures
        final(store).wf(),
        mint_outcome(*old(store), *final(store), r, recipient@, amount),
{
    store.mint(recipient, amount)
}

/// Destroys `amount` held by the authenticated `sender`.
pub fn burn(store: &mut Ledger, sender: String, amount: u128) -> (r: Result<Event, LedgerError>)
    requires
        old(store).wf(),
    ensures
        final(store).wf(),
        burn_outcome(*old(store), *final(store), r, sender@, amount),
{
    store.burn(sender, amount)
}

pub fn name(store: &Ledger) -> (r: Result<String, LedgerError>)
    ensures
        r == match store.metadata() {
            Some(m) => Ok::<String, LedgerError>(m.name),
            None => Err(LedgerError::NotFound),
        },
{
    store.name()
}

pub fn symbol(store: &Ledger) -> (r: Result<String, LedgerError>)
    ensures
        r == match store.metadata() {
            Some(m) => Ok::<String, LedgerError>(m.symbol),
            None => Err(LedgerError::NotFound),
        },
{
    store.symbol()
}

pub fn decimal(store: &Ledger) -> (r: Result<u128, LedgerError>)
    ensures
        r == match store.metadata() {
            Some(m) => Ok::<u128, LedgerError>(m.decimal),
            None => Err(LedgerError::NotFound),
        },
{
    store.decimal()
}

pub fn total_supply(store: &Ledger) -> (r: Result<u128, LedgerError>)
    ensures
        store.initialized() ==> r is Ok && r->Ok_0 == store.supply(),
        !store.initialized() ==> r == Err::<u128, LedgerError>(LedgerError::NotFound),
{
    store.total_supply()
}

/// The balance of `addr`: zero for an account with no entry, never an error.
pub fn balance_of(store: &Ledger, addr: String) -> (r: Result<u128, LedgerError>)
    requires
        store.wf(),
    ensures
        r is Ok,
        r->Ok_0 == store.balance(addr@),
{
    proof {
        store.lemma_bounds(addr@, addr@);
    }
    Ok(store.stored_balance(&addr))
}

pub fn owner(store: &Ledger) -> (r: Result<String, LedgerError>)
    ensures
        r == match store.metadata() {
            Some(m) => Ok::<String, LedgerError>(m.owner),
            None => Err(LedgerError::NotFound),
        },
{
    store.owner()
}

/// Conservation: a run of transfers, by `transfer` or `transfer_from`, each one
/// accepted or refused, ends with the total supply it started with. Step `i` leads
/// from `states[i]` to `states[i + 1]` and is described by `steps[i]`: its result,
/// its source account, its destination account and its amount.
pub proof fn transfers_conserve_supply(
    states: Seq<Ledger>,
    steps: Seq<(Result<Event, LedgerError>, Seq<char>, Seq<char>, u128)>,
)
    requires
        states.len() == steps.len() + 1,
        forall|i: int|
            0 <= i < steps.len() ==> #[trigger] transfer_outcome(
                states[i],
                states[i + 1],
                steps[i].0,
                steps[i].1,
                steps[i].2,
                steps[i].3,
            ),
    ensures
        states.last().supply() == states[0].supply(),
    decreases steps.len(),
{
    if steps.len() > 0 {
        let n = steps.len() - 1;
        assert(transfer_outcome(states[n], states[n + 1], steps[n].0, steps[n].1, steps[n].2, steps[n].3));
        transfers_conserve_supply(states.drop_last(), steps.drop_last());
        assert(states.drop_last().last() == states[n]);
    }
}

/// A mint that succeeds raises both the total supply and the recipient's balance by
/// exactly the amount minted.
pub proof fn mint_delta(
    pre: Ledger,
    post: Ledger,
    r: Result<Event, LedgerError>,
    to: Seq<char>,
    amount: u128,
)
    requires
        mint_outcome(pre, post, r, to, amount),
        r is Ok,
    ensures
        post.supply() == pre.supply() + amount,
        post.balance(to) == pre.balance(to) + amount,
{
}

/// A burn of at most the caller's balance on an initialized ledger succeeds and
/// lowers both the total supply and that balance by exactly the amount burnt.
pub proof fn burn_delta(
    pre: Ledger,
    post: Ledger,
    r: Result<Event, LedgerError>,
    from: Seq<char>,
    amount: u128,
)
    requires
        burn_outcome(pre, post, r, from, amount),
        pre.initialized(),
        amount <= pre.balance(from),
    ensures
        r is Ok,
        post.supply() == pre.supply() - amount,
        post.balance(from) == pre.balance(from) - amount,
{
}

/// No balance of a well-formed ledger is negative, and every operation keeps the
/// ledger well-formed.
pub proof fn balances_never_negative(l: Ledger, a: Seq<char>)
    requires
        l.wf(),
    ensures
        l.balance(a) >= 0,
{
    l.lemma_bounds(a, a);
}

/// A transfer of more than the source holds is refused with `InsufficientBalance`
/// and leaves the ledger as it was.
pub proof fn overdrawn_transfer_is_refused(
    pre: Ledger,
    post: Ledger,
    r: Result<Event, LedgerError>,
    from: Seq<char>,
    to: Seq<char>,
    amount: u128,
)
    requires
        transfer_outcome(pre, post, r, from, to, amount),
        pre.initialized(),
        amount > pre.balance(from),
    ensures
        r == Err::<Event, LedgerError>(LedgerError::InsufficientBalance),
        post == pre,
{
}

/// A burn of more than the caller holds is refused with `InsufficientBalance` and
/// leaves the ledger as it was.
pub proof fn overdrawn_burn_is_refused(
    pre: Ledger,
    post: Ledger,
    r: Result<Event, LedgerError>,
    from: Seq<char>,
    amount: u128,
)
    requires
        burn_outcome(pre, post, r, from, amount),
        pre.initialized(),
        amount > pre.balance(from),
    ensures
        r == Err::<Event, LedgerError>(LedgerError::InsufficientBalance),
        post == pre,
{
}

/// In every well-formed ledger, and so after every operation, the total supply is
/// the sum of the balances of the accounts with a stored entry.
pub proof fn supply_is_sum_of_balances(l: Ledger)
    requires
        l.wf(),
    ensures
        l.supply() == sum_of(l.keys().map_values(|k: Seq<char>| l.balance(k))),
{
    l.lemma_supply_sum();
}

/// A transfer from an account to itself of at most its balance succeeds and
/// leaves that balance, and every other, as it was.
pub proof fn self_transfer_keeps_balance(
    pre: Ledger,
    post: Ledger,
    r: Result<Event, LedgerError>,
    a: Seq<char>,
    amount: u128,
)
    requires
        transfer_outcome(pre, post, r, a, a, amount),
        pre.initialized(),
        amount <= pre.balance(a),
    ensures
        r is Ok,
        forall|b: Seq<char>| #[trigger] post.balance(b) == pre.balance(b),
        post.supply() == pre.supply(),
{
    assert forall|b: Seq<char>| #[trigger] post.balance(b) == pre.balance(b) by {
        if b != a {
        }
    }
}

} // verus!
