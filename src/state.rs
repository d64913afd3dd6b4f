use vstd::prelude::*;

use crate::ledger::{burn_amounts, mint_amounts, move_amount, LedgerError};
use crate::msg::InstantiateMsg;

verus! {

/// Sum of a sequence of integers.
pub open spec fn sum_of(s: Seq<int>) -> int
    decreases s.len(),
{
    if s.len() == 0 {
        0
    } else {
        sum_of(s.drop_last()) + s.last()
    }
}

proof fn lemma_sum_nonneg(s: Seq<int>)
    requires
        forall|i: int| 0 <= i < s.len() ==> s[i] >= 0,
    ensures
        sum_of(s) >= 0,
    decreases s.len(),
{
    if s.len() > 0 {
        lemma_sum_nonneg(s.drop_last());
    }
}

proof fn lemma_sum_update(s: Seq<int>, i: int, v: int)
    requires
        0 <= i < s.len(),
    ensures
        sum_of(s.update(i, v)) == sum_of(s) - s[i] + v,
    decreases s.len(),
{
    let t = s.update(i, v);
    if i == s.len() - 1 {
        assert(t.drop_last() =~= s.drop_last());
    } else {
        lemma_sum_update(s.drop_last(), i, v);
        assert(t.drop_last() =~= s.drop_last().update(i, v));
    }
}

proof fn lemma_sum_push(s: Seq<int>, v: int)
    ensures
        sum_of(s.push(v)) == sum_of(s) + v,
{
    assert(s.push(v).drop_last() =~= s);
}

proof fn lemma_entry_le_sum(s: Seq<int>, i: int)
    requires
        0 <= i < s.len(),
        forall|j: int| 0 <= j < s.len() ==> s[j] >= 0,
    ensures
        s[i] <= sum_of(s),
    decreases s.len(),
{
    if i == s.len() - 1 {
        lemma_sum_nonneg(s.drop_last());
    } else {
        lemma_entry_le_sum(s.drop_last(), i);
    }
}

proof fn lemma_two_entries_le_sum(s: Seq<int>, i: int, j: int)
    requires
        0 <= i < s.len(),
        0 <= j < s.len(),
        i != j,
        forall|k: int| 0 <= k < s.len() ==> s[k] >= 0,
    ensures
        s[i] + s[j] <= sum_of(s),
    decreases s.len(),
{
    let n = s.len() - 1;
    if i == n {
        lemma_entry_le_sum(s.drop_last(), j);
    } else if j == n {
        lemma_entry_le_sum(s.drop_last(), i);
    } else {
        lemma_two_entries_le_sum(s.drop_last(), i, j);
    }
}

/// The token's descriptive data, written once when the ledger is created.
pub struct Metadata {
    pub name: String,
    pub symbol: String,
    pub decimal: u128,
    pub owner: String,
}

/// A record of value moving from one account to another. Value created by a mint
/// comes from the account `"0"`; value destroyed by a burn goes to it.
pub struct Event {
    pub from: String,
    pub to: String,
    pub amount: u128,
}

/// The account name that stands for "nowhere" in events of mints and burns.
pub open spec fn sentinel() -> Seq<char> {
    seq!['0']
}

/// `r` is a successful result whose event moves `amount` from `from` to `to`.
pub open spec fn is_event(
    r: Result<Event, LedgerError>,
    from: Seq<char>,
    to: Seq<char>,
    amount: u128,
) -> bool {
    match r {
        Ok(e) => e.from@ == from && e.to@ == to && e.amount == amount,
        Err(_) => false,
    }
}

/// What `instantiate` does: a second call is refused; the first stores the
/// metadata and gives the whole initial supply to the owner.
pub open spec fn instantiate_outcome(
    pre: Ledger,
    post: Ledger,
    r: Result<Event, LedgerError>,
    msg: InstantiateMsg,
) -> bool {
    if pre.initialized() {
        r == Err::<Event, LedgerError>(LedgerError::AlreadyInitialized) && post == pre
    } else {
        &&& is_event(r, sentinel(), msg.owner@, msg.initial_supply)
        &&& match post.metadata() {
            Some(m) => m.name@ == msg.name@ && m.symbol@ == msg.symbol@ && m.decimal
                == msg.decimal && m.owner@ == msg.owner@,
            None => false,
        }
        &&& post.supply() == msg.initial_supply
        &&& post.balance(msg.owner@) == msg.initial_supply
        &&& forall|b: Seq<char>| #![trigger post.balance(b)] b != msg.owner@ ==> post.balance(b) == 0
    }
}

/// What a move of `amount` from `from` to `to` does: refused on an uninitialized
/// ledger or a short balance; otherwise the debit and credit, with the supply and
/// the metadata kept. A move to the same account leaves its balance as it was.
pub open spec fn transfer_outcome(
    pre: Ledger,
    post: Ledger,
    r: Result<Event, LedgerError>,
    from: Seq<char>,
    to: Seq<char>,
    amount: u128,
) -> bool {
    if !pre.initialized() {
        r == Err::<Event, LedgerError>(LedgerError::NotFound) && post == pre
    } else if amount > pre.balance(from) {
        r == Err::<Event, LedgerError>(LedgerError::InsufficientBalance) && post == pre
    } else {
        &&& is_event(r, from, to, amount)
        &&& post.metadata() == pre.metadata()
        &&& post.supply() == pre.supply()
        &&& from == to ==> post.balance(from) == pre.balance(from)
        &&& from != to ==> post.balance(from) == pre.balance(from) - amount
        &&& from != to ==> post.balance(to) == pre.balance(to) + amount
        &&& forall|b: Seq<char>|
            #![trigger post.balance(b)]
            b != from && b != to ==> post.balance(b) == pre.balance(b)
    }
}

/// What minting `amount` for `to` does: refused on an uninitialized ledger or when
/// the supply would overflow; otherwise the balance and the supply both grow by
/// `amount`.
pub open spec fn mint_outcome(
    pre: Ledger,
    post: Ledger,
    r: Result<Event, LedgerError>,
    to: Seq<char>,
    amount: u128,
) -> bool {
    if !pre.initialized() {
        r == Err::<Event, LedgerError>(LedgerError::NotFound) && post == pre
    } else if pre.supply() + amount > u128::MAX {
        r == Err::<Event, LedgerError>(LedgerError::Overflow) && post == pre
    } else {
        &&& is_event(r, sentinel(), to, amount)
        &&& post.metadata() == pre.metadata()
        &&& post.supply() == pre.supply() + amount
        &&& post.balance(to) == pre.balance(to) + amount
        &&& forall|b: Seq<char>| #![trigger post.balance(b)] b != to ==> post.balance(b) == pre.balance(b)
    }
}

/// What burning `amount` from `from` does: refused on an uninitialized ledger or a
/// short balance; otherwise the balance and the supply both shrink by `amount`.
pub open spec fn burn_outcome(
    pre: Ledger,
    post: Ledger,
    r: Result<Event, LedgerError>,
    from: Seq<char>,
    amount: u128,
) -> bool {
    if !pre.initialized() {
        r == Err::<Event, LedgerError>(LedgerError::NotFound) && post == pre
    } else if amount > pre.balance(from) {
        r == Err::<Event, LedgerError>(LedgerError::InsufficientBalance) && post == pre
    } else {
        &&& is_event(r, from, sentinel(), amount)
        &&& post.metadata() == pre.metadata()
        &&& post.supply() == pre.supply() - amount
        &&& post.balance(from) == pre.balance(from) - amount
        &&& forall|b: Seq<char>| #![trigger post.balance(b)] b != from ==> post.balance(b) == pre.balance(b)
    }
}

/// In-memory token ledger: metadata, the stored balance entries, and the total
/// supply. An account without an entry holds zero.
pub struct Ledger {
    meta: Option<Metadata>,
    total_supply: u128,
    accounts: Vec<String>,
    amounts: Vec<u128>,
}

impl Ledger {
    /// The accounts that have a stored entry, in the order they were first stored.
    pub closed spec fn keys(&self) -> Seq<Seq<char>> {
        self.accounts@.map_values(|a: String| a@)
    }

    /// The stored balances, position by position with `keys`.
    pub closed spec fn stored(&self) -> Seq<int> {
        self.amounts@.map_values(|v: u128| v as int)
    }

    /// Keys and amounts line up and no account is stored twice.
    pub closed spec fn entries_ok(&self) -> bool {
        &&& self.accounts.len() == self.amounts.len()
        &&& self.keys().no_duplicates()
    }

    /// Well-formedness: the entries line up, the total supply is their sum, and an
    /// uninitialized ledger holds no entries.
    pub closed spec fn wf(&self) -> bool {
        &&& self.entries_ok()
        &&& self.total_supply as int == sum_of(self.stored())
        &&& self.meta.is_none() ==> self.accounts.len() == 0
    }

    pub open spec fn initialized(&self) -> bool {
        self.metadata() is Some
    }

    pub closed spec fn metadata(&self) -> Option<Metadata> {
        self.meta
    }

    pub closed spec fn supply(&self) -> int {
        self.total_supply as int
    }

    /// Whether `a` has a stored entry.
    pub closed spec fn has_entry(&self, a: Seq<char>) -> bool {
        self.keys().contains(a)
    }

    /// The balance of `a`: its stored amount, or zero without an entry.
    pub closed spec fn balance(&self, a: Seq<char>) -> int {
        if self.keys().contains(a) {
            self.amounts@[self.keys().index_of(a)] as int
        } else {
            0
        }
    }

    /// An empty ledger that has not been initialized.
    pub fn new() -> (r: Ledger)
        ensures
            r.wf(),
            !r.initialized(),
            r.supply() == 0,
            forall|a: Seq<char>| r.balance(a) == 0,
    {
        let r = Ledger { meta: None, total_supply: 0, accounts: Vec::new(), amounts: Vec::new() };
        assert(r.stored() =~= Seq::<int>::empty());
        r
    }

    pub proof fn lemma_balance_at(&self, i: int)
        requires
            self.entries_ok(),
            0 <= i < self.keys().len(),
        ensures
            self.balance(self.keys()[i]) == self.stored()[i],
            self.has_entry(self.keys()[i]),
    {
        let k = self.keys()[i];
        assert(self.keys().contains(k));
        let j = self.keys().index_of(k);
        assert(self.keys()[j] == k);
    }

    /// Stored amounts are never negative, and no two of them exceed the supply.
    pub proof fn lemma_bounds(&self, a: Seq<char>, b: Seq<char>)
        requires
            self.wf(),
        ensures
            0 <= self.balance(a) <= self.supply(),
            a != b ==> self.balance(a) + self.balance(b) <= self.supply(),
    {
        let s = self.stored();
        assert forall|k: int| 0 <= k < s.len() implies s[k] >= 0 by {}
        lemma_sum_nonneg(s);
        if self.keys().contains(a) {
            let i = self.keys().index_of(a);
            self.lemma_balance_at(i);
            lemma_entry_le_sum(s, i);
            if self.keys().contains(b) && a != b {
                let j = self.keys().index_of(b);
                self.lemma_balance_at(j);
                lemma_two_entries_le_sum(s, i, j);
            }
        } else if self.keys().contains(b) {
            let j = self.keys().index_of(b);
            self.lemma_balance_at(j);
            lemma_entry_le_sum(s, j);
        }
    }

    /// The supply is the sum of the balances of the stored accounts.
    pub proof fn lemma_supply_sum(&self)
        requires
            self.wf(),
        ensures
            self.supply() == sum_of(self.keys().map_values(|k: Seq<char>| self.balance(k))),
    {
        let m = self.keys().map_values(|k: Seq<char>| self.balance(k));
        assert forall|i: int| 0 <= i < m.len() implies m[i] == self.stored()[i] by {
            self.lemma_balance_at(i);
        }
        assert(m =~= self.stored());
    }

    /// Stores the metadata and gives `msg.initial_supply` to `msg.owner`, which the
    /// caller has validated. Refused once the ledger holds metadata.
    pub fn instantiate(&mut self, msg: InstantiateMsg) -> (r: Result<Event, LedgerError>)
        requires
            old(self).wf(),
        ensures
            final(self).wf(),
            instantiate_outcome(*old(self), *final(self), r, msg),
    {
        if self.meta.is_some() {
            return Err(LedgerError::AlreadyInitialized);
        }
        proof {
            assert(self.stored() =~= Seq::<int>::empty());
            assert(self.keys() =~= Seq::<Seq<char>>::empty());
            assert(forall|b: Seq<char>| !self.keys().contains(b));
        }
        let ghost pre = *self;
        self.set_balance(&msg.owner, msg.initial_supply);
        self.total_supply = msg.initial_supply;
        let InstantiateMsg { name, symbol, decimal, initial_supply, owner } = msg;
        let to = owner.clone();
        self.meta = Some(Metadata { name, symbol, decimal, owner });
        let nowhere = "0".to_owned();
        proof {
            reveal_strlit("0");
            assert(nowhere@ =~= sentinel());
            assert forall|b: Seq<char>| b != msg.owner@ implies self.balance(b) == 0 by {
                assert(pre.balance(b) == 0);
            }
        }
        Ok(Event { from: nowhere, to, amount: initial_supply })
    }

    /// Moves `amount` from `from` to `to`; both accounts have been validated.
    pub fn move_balance(&mut self, from: String, to: String, amount: u128) -> (r: Result<
        Event,
        LedgerError,
    >)
        requires
            old(self).wf(),
        ensures
            final(self).wf(),
            transfer_outcome(*old(self), *final(self), r, from@, to@, amount),
    {
        if self.meta.is_none() {
            return Err(LedgerError::NotFound);
        }
        let fb = self.stored_balance(&from);
        let tb = self.stored_balance(&to);
        let same = from == to;
        proof {
            self.lemma_bounds(from@, to@);
        }
        match move_amount(fb, tb, same, amount) {
            Err(e) => Err(e),
            Ok((nf, nt)) => {
                self.set_balance(&from, nf);
                self.set_balance(&to, nt);
                Ok(Event { from, to, amount })
            },
        }
    }

    /// Creates `amount` for `to`, which has been validated.
    pub fn mint(&mut self, to: String, amount: u128) -> (r: Result<Event, LedgerError>)
        requires
            old(self).wf(),
        ensures
            final(self).wf(),
            mint_outcome(*old(self), *final(self), r, to@, amount),
    {
        if self.meta.is_none() {
            return Err(LedgerError::NotFound);
        }
        let b = self.stored_balance(&to);
        proof {
            self.lemma_bounds(to@, to@);
        }
        match mint_amounts(b, self.total_supply, amount) {
            Err(e) => Err(e),
            Ok((nb, ns)) => {
                self.set_balance(&to, nb);
                self.total_supply = ns;
                let nowhere = "0".to_owned();
                proof {
                    reveal_strlit("0");
                    assert(nowhere@ =~= sentinel());
                }
                Ok(Event { from: nowhere, to, amount })
            },
        }
    }

    /// Destroys `amount` held by `from`.
    pub fn burn(&mut self, from: String, amount: u128) -> (r: Result<Event, LedgerError>)
        requires
            old(self).wf(),
        ensures
            final(self).wf(),
            burn_outcome(*old(self), *final(self), r, from@, amount),
    {
        if self.meta.is_none() {
            return Err(LedgerError::NotFound);
        }
        let b = self.stored_balance(&from);
        proof {
            self.lemma_bounds(from@, from@);
        }
        match burn_amounts(b, self.total_supply, amount) {
            Err(e) => Err(e),
            Ok((nb, ns)) => {
                self.set_balance(&from, nb);
                self.total_supply = ns;
                let nowhere = "0".to_owned();
                proof {
                    reveal_strlit("0");
                    assert(nowhere@ =~= sentinel());
                }
                Ok(Event { from, to: nowhere, amount })
            },
        }
    }

    /// The token's name; `NotFound` before initialization.
    pub fn name(&self) -> (r: Result<String, LedgerError>)
        ensures
            r == match self.metadata() {
                Some(m) => Ok::<String, LedgerError>(m.name),
                None => Err(LedgerError::NotFound),
            },
    {
        match &self.meta {
            Some(m) => Ok(m.name.clone()),
            None => Err(LedgerError::NotFound),
        }
    }

    /// The token's symbol; `NotFound` before initialization.
    pub fn symbol(&self) -> (r: Result<String, LedgerError>)
        ensures
            r == match self.metadata() {
                Some(m) => Ok::<String, LedgerError>(m.symbol),
                None => Err(LedgerError::NotFound),
            },
    {
        match &self.meta {
            Some(m) => Ok(m.symbol.clone()),
            None => Err(LedgerError::NotFound),
        }
    }

    /// The token's number of decimals; `NotFound` before initialization.
    pub fn decimal(&self) -> (r: Result<u128, LedgerError>)
        ensures
            r == match self.metadata() {
                Some(m) => Ok::<u128, LedgerError>(m.decimal),
                None => Err(LedgerError::NotFound),
            },
    {
        match &self.meta {
            Some(m) => Ok(m.decimal),
            None => Err(LedgerError::NotFound),
        }
    }

    /// The token's owner; `NotFound` before initialization.
    pub fn owner(&self) -> (r: Result<String, LedgerError>)
        ensures
            r == match self.metadata() {
                Some(m) => Ok::<String, LedgerError>(m.owner),
                None => Err(LedgerError::NotFound),
            },
    {
        match &self.meta {
            Some(m) => Ok(m.owner.clone()),
            None => Err(LedgerError::NotFound),
        }
    }

    /// The total supply; `NotFound` before initialization.
    pub fn total_supply(&self) -> (r: Result<u128, LedgerError>)
        ensures
            self.initialized() ==> r is Ok && r->Ok_0 == self.supply(),
            !self.initialized() ==> r == Err::<u128, LedgerError>(LedgerError::NotFound),
    {
        if self.meta.is_some() {
            Ok(self.total_supply)
        } else {
            Err(LedgerError::NotFound)
        }
    }

    /// Position of `a` among the stored accounts.
    fn find(&self, a: &String) -> (r: Option<usize>)
        requires
            self.entries_ok(),
        ensures
            match r {
                Some(i) => i < self.accounts.len() && self.keys()[i as int] == a@,
                None => !self.keys().contains(a@),
            },
    {
        let mut i: usize = 0;
        while i < self.accounts.len()
            invariant
                self.entries_ok(),
                i <= self.accounts.len(),
                forall|j: int| 0 <= j < i ==> self.keys()[j] != a@,
            decreases self.accounts.len() - i,
        {
            if self.accounts[i] == *a {
                return Some(i);
            }
            i = i + 1;
        }
        None
    }

    /// The balance of `a`, zero without an entry.
    pub fn stored_balance(&self, a: &String) -> (r: u128)
        requires
            self.wf(),
        ensures
            r as int == self.balance(a@),
    {
        match self.find(a) {
            Some(i) => {
                proof {
                    self.lemma_balance_at(i as int);
                }
                self.amounts[i]
            },
            None => 0,
        }
    }

    /// Stores `v` as the balance of `a`, adding an entry where it has none. The
    /// total supply is left to the caller.
    fn set_balance(&mut self, a: &String, v: u128)
        requires
            old(self).entries_ok(),
        ensures
            final(self).entries_ok(),
            final(self).meta == old(self).meta,
            final(self).total_supply == old(self).total_supply,
            sum_of(final(self).stored()) == sum_of(old(self).stored()) - old(self).balance(a@) + v,
            final(self).balance(a@) == v,
            forall|b: Seq<char>| b != a@ ==> final(self).balance(b) == old(self).balance(b),
            forall|b: Seq<char>|
                #![trigger final(self).has_entry(b)]
                final(self).has_entry(b) <==> (old(self).has_entry(b) || b == a@),
            old(self).meta.is_some() ==> final(self).meta.is_some(),
    {
        let ghost pre = *self;
        match self.find(a) {
            Some(i) => {
                proof {
                    pre.lemma_balance_at(i as int);
                    lemma_sum_update(pre.stored(), i as int, v as int);
                }
                self.amounts.set(i, v);
                proof {
                    assert(self.keys() == pre.keys());
                    assert(self.stored() =~= pre.stored().update(i as int, v as int));
                    self.lemma_balance_at(i as int);
                    assert forall|b: Seq<char>| b != a@ implies self.balance(b) == pre.balance(b) by {
                        if pre.keys().contains(b) {
                            let j = pre.keys().index_of(b);
                            pre.lemma_balance_at(j);
                            self.lemma_balance_at(j);
                        }
                    }
                }
            },
            None => {
                let k = a.clone();
                self.accounts.push(k);
                self.amounts.push(v);
                proof {
                    let n = pre.accounts.len() as int;
                    assert(self.keys() =~= pre.keys().push(a@));
                    assert(self.stored() =~= pre.stored().push(v as int));
                    lemma_sum_push(pre.stored(), v as int);
                    assert(self.keys().no_duplicates()) by {
                        assert forall|x: int, y: int|
                            0 <= x < self.keys().len() && 0 <= y < self.keys().len() && x != y
                            implies self.keys()[x] != self.keys()[y] by {
                            if x == n {
                                assert(self.keys()[y] == pre.keys()[y]);
                                if self.keys()[y] == a@ {
                                    assert(pre.keys().contains(a@));
                                }
                            } else if y == n {
                                assert(self.keys()[x] == pre.keys()[x]);
                                if self.keys()[x] == a@ {
                                    assert(pre.keys().contains(a@));
                                }
                            }
                        }
                    }
                    self.lemma_balance_at(n);
                    assert forall|b: Seq<char>| b != a@ implies self.balance(b) == pre.balance(b) by {
                        if pre.keys().contains(b) {
                            let j = pre.keys().index_of(b);
                            pre.lemma_balance_at(j);
                            self.lemma_balance_at(j);
                        } else {
                            assert(!self.keys().contains(b));
                        }
                    }
                    assert forall|b: Seq<char>|
                        #![trigger self.has_entry(b)]
                        self.has_entry(b) <==> (pre.has_entry(b) || b == a@) by {
                        if pre.has_entry(b) {
                            let j = pre.keys().index_of(b);
                            assert(self.keys()[j] == b);
                        }
                    }
                }
            },
        }
    }
}

} // verus!
