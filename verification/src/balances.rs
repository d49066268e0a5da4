use crate::store::StrMap;
use crate::support::{DispatchError, DispatchResult};
use vstd::prelude::*;

verus! {

// The balances module: a ledger of fungible balances with checked transfers.
// Its abstract state is a map from account to balance; an absent account
// stands for a balance of zero.

/// An account's balance in a ledger: the stored value, or zero for an
/// account that was never written.
pub open spec fn balance_of(ledger: Map<Seq<char>, u128>, who: Seq<char>) -> u128 {
    if ledger.contains_key(who) {
        ledger[who]
    } else {
        0
    }
}

/// The ledger and result of a transfer. Both balances are read before either
/// is written, so for a self-transfer the recipient's write, computed from
/// the pre-transfer balance, lands last and the account is credited without
/// having been debited.
pub open spec fn spec_transfer(
    ledger: Map<Seq<char>, u128>,
    caller: Seq<char>,
    to: Seq<char>,
    amount: u128,
) -> (Map<Seq<char>, u128>, DispatchResult) {
    let caller_balance = balance_of(ledger, caller);
    let to_balance = balance_of(ledger, to);
    if caller_balance < amount {
        (ledger, Err(DispatchError::InsufficientBalance))
    } else if to_balance + amount > u128::MAX {
        (ledger, Err(DispatchError::Overflow))
    } else {
        (
            ledger.insert(caller, (caller_balance - amount) as u128).insert(
                to,
                (to_balance + amount) as u128,
            ),
            Ok(()),
        )
    }
}

/// The calls the balances module exposes to dispatch. The caller is supplied
/// by the dispatcher, not carried in the call.
pub enum Call {
    Transfer { to: String, amount: u128 },
}

/// The abstract form of a balances call.
pub ghost enum CallView {
    Transfer { to: Seq<char>, amount: u128 },
}

impl View for Call {
    type V = CallView;

    open spec fn view(&self) -> CallView {
        match self {
            Call::Transfer { to, amount } => CallView::Transfer { to: to@, amount: *amount },
        }
    }
}

/// The ledger and result after dispatching one balances call.
pub open spec fn spec_dispatch(
    ledger: Map<Seq<char>, u128>,
    caller: Seq<char>,
    call: CallView,
) -> (Map<Seq<char>, u128>, DispatchResult) {
    match call {
        CallView::Transfer { to, amount } => spec_transfer(ledger, caller, to, amount),
    }
}

/// The balances module's state.
#[derive(Debug)]
pub struct Pallet {
    balances: StrMap<u128>,
}

impl View for Pallet {
    type V = Map<Seq<char>, u128>;

    closed spec fn view(&self) -> Map<Seq<char>, u128> {
        self.balances@
    }
}

impl Pallet {
    /// Well-formed: the ledger stores each account at most once.
    pub closed spec fn wf(&self) -> bool {
        self.balances.wf()
    }

    /// A fresh ledger: no account has a recorded balance, so every balance
    /// reads as zero.
    pub fn new() -> (r: Self)
        ensures
            r@ == Map::<Seq<char>, u128>::empty(),
            r.wf(),
    {
        Pallet { balances: StrMap::new() }
    }

    /// Overwrite an account's balance. A privileged operation: it is not
    /// reachable through dispatch and is meant for seeding genesis state.
    pub fn set_balance(&mut self, who: &String, amount: u128)
        requires
            old(self).wf(),
        ensures
            final(self)@ == old(self)@.insert(who@, amount),
            final(self).wf(),
    {
        self.balances.insert(who.clone(), amount);
    }

    /// An account's balance: the recorded value, or zero if none was
    /// recorded.
    pub fn balance(&self, who: &String) -> (r: u128)
        requires
            self.wf(),
        ensures
            r == balance_of(self@, who@),
    {
        match self.balances.get(who) {
            Some(b) => *b,
            None => 0,
        }
    }

    /// Transfer `amount` from `caller` to `to`, all or nothing: the caller
    /// must hold at least `amount`, and the recipient's new balance must fit;
    /// otherwise the ledger is left untouched and the matching error comes
    /// back.
    pub fn transfer(&mut self, caller: String, to: String, amount: u128) -> (r: DispatchResult)
        requires
            old(self).wf(),
        ensures
            final(self)@ == spec_transfer(old(self)@, caller@, to@, amount).0,
            r == spec_transfer(old(self)@, caller@, to@, amount).1,
            final(self).wf(),
    {
        let caller_balance = self.balance(&caller);
        let to_balance = self.balance(&to);

        if caller_balance < amount {
            return Err(DispatchError::InsufficientBalance);
        }
        if amount > u128::MAX - to_balance {
            return Err(DispatchError::Overflow);
        }
        let new_caller_balance = caller_balance - amount;
        let new_to_balance = to_balance + amount;

        self.balances.insert(caller, new_caller_balance);
        self.balances.insert(to, new_to_balance);

        Ok(())
    }

    /// Route one balances call to the operation it names.
    pub fn dispatch(&mut self, caller: String, call: &Call) -> (r: DispatchResult)
        requires
            old(self).wf(),
        ensures
            final(self)@ == spec_dispatch(old(self)@, caller@, call@).0,
            r == spec_dispatch(old(self)@, caller@, call@).1,
            final(self).wf(),
    {
        match call {
            Call::Transfer { to, amount } => self.transfer(caller, to.clone(), *amount),
        }
    }
}

// What the ledger's operations guarantee, stated once and proved for every
// input they admit.

/// An account never written holds a zero balance.
pub proof fn lemma_unwritten_balance_is_zero(ledger: Map<Seq<char>, u128>, who: Seq<char>)
    requires
        !ledger.contains_key(who),
    ensures
        balance_of(ledger, who) == 0,
{
}

/// A transfer of more than the caller holds fails with
/// `InsufficientBalance` and leaves every balance unchanged.
pub proof fn lemma_transfer_insufficient(
    ledger: Map<Seq<char>, u128>,
    caller: Seq<char>,
    to: Seq<char>,
    amount: u128,
)
    requires
        amount > balance_of(ledger, caller),
    ensures
        spec_transfer(ledger, caller, to, amount).0 == ledger,
        spec_transfer(ledger, caller, to, amount).1 == Err::<(), DispatchError>(
            DispatchError::InsufficientBalance,
        ),
{
}

/// A transfer between two distinct accounts, with sufficient funds and no
/// overflow, succeeds and moves exactly `amount`: the caller's balance drops
/// by it, the recipient's rises by it, and every other balance is unchanged.
pub proof fn lemma_transfer_success(
    ledger: Map<Seq<char>, u128>,
    caller: Seq<char>,
    to: Seq<char>,
    amount: u128,
)
    requires
        caller != to,
        amount <= balance_of(ledger, caller),
        balance_of(ledger, to) + amount <= u128::MAX,
    ensures
        spec_transfer(ledger, caller, to, amount).1 == Ok::<(), DispatchError>(()),
        balance_of(spec_transfer(ledger, caller, to, amount).0, caller) == balance_of(
            ledger,
            caller,
        ) - amount,
        balance_of(spec_transfer(ledger, caller, to, amount).0, to) == balance_of(ledger, to)
            + amount,
        forall|other: Seq<char>|
            other != caller && other != to ==> balance_of(
                spec_transfer(ledger, caller, to, amount).0,
                other,
            ) == balance_of(ledger, other),
{
}

/// The total held by a list of accounts.
pub open spec fn sum_balances(ledger: Map<Seq<char>, u128>, accounts: Seq<Seq<char>>) -> int
    decreases accounts.len(),
{
    if accounts.len() == 0 {
        0
    } else {
        balance_of(ledger, accounts.first()) + sum_balances(ledger, accounts.drop_first())
    }
}

/// Overwriting one account's balance changes a duplicate-free total by
/// exactly the difference at that account, and not at all if the account is
/// not in the list.
proof fn lemma_sum_insert(
    ledger: Map<Seq<char>, u128>,
    accounts: Seq<Seq<char>>,
    who: Seq<char>,
    amount: u128,
)
    requires
        accounts.no_duplicates(),
    ensures
        sum_balances(ledger.insert(who, amount), accounts) == sum_balances(ledger, accounts) + (
        if accounts.contains(who) {
            amount - balance_of(ledger, who)
        } else {
            0
        }),
    decreases accounts.len(),
{
    if accounts.len() > 0 {
        let first = accounts.first();
        let rest = accounts.drop_first();
        assert(rest.no_duplicates());
        lemma_sum_insert(ledger, rest, who, amount);
        if first == who {
            assert(!rest.contains(who));
            assert(accounts.contains(who));
        } else {
            assert(balance_of(ledger.insert(who, amount), first) == balance_of(ledger, first));
            if accounts.contains(who) {
                let i = choose|i: int| 0 <= i < accounts.len() && accounts[i] == who;
                assert(rest[i - 1] == who);
                assert(rest.contains(who));
            } else {
                assert(!rest.contains(who));
            }
        }
    }
}

/// Conservation: a successful transfer between two distinct accounts leaves
/// the total held by any duplicate-free list of accounts containing both
/// unchanged — no value is created or destroyed. (A self-transfer is the one
/// exception: the recipient's write, computed before the debit, lands last
/// and credits the amount outright.)
pub proof fn lemma_transfer_conserves_sum(
    ledger: Map<Seq<char>, u128>,
    caller: Seq<char>,
    to: Seq<char>,
    amount: u128,
    accounts: Seq<Seq<char>>,
)
    requires
        caller != to,
        spec_transfer(ledger, caller, to, amount).1 == Ok::<(), DispatchError>(()),
        accounts.no_duplicates(),
        accounts.contains(caller),
        accounts.contains(to),
    ensures
        sum_balances(spec_transfer(ledger, caller, to, amount).0, accounts) == sum_balances(
            ledger,
            accounts,
        ),
{
    let caller_balance = balance_of(ledger, caller);
    let to_balance = balance_of(ledger, to);
    let debited = ledger.insert(caller, (caller_balance - amount) as u128);
    lemma_sum_insert(ledger, accounts, caller, (caller_balance - amount) as u128);
    assert(balance_of(debited, to) == to_balance);
    lemma_sum_insert(debited, accounts, to, (to_balance + amount) as u128);
}

/// The ledger after a chain of transfers, applied in order whether or not
/// they succeed (a failing one leaves the ledger as it was).
pub open spec fn spec_transfer_chain(
    ledger: Map<Seq<char>, u128>,
    transfers: Seq<(Seq<char>, Seq<char>, u128)>,
) -> Map<Seq<char>, u128>
    decreases transfers.len(),
{
    if transfers.len() == 0 {
        ledger
    } else {
        let t = transfers.first();
        spec_transfer_chain(spec_transfer(ledger, t.0, t.1, t.2).0, transfers.drop_first())
    }
}

/// Whether every transfer in the chain succeeds when its turn comes.
pub open spec fn chain_succeeds(
    ledger: Map<Seq<char>, u128>,
    transfers: Seq<(Seq<char>, Seq<char>, u128)>,
) -> bool
    decreases transfers.len(),
{
    transfers.len() == 0 || {
        let t = transfers.first();
        spec_transfer(ledger, t.0, t.1, t.2).1 == Ok::<(), DispatchError>(())
            && chain_succeeds(spec_transfer(ledger, t.0, t.1, t.2).0, transfers.drop_first())
    }
}

/// Conservation over a whole chain: any sequence of only-successful
/// transfers, none of them a self-transfer, leaves the total held by a
/// duplicate-free list of accounts containing every party unchanged.
pub proof fn lemma_chain_conserves_sum(
    ledger: Map<Seq<char>, u128>,
    transfers: Seq<(Seq<char>, Seq<char>, u128)>,
    accounts: Seq<Seq<char>>,
)
    requires
        chain_succeeds(ledger, transfers),
        accounts.no_duplicates(),
        forall|k: int|
            0 <= k < transfers.len() ==> #[trigger] transfers[k].0 != transfers[k].1
                && accounts.contains(transfers[k].0) && accounts.contains(transfers[k].1),
    ensures
        sum_balances(spec_transfer_chain(ledger, transfers), accounts) == sum_balances(
            ledger,
            accounts,
        ),
    decreases transfers.len(),
{
    if transfers.len() > 0 {
        let t = transfers.first();
        assert(transfers[0] == t);
        let stepped = spec_transfer(ledger, t.0, t.1, t.2).0;
        lemma_transfer_conserves_sum(ledger, t.0, t.1, t.2, accounts);
        assert(forall|k: int|
            0 <= k < transfers.drop_first().len() ==> transfers.drop_first()[k]
                == transfers[k + 1]);
        lemma_chain_conserves_sum(stepped, transfers.drop_first(), accounts);
    }
}

} // verus!
