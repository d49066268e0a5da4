use crate::store::StrMap;
use vstd::prelude::*;

verus! {

// The system module: the chain head (the current block number) and a
// per-account counter of dispatched extrinsics (the nonce).

/// The abstract state of the system module.
pub ghost struct SystemView {
    /// The current block number.
    pub block_number: u32,
    /// Per-account nonces; an absent account stands for zero.
    pub nonces: Map<Seq<char>, u32>,
}

/// An account's nonce in a nonce table: the stored value, or zero for an
/// account that was never written.
pub open spec fn nonce_of(nonces: Map<Seq<char>, u32>, account: Seq<char>) -> u32 {
    if nonces.contains_key(account) {
        nonces[account]
    } else {
        0
    }
}

/// The nonce table after one extrinsic of `account` is dispatched: its
/// counter, read as zero when absent, goes up by one.
pub open spec fn spec_inc_nonce(nonces: Map<Seq<char>, u32>, account: Seq<char>) -> Map<
    Seq<char>,
    u32,
> {
    nonces.insert(account, (nonce_of(nonces, account) + 1) as u32)
}

/// The system module's state.
#[derive(Debug)]
pub struct Pallet {
    block_number: u32,
    nonce: StrMap<u32>,
}

impl View for Pallet {
    type V = SystemView;

    closed spec fn view(&self) -> SystemView {
        SystemView { block_number: self.block_number, nonces: self.nonce@ }
    }
}

impl Pallet {
    /// Well-formed: the nonce table stores each account at most once.
    pub closed spec fn wf(&self) -> bool {
        self.nonce.wf()
    }

    /// A fresh system module: the chain head is zero and no account has a
    /// recorded nonce.
    pub fn new() -> (r: Self)
        ensures
            r@.block_number == 0,
            r@.nonces == Map::<Seq<char>, u32>::empty(),
            r.wf(),
    {
        Pallet { block_number: 0, nonce: StrMap::new() }
    }

    /// The current block number.
    pub fn block_number(&self) -> (r: u32)
        ensures
            r == self@.block_number,
    {
        self.block_number
    }

    /// Advance the chain head by exactly one.
    pub fn inc_block_number(&mut self)
        requires
            old(self)@.block_number < u32::MAX,
        ensures
            final(self)@.block_number == old(self)@.block_number + 1,
            final(self)@.nonces == old(self)@.nonces,
            final(self).wf() == old(self).wf(),
    {
        self.block_number = self.block_number + 1;
    }

    /// An account's nonce: the recorded count, or zero if none was recorded.
    pub fn nonce(&self, account: &String) -> (r: u32)
        requires
            self.wf(),
        ensures
            r == nonce_of(self@.nonces, account@),
    {
        match self.nonce.get(account) {
            Some(n) => *n,
            None => 0,
        }
    }

    /// Count one more dispatched extrinsic against `account`.
    pub fn inc_nonce(&mut self, account: &String)
        requires
            old(self).wf(),
            nonce_of(old(self)@.nonces, account@) < u32::MAX,
        ensures
            final(self)@.nonces == spec_inc_nonce(old(self)@.nonces, account@),
            final(self)@.block_number == old(self)@.block_number,
            final(self).wf(),
    {
        let current = self.nonce(account);
        self.nonce.insert(account.clone(), current + 1);
    }
}

} // verus!
