//! A minimal deterministic state-transition engine for a ledger-like chain:
//! independent state modules (system, balances, proof-of-existence) composed
//! into one runtime, driven by blocks of signed-caller extrinsics.

pub mod balances;
pub mod proof_of_existence;
pub mod store;
pub mod support;
pub mod system;

use vstd::prelude::*;

use support::{DispatchError, DispatchResult};

verus! {

// The concrete types this runtime instantiates the modules with.
pub type AccountId = String;

pub type Balance = u128;

pub type BlockNumber = u32;

pub type Nonce = u32;

pub type Content = String;

pub type Header = support::Header<BlockNumber>;

pub type Extrinsic = support::Extrinsic<AccountId, RuntimeCall>;

pub type Block = support::Block<Header, Extrinsic>;

/// Every call the runtime exposes: one variant per module, each wrapping
/// that module's own call union.
pub enum RuntimeCall {
    Balances(balances::Call),
    ProofOfExistence(proof_of_existence::Call),
}

/// The abstract form of a runtime call.
pub ghost enum RuntimeCallView {
    Balances(balances::CallView),
    ProofOfExistence(proof_of_existence::CallView),
}

impl View for RuntimeCall {
    type V = RuntimeCallView;

    open spec fn view(&self) -> RuntimeCallView {
        match self {
            RuntimeCall::Balances(call) => RuntimeCallView::Balances(call@),
            RuntimeCall::ProofOfExistence(call) => RuntimeCallView::ProofOfExistence(call@),
        }
    }
}

/// The abstract form of an extrinsic: who calls, and what.
#[verifier::ext_equal]
pub ghost struct ExtrinsicView {
    pub caller: Seq<char>,
    pub call: RuntimeCallView,
}

impl View for Extrinsic {
    type V = ExtrinsicView;

    open spec fn view(&self) -> ExtrinsicView {
        ExtrinsicView { caller: self.caller@, call: self.call@ }
    }
}

/// The abstract form of a block: its declared number and its extrinsics, in
/// order.
#[verifier::ext_equal]
pub ghost struct BlockView {
    pub block_number: u32,
    pub extrinsics: Seq<ExtrinsicView>,
}

impl View for Block {
    type V = BlockView;

    open spec fn view(&self) -> BlockView {
        BlockView {
            block_number: self.header.block_number,
            extrinsics: self.extrinsics@.map_values(|e: Extrinsic| e@),
        }
    }
}

/// The whole chain state the runtime aggregates: the chain head, the nonce
/// table, the balance ledger and the claim table.
#[verifier::ext_equal]
pub ghost struct StateView {
    pub block_number: u32,
    pub nonces: Map<Seq<char>, u32>,
    pub claims: Map<Seq<char>, Seq<char>>,
    pub balances: Map<Seq<char>, u128>,
}

/// The state the runtime is constructed in: head zero, every table empty.
pub open spec fn genesis_state() -> StateView {
    StateView {
        block_number: 0,
        nonces: Map::empty(),
        claims: Map::empty(),
        balances: Map::empty(),
    }
}

/// The state and result after dispatching one call: exactly one level of
/// demultiplexing, the named module's own dispatch doing the work.
pub open spec fn spec_dispatch(s: StateView, caller: Seq<char>, call: RuntimeCallView) -> (
    StateView,
    DispatchResult,
) {
    match call {
        RuntimeCallView::Balances(call) => {
            let (ledger, r) = balances::spec_dispatch(s.balances, caller, call);
            (StateView { balances: ledger, ..s }, r)
        }
        RuntimeCallView::ProofOfExistence(call) => {
            let (claims, r) = proof_of_existence::spec_dispatch(s.claims, caller, call);
            (StateView { claims, ..s }, r)
        }
    }
}

/// The state after one extrinsic is processed: the caller's nonce goes up
/// whatever happens next, then the call is dispatched and its error, if any,
/// is recorded and dropped — it never alters the state beyond what the
/// module's own checks allowed.
pub open spec fn spec_apply_extrinsic(s: StateView, e: ExtrinsicView) -> StateView {
    let counted = StateView { nonces: system::spec_inc_nonce(s.nonces, e.caller), ..s };
    spec_dispatch(counted, e.caller, e.call).0
}

/// The state after a sequence of extrinsics is processed in order.
pub open spec fn spec_execute_extrinsics(s: StateView, exts: Seq<ExtrinsicView>) -> StateView
    decreases exts.len(),
{
    if exts.len() == 0 {
        s
    } else {
        spec_execute_extrinsics(spec_apply_extrinsic(s, exts.first()), exts.drop_first())
    }
}

/// How many of these extrinsics name `caller` as their caller.
pub open spec fn extrinsic_count(exts: Seq<ExtrinsicView>, caller: Seq<char>) -> nat
    decreases exts.len(),
{
    if exts.len() == 0 {
        0
    } else {
        (if exts.first().caller == caller {
            1nat
        } else {
            0nat
        }) + extrinsic_count(exts.drop_first(), caller)
    }
}

/// Whether every caller's nonce can absorb the extrinsics that name it
/// without leaving `u32`.
pub open spec fn nonces_fit(nonces: Map<Seq<char>, u32>, exts: Seq<ExtrinsicView>) -> bool {
    forall|a: Seq<char>|
        system::nonce_of(nonces, a) + extrinsic_count(exts, a) <= u32::MAX
}

/// The machine limits under which a block can be executed from state `s`:
/// the head must have room to advance, and, if the block will be accepted,
/// every caller's nonce must have room for its extrinsics.
pub open spec fn block_fits(s: StateView, b: BlockView) -> bool {
    &&& s.block_number < u32::MAX
    &&& (b.block_number == s.block_number + 1 ==> nonces_fit(s.nonces, b.extrinsics))
}

/// The state and result of executing one block: the head advances by one
/// before anything else; a block whose declared number then misses the head
/// is rejected outright, with no extrinsic processed; otherwise every
/// extrinsic is attempted, in order, and the block succeeds regardless of
/// how many of them failed.
pub open spec fn spec_execute_block(s: StateView, b: BlockView) -> (StateView, DispatchResult) {
    let advanced = StateView { block_number: (s.block_number + 1) as u32, ..s };
    if b.block_number != advanced.block_number {
        (advanced, Err(DispatchError::BlockNumberMismatch))
    } else {
        (spec_execute_extrinsics(advanced, b.extrinsics), Ok(()))
    }
}

/// The runtime: one instance of every module, and the block executor over
/// them.
#[derive(Debug)]
pub struct Runtime {
    pub system: system::Pallet,
    pub balances: balances::Pallet,
    pub proof_of_existence: proof_of_existence::Pallet,
}

impl View for Runtime {
    type V = StateView;

    closed spec fn view(&self) -> StateView {
        StateView {
            block_number: self.system@.block_number,
            nonces: self.system@.nonces,
            claims: self.proof_of_existence@,
            balances: self.balances@,
        }
    }
}

impl Runtime {
    /// Well-formed: every module's state is.
    pub open spec fn wf(&self) -> bool {
        &&& self.system.wf()
        &&& self.balances.wf()
        &&& self.proof_of_existence.wf()
    }

    /// A fresh runtime, in the genesis state.
    pub fn new() -> (r: Self)
        ensures
            r@ == genesis_state(),
            r.wf(),
    {
        Runtime {
            system: system::Pallet::new(),
            balances: balances::Pallet::new(),
            proof_of_existence: proof_of_existence::Pallet::new(),
        }
    }

    /// Dispatch a call on behalf of a caller: route it to the module it
    /// names, forwarding caller and inner call unchanged.
    pub fn dispatch(&mut self, caller: String, runtime_call: &RuntimeCall) -> (r: DispatchResult)
        requires
            old(self).wf(),
        ensures
            final(self)@ == spec_dispatch(old(self)@, caller@, runtime_call@).0,
            r == spec_dispatch(old(self)@, caller@, runtime_call@).1,
            final(self).wf(),
    {
        match runtime_call {
            RuntimeCall::Balances(call) => self.balances.dispatch(caller, call),
            RuntimeCall::ProofOfExistence(call) => self.proof_of_existence.dispatch(caller, call),
        }
    }

    /// Execute one block. The chain head advances by exactly one, before
    /// validation, so even a rejected block consumes a head slot. A block
    /// whose declared number does not equal the advanced head fails with
    /// `BlockNumberMismatch` and none of its extrinsics is processed.
    /// Otherwise each extrinsic, in order, has its caller's nonce counted
    /// and its call dispatched; a failing dispatch is contained and never
    /// surfaces as the block's result.
    pub fn execute_block(&mut self, block: Block) -> (r: DispatchResult)
        requires
            old(self).wf(),
            block_fits(old(self)@, block@),
        ensures
            final(self)@ == spec_execute_block(old(self)@, block@).0,
            r == spec_execute_block(old(self)@, block@).1,
            final(self).wf(),
    {
        self.system.inc_block_number();

        if block.header.block_number != self.system.block_number() {
            return Err(DispatchError::BlockNumberMismatch);
        }

        let ghost advanced = self@;
        let ghost views = block@.extrinsics;
        proof {
            assert(views.skip(0) =~= views);
        }
        let n = block.extrinsics.len();
        let mut i: usize = 0;
        while i < n
            invariant
                i <= n,
                n == block.extrinsics.len(),
                views == block@.extrinsics,
                self.wf(),
                nonces_fit(self@.nonces, views.skip(i as int)),
                spec_execute_extrinsics(self@, views.skip(i as int)) == spec_execute_extrinsics(
                    advanced,
                    views,
                ),
            decreases n - i,
        {
            let ghost suffix = views.skip(i as int);
            let ghost before = self@;
            let extrinsic = &block.extrinsics[i];
            proof {
                assert(suffix[0] == views[i as int]);
                assert(suffix.first() == extrinsic@);
                assert(suffix.drop_first() =~= views.skip(i as int + 1));
                // The caller heads this suffix, so its count there is at
                // least one and the nonce has room.
                assert(extrinsic_count(suffix, extrinsic@.caller) == 1 + extrinsic_count(
                    suffix.drop_first(),
                    extrinsic@.caller,
                ));
                assert(system::nonce_of(self@.nonces, extrinsic@.caller) + extrinsic_count(
                    suffix,
                    extrinsic@.caller,
                ) <= u32::MAX);
            }
            self.system.inc_nonce(&extrinsic.caller);
            // A dispatch failure is contained: it is dropped here and the
            // loop carries on with the next extrinsic.
            let _res = self.dispatch(extrinsic.caller.clone(), &extrinsic.call);
            proof {
                assert(self@ == spec_apply_extrinsic(before, extrinsic@));
                lemma_apply_extrinsic_nonces(before, extrinsic@);
                assert forall|a: Seq<char>|
                    system::nonce_of(self@.nonces, a) + extrinsic_count(
                        views.skip(i as int + 1),
                        a,
                    ) <= u32::MAX by {
                    assert(system::nonce_of(before.nonces, a) + extrinsic_count(suffix, a)
                        <= u32::MAX);
                    assert(extrinsic_count(suffix, a) == (if extrinsic@.caller == a {
                        1nat
                    } else {
                        0nat
                    }) + extrinsic_count(views.skip(i as int + 1), a));
                }
            }
            i = i + 1;
        }
        proof {
            assert(views.skip(n as int) =~= Seq::<ExtrinsicView>::empty());
        }
        Ok(())
    }
}

/// Counting distributes over appending one extrinsic.
proof fn lemma_count_push(exts: Seq<ExtrinsicView>, e: ExtrinsicView, caller: Seq<char>)
    ensures
        extrinsic_count(exts.push(e), caller) == extrinsic_count(exts, caller) + (
        if e.caller == caller {
            1nat
        } else {
            0nat
        }),
    decreases exts.len(),
{
    if exts.len() == 0 {
        assert(exts.push(e).first() == e);
        assert(exts.push(e).drop_first() =~= Seq::<ExtrinsicView>::empty());
        assert(extrinsic_count(Seq::<ExtrinsicView>::empty(), caller) == 0);
        assert(extrinsic_count(exts, caller) == 0);
    } else {
        assert(exts.push(e).first() == exts.first());
        assert(exts.push(e).drop_first() =~= exts.drop_first().push(e));
        lemma_count_push(exts.drop_first(), e, caller);
    }
}

/// An account no extrinsic names is counted zero times.
proof fn lemma_count_absent(exts: Seq<ExtrinsicView>, caller: Seq<char>)
    requires
        forall|j: int| 0 <= j < exts.len() ==> exts[j].caller != caller,
    ensures
        extrinsic_count(exts, caller) == 0,
    decreases exts.len(),
{
    if exts.len() > 0 {
        assert(forall|j: int|
            0 <= j < exts.drop_first().len() ==> exts.drop_first()[j].caller != caller);
        lemma_count_absent(exts.drop_first(), caller);
    }
}

/// If every account that some extrinsic names has room for its count, then
/// every account at all does: the others are counted zero times.
proof fn lemma_nonces_fit_from_callers(nonces: Map<Seq<char>, u32>, exts: Seq<ExtrinsicView>)
    requires
        forall|j: int|
            0 <= j < exts.len() ==> system::nonce_of(nonces, exts[j].caller) + extrinsic_count(
                exts,
                exts[j].caller,
            ) <= u32::MAX,
    ensures
        nonces_fit(nonces, exts),
{
    assert forall|a: Seq<char>|
        system::nonce_of(nonces, a) + extrinsic_count(exts, a) <= u32::MAX by {
        if exists|j: int| 0 <= j < exts.len() && exts[j].caller == a {
            let j = choose|j: int| 0 <= j < exts.len() && exts[j].caller == a;
            assert(system::nonce_of(nonces, exts[j].caller) + extrinsic_count(
                exts,
                exts[j].caller,
            ) <= u32::MAX);
        } else {
            lemma_count_absent(exts, a);
        }
    }
}

/// How many extrinsics of this block name `caller`.
fn count_extrinsics_by(extrinsics: &Vec<Extrinsic>, caller: &String) -> (c: usize)
    ensures
        c == extrinsic_count(extrinsics@.map_values(|e: Extrinsic| e@), caller@),
{
    let ghost views = extrinsics@.map_values(|e: Extrinsic| e@);
    let n = extrinsics.len();
    let mut c: usize = 0;
    let mut i: usize = 0;
    while i < n
        invariant
            i <= n,
            c <= i,
            n == extrinsics.len(),
            views == extrinsics@.map_values(|e: Extrinsic| e@),
            c == extrinsic_count(views.take(i as int), caller@),
        decreases n - i,
    {
        proof {
            assert(views.take(i as int + 1) =~= views.take(i as int).push(views[i as int]));
            lemma_count_push(views.take(i as int), views[i as int], caller@);
        }
        if extrinsics[i].caller == *caller {
            c = c + 1;
        }
        i = i + 1;
    }
    proof {
        assert(views.take(n as int) =~= views);
    }
    c
}

impl Runtime {
    /// Whether `execute_block` can take this block from the current state
    /// without leaving the machine's integer range: the head must have room
    /// to advance and, if the block would be accepted, every caller's nonce
    /// must have room for the extrinsics that name it.
    pub fn can_execute(&self, block: &Block) -> (r: bool)
        requires
            self.wf(),
        ensures
            r == block_fits(self@, block@),
    {
        let head = self.system.block_number();
        if head == u32::MAX {
            return false;
        }
        if block.header.block_number != head + 1 {
            return true;
        }
        let ghost views = block@.extrinsics;
        let n = block.extrinsics.len();
        let mut i: usize = 0;
        while i < n
            invariant
                i <= n,
                n == block.extrinsics.len(),
                views == block@.extrinsics,
                self.wf(),
                self@.block_number < u32::MAX,
                block.header.block_number == self@.block_number + 1,
                forall|j: int|
                    0 <= j < i ==> system::nonce_of(self@.nonces, views[j].caller)
                        + extrinsic_count(views, views[j].caller) <= u32::MAX,
            decreases n - i,
        {
            let caller = &block.extrinsics[i].caller;
            let nonce = self.system.nonce(caller);
            let count = count_extrinsics_by(&block.extrinsics, caller);
            if count > (u32::MAX - nonce) as usize {
                proof {
                    assert(system::nonce_of(self@.nonces, views[i as int].caller)
                        + extrinsic_count(views, views[i as int].caller) > u32::MAX);
                    assert(!nonces_fit(self@.nonces, views)) by {
                        if nonces_fit(self@.nonces, views) {
                            assert(system::nonce_of(self@.nonces, views[i as int].caller)
                                + extrinsic_count(views, views[i as int].caller) <= u32::MAX);
                        }
                    }
                }
                return false;
            }
            i = i + 1;
        }
        proof {
            lemma_nonces_fit_from_callers(self@.nonces, views);
        }
        true
    }
}

/// Dispatch touches only the module its call names: the chain head and the
/// nonce table come through unchanged.
pub proof fn lemma_dispatch_preserves_system(
    s: StateView,
    caller: Seq<char>,
    call: RuntimeCallView,
)
    ensures
        spec_dispatch(s, caller, call).0.block_number == s.block_number,
        spec_dispatch(s, caller, call).0.nonces == s.nonces,
{
}

/// Processing one extrinsic raises its caller's nonce by exactly one — read
/// as zero if never written, and independent of whether the dispatched call
/// succeeded — and leaves every other account's nonce unchanged.
pub proof fn lemma_apply_extrinsic_nonces(s: StateView, e: ExtrinsicView)
    ensures
        system::nonce_of(spec_apply_extrinsic(s, e).nonces, e.caller) == (system::nonce_of(
            s.nonces,
            e.caller,
        ) + 1) as u32,
        forall|a: Seq<char>|
            a != e.caller ==> system::nonce_of(spec_apply_extrinsic(s, e).nonces, a)
                == system::nonce_of(s.nonces, a),
{
    let counted = StateView { nonces: system::spec_inc_nonce(s.nonces, e.caller), ..s };
    lemma_dispatch_preserves_system(counted, e.caller, e.call);
}

/// Over a whole sequence of extrinsics, an account's nonce rises by exactly
/// the number of extrinsics that name it as caller — dispatch outcomes play
/// no part.
pub proof fn lemma_extrinsics_count_nonce(s: StateView, exts: Seq<ExtrinsicView>, a: Seq<char>)
    requires
        system::nonce_of(s.nonces, a) + extrinsic_count(exts, a) <= u32::MAX,
    ensures
        system::nonce_of(spec_execute_extrinsics(s, exts).nonces, a) == system::nonce_of(
            s.nonces,
            a,
        ) + extrinsic_count(exts, a),
    decreases exts.len(),
{
    if exts.len() > 0 {
        let stepped = spec_apply_extrinsic(s, exts.first());
        lemma_apply_extrinsic_nonces(s, exts.first());
        lemma_extrinsics_count_nonce(stepped, exts.drop_first(), a);
    }
}

/// Processing extrinsics never moves the chain head.
pub proof fn lemma_extrinsics_preserve_head(s: StateView, exts: Seq<ExtrinsicView>)
    ensures
        spec_execute_extrinsics(s, exts).block_number == s.block_number,
    decreases exts.len(),
{
    if exts.len() > 0 {
        let e = exts.first();
        let counted = StateView { nonces: system::spec_inc_nonce(s.nonces, e.caller), ..s };
        lemma_dispatch_preserves_system(counted, e.caller, e.call);
        lemma_extrinsics_preserve_head(spec_apply_extrinsic(s, e), exts.drop_first());
    }
}

/// Executing a block advances the chain head by exactly one, whether or not
/// the block is accepted: a rejected block still consumes its head slot.
pub proof fn lemma_block_advances_head(s: StateView, b: BlockView)
    requires
        s.block_number < u32::MAX,
    ensures
        spec_execute_block(s, b).0.block_number == s.block_number + 1,
{
    let advanced = StateView { block_number: (s.block_number + 1) as u32, ..s };
    lemma_extrinsics_preserve_head(advanced, b.extrinsics);
}

/// Nonce accounting over one block: an accepted block raises each account's
/// nonce by exactly the number of its extrinsics naming that account as
/// caller, failed dispatches included; a rejected block touches no state but
/// the head.
pub proof fn lemma_block_nonce_accounting(s: StateView, b: BlockView, a: Seq<char>)
    requires
        block_fits(s, b),
    ensures
        b.block_number == s.block_number + 1 ==> system::nonce_of(
            spec_execute_block(s, b).0.nonces,
            a,
        ) == system::nonce_of(s.nonces, a) + extrinsic_count(b.extrinsics, a),
        b.block_number != s.block_number + 1 ==> spec_execute_block(s, b).0 == (StateView {
            block_number: (s.block_number + 1) as u32,
            ..s
        }),
{
    if b.block_number == s.block_number + 1 {
        let advanced = StateView { block_number: (s.block_number + 1) as u32, ..s };
        lemma_extrinsics_count_nonce(advanced, b.extrinsics, a);
    }
}

} // verus!
