use crate::store::StrMap;
use crate::support::{DispatchError, DispatchResult};
use vstd::prelude::*;

verus! {

// The proof-of-existence module: exclusive ownership of opaque content by
// an account. Its abstract state is a map from content to owner; content
// with no entry is unclaimed, and a revoked claim is removed outright, so an
// absent claim and a revoked one are indistinguishable.

/// The claim table and result after one attempt to claim `claim` for
/// `caller`: content already claimed by anyone is refused.
pub open spec fn spec_create_claim(
    claims: Map<Seq<char>, Seq<char>>,
    caller: Seq<char>,
    claim: Seq<char>,
) -> (Map<Seq<char>, Seq<char>>, DispatchResult) {
    if claims.contains_key(claim) {
        (claims, Err(DispatchError::AlreadyClaimed))
    } else {
        (claims.insert(claim, caller), Ok(()))
    }
}

/// The claim table and result after one attempt by `caller` to revoke
/// `claim`: only the owner of an existing claim may revoke it, and a missing
/// claim fails with the same error as someone else's.
pub open spec fn spec_revoke_claim(
    claims: Map<Seq<char>, Seq<char>>,
    caller: Seq<char>,
    claim: Seq<char>,
) -> (Map<Seq<char>, Seq<char>>, DispatchResult) {
    if claims.contains_key(claim) && claims[claim] == caller {
        (claims.remove(claim), Ok(()))
    } else {
        (claims, Err(DispatchError::NotClaimOwner))
    }
}

/// The calls the proof-of-existence module exposes to dispatch. The caller
/// is supplied by the dispatcher, not carried in the call.
pub enum Call {
    CreateClaim { claim: String },
    RevokeClaim { claim: String },
}

/// The abstract form of a proof-of-existence call.
pub ghost enum CallView {
    CreateClaim { claim: Seq<char> },
    RevokeClaim { claim: Seq<char> },
}

impl View for Call {
    type V = CallView;

    open spec fn view(&self) -> CallView {
        match self {
            Call::CreateClaim { claim } => CallView::CreateClaim { claim: claim@ },
            Call::RevokeClaim { claim } => CallView::RevokeClaim { claim: claim@ },
        }
    }
}

/// The claim table and result after dispatching one proof-of-existence call.
pub open spec fn spec_dispatch(
    claims: Map<Seq<char>, Seq<char>>,
    caller: Seq<char>,
    call: CallView,
) -> (Map<Seq<char>, Seq<char>>, DispatchResult) {
    match call {
        CallView::CreateClaim { claim } => spec_create_claim(claims, caller, claim),
        CallView::RevokeClaim { claim } => spec_revoke_claim(claims, caller, claim),
    }
}

/// The proof-of-existence module's state.
#[derive(Debug)]
pub struct Pallet {
    claims: StrMap<String>,
}

impl View for Pallet {
    type V = Map<Seq<char>, Seq<char>>;

    closed spec fn view(&self) -> Map<Seq<char>, Seq<char>> {
        self.claims@
    }
}

impl Pallet {
    /// Well-formed: the claim table stores each content at most once.
    pub closed spec fn wf(&self) -> bool {
        self.claims.wf()
    }

    /// A fresh module: nothing is claimed, by anyone.
    pub fn new() -> (r: Self)
        ensures
            r@ == Map::<Seq<char>, Seq<char>>::empty(),
            r.wf(),
    {
        Pallet { claims: StrMap::new() }
    }

    /// The owner of a claim, if anyone holds one.
    pub fn get_claim(&self, claim: &String) -> (r: Option<&String>)
        requires
            self.wf(),
        ensures
            match r {
                Some(owner) => self@.contains_key(claim@) && owner@ == self@[claim@],
                None => !self@.contains_key(claim@),
            },
    {
        self.claims.get(claim)
    }

    /// Claim `claim` for `caller`; fails if anyone already claimed it.
    pub fn create_claim(&mut self, caller: String, claim: String) -> (r: DispatchResult)
        requires
            old(self).wf(),
        ensures
            final(self)@ == spec_create_claim(old(self)@, caller@, claim@).0,
            r == spec_create_claim(old(self)@, caller@, claim@).1,
            final(self).wf(),
    {
        if self.claims.contains_key(&claim) {
            return Err(DispatchError::AlreadyClaimed);
        }
        self.claims.insert(claim, caller);
        Ok(())
    }

    /// Revoke an existing claim of `caller` on `claim`; fails if the claim
    /// is missing or held by someone else.
    pub fn revoke_claim(&mut self, caller: String, claim: String) -> (r: DispatchResult)
        requires
            old(self).wf(),
        ensures
            final(self)@ == spec_revoke_claim(old(self)@, caller@, claim@).0,
            r == spec_revoke_claim(old(self)@, caller@, claim@).1,
            final(self).wf(),
    {
        let owner = self.claims.get(&claim);
        let caller_owns = match owner {
            Some(account) => *account == caller,
            None => false,
        };
        if caller_owns {
            self.claims.remove(&claim);
            Ok(())
        } else {
            Err(DispatchError::NotClaimOwner)
        }
    }

    /// Route one proof-of-existence call to the operation it names.
    pub fn dispatch(&mut self, caller: String, call: &Call) -> (r: DispatchResult)
        requires
            old(self).wf(),
        ensures
            final(self)@ == spec_dispatch(old(self)@, caller@, call@).0,
            r == spec_dispatch(old(self)@, caller@, call@).1,
            final(self).wf(),
    {
        match call {
            Call::CreateClaim { claim } => self.create_claim(caller, claim.clone()),
            Call::RevokeClaim { claim } => self.revoke_claim(caller, claim.clone()),
        }
    }
}

// What the claim table's operations guarantee, stated once and proved for
// every input they admit.

/// In a fresh claim table no lookup is satisfied: nothing is owned by
/// anyone.
pub proof fn lemma_empty_claims_unclaimed(claim: Seq<char>)
    ensures
        !Map::<Seq<char>, Seq<char>>::empty().contains_key(claim),
{
}

/// Claiming content that is already claimed fails with `AlreadyClaimed` and
/// leaves the original owner in place.
pub proof fn lemma_create_claim_already_claimed(
    claims: Map<Seq<char>, Seq<char>>,
    caller: Seq<char>,
    claim: Seq<char>,
)
    requires
        claims.contains_key(claim),
    ensures
        spec_create_claim(claims, caller, claim).0 == claims,
        spec_create_claim(claims, caller, claim).0[claim] == claims[claim],
        spec_create_claim(claims, caller, claim).1 == Err::<(), DispatchError>(
            DispatchError::AlreadyClaimed,
        ),
{
}

/// Revocation by the true owner of an existing claim succeeds and the
/// content becomes unclaimed, while every other claim stands.
pub proof fn lemma_revoke_claim_by_owner(
    claims: Map<Seq<char>, Seq<char>>,
    caller: Seq<char>,
    claim: Seq<char>,
)
    requires
        claims.contains_key(claim),
        claims[claim] == caller,
    ensures
        spec_revoke_claim(claims, caller, claim).1 == Ok::<(), DispatchError>(()),
        !spec_revoke_claim(claims, caller, claim).0.contains_key(claim),
        forall|other: Seq<char>|
            other != claim ==> #[trigger] spec_revoke_claim(claims, caller, claim).0.contains_key(
                other,
            ) == claims.contains_key(other),
        forall|other: Seq<char>|
            other != claim && claims.contains_key(other) ==> #[trigger] spec_revoke_claim(
                claims,
                caller,
                claim,
            ).0[other] == claims[other],
{
}

/// Revocation by a non-owner, or of content no one claimed, fails — and
/// with the same error either way — and leaves the claim table unchanged.
pub proof fn lemma_revoke_claim_refused(
    claims: Map<Seq<char>, Seq<char>>,
    caller: Seq<char>,
    claim: Seq<char>,
)
    requires
        !claims.contains_key(claim) || claims[claim] != caller,
    ensures
        spec_revoke_claim(claims, caller, claim).0 == claims,
        spec_revoke_claim(claims, caller, claim).1 == Err::<(), DispatchError>(
            DispatchError::NotClaimOwner,
        ),
{
}

} // verus!
