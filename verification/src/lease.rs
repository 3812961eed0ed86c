//! The exclusive lease under which a board is operated.

use vstd::prelude::*;

use crate::error::{fault, Error, ErrorCode, ErrorView};

verus! {

/// Who holds a lease.
#[derive(Debug, PartialEq, Eq)]
pub struct LeaseOwner {
    pub operation_id: String,
    pub operation: String,
}

/// What an owner is known by.
pub struct OwnerView {
    pub operation_id: Seq<char>,
    pub operation: Seq<char>,
}

impl View for LeaseOwner {
    type V = OwnerView;

    open spec fn view(&self) -> OwnerView {
        OwnerView { operation_id: self.operation_id@, operation: self.operation@ }
    }
}

impl Clone for LeaseOwner {
    fn clone(&self) -> (copy: Self)
        ensures
            copy@ == self@,
    {
        LeaseOwner { operation_id: self.operation_id.clone(), operation: self.operation.clone() }
    }
}

/// The lease of one board: held by one owner or by none.
#[derive(Debug)]
pub struct BoardLease {
    owner: Option<LeaseOwner>,
}

/// The right to end a lease, given to the one that acquired it.
#[derive(Debug)]
pub struct LeaseGuard {
    owner: LeaseOwner,
}

/// What a request for a lease that is not refused comes to.
#[derive(Debug)]
pub enum LeaseOutcome {
    /// The lease is held now.
    Granted(LeaseGuard),
    /// Another holds the lease and there is time left to wait for it.
    Wait,
}

impl View for BoardLease {
    type V = Option<OwnerView>;

    closed spec fn view(&self) -> Option<OwnerView> {
        match self.owner {
            Some(owner) => Some(owner@),
            None => None,
        }
    }
}

impl View for LeaseGuard {
    type V = OwnerView;

    closed spec fn view(&self) -> OwnerView {
        self.owner@
    }
}

impl Default for BoardLease {
    fn default() -> (lease: Self)
        ensures
            lease@ is None,
    {
        BoardLease { owner: None }
    }
}

/// The refusal of a lease that `holder` has.
pub open spec fn lease_held(holder: OwnerView) -> ErrorView {
    fault(
        ErrorCode::BoardBusy,
        "lease"@,
        "board lease is held by operation "@ + holder.operation_id,
    )
}

/// What holds of a request by `owner` with `remaining` time left, where the lease was `before`.
pub open spec fn acquired(
    before: Option<OwnerView>,
    owner: OwnerView,
    remaining: int,
    result: Result<LeaseOutcome, Error>,
    after: Option<OwnerView>,
) -> bool {
    match before {
        None => result matches Ok(LeaseOutcome::Granted(guard)) && guard@ == owner && after == Some(
            owner,
        ),
        Some(holder) => after == before && if remaining == 0 {
            result matches Err(error) && error@ == lease_held(holder)
        } else {
            result matches Ok(LeaseOutcome::Wait)
        },
    }
}

/// The lease after a guard ends: free where the guard's owner held it.
pub open spec fn released(before: Option<OwnerView>, guard: OwnerView) -> Option<OwnerView> {
    if before == Some(guard) {
        None
    } else {
        before
    }
}

impl BoardLease {
    /// Who holds the lease.
    pub fn owner(&self) -> (owner: Option<LeaseOwner>)
        ensures
            owner is Some <==> self@ is Some,
            owner matches Some(holder) ==> self@ == Some(holder@),
    {
        match &self.owner {
            Some(owner) => Some(owner.clone()),
            None => None,
        }
    }

    /// Takes a free lease. Where another holds it, the answer is to wait, or a refusal that names
    /// the holder's operation once no time remains. The unit of time does not matter.
    pub fn acquire(&mut self, owner: LeaseOwner, remaining: u128) -> (result: Result<
        LeaseOutcome,
        Error,
    >)
        ensures
            acquired(old(self)@, owner@, remaining as int, result, final(self)@),
    {
        match &self.owner {
            Some(holder) => {
                if remaining > 0 {
                    return Ok(LeaseOutcome::Wait);
                }
                let mut message = "board lease is held by operation ".to_owned();
                message.append(holder.operation_id.as_str());
                return Err(Error::new(ErrorCode::BoardBusy, "lease", message));
            },
            None => {},
        }
        self.owner = Some(owner.clone());
        Ok(LeaseOutcome::Granted(LeaseGuard { owner }))
    }

    /// Ends the lease of the guard's owner.
    pub fn release(&mut self, guard: LeaseGuard)
        ensures
            final(self)@ == released(old(self)@, guard@),
    {
        let mine = match &self.owner {
            Some(holder) => holder.operation_id == guard.owner.operation_id && holder.operation
                == guard.owner.operation,
            None => false,
        };
        if mine {
            self.owner = None;
        }
    }
}

/// A lease is exclusive: while one holds it, every request by another leaves it as it is and is
/// granted nothing.
pub proof fn lease_is_exclusive(
    holder: OwnerView,
    owner: OwnerView,
    remaining: int,
    result: Result<LeaseOutcome, Error>,
    after: Option<OwnerView>,
)
    requires
        acquired(Some(holder), owner, remaining, result, after),
    ensures
        after == Some(holder),
        !(result matches Ok(LeaseOutcome::Granted(_))),
{
}

/// A request with no time left is never told to wait: it is granted, or refused with the name of
/// the operation that holds the lease.
pub proof fn lease_wait_is_bounded(
    before: Option<OwnerView>,
    owner: OwnerView,
    result: Result<LeaseOutcome, Error>,
    after: Option<OwnerView>,
)
    requires
        acquired(before, owner, 0, result, after),
    ensures
        !(result matches Ok(LeaseOutcome::Wait)),
        result matches Err(error) ==> before matches Some(holder) && error@ == lease_held(holder),
{
}

/// To acquire a free lease and release it gives the free lease back, and nobody else's guard
/// ends it.
pub proof fn release_undoes_acquire(
    owner: OwnerView,
    remaining: int,
    result: Result<LeaseOutcome, Error>,
    after: Option<OwnerView>,
    other: OwnerView,
)
    requires
        acquired(None, owner, remaining, result, after),
        other != owner,
    ensures
        result matches Ok(LeaseOutcome::Granted(guard)) && released(after, guard@) is None,
        released(after, other) == after,
{
}

} // verus!
