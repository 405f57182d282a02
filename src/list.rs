use std::collections::HashMap;
use vstd::prelude::*;

use crate::sys::Token;

verus! {

broadcast use vstd::std_specs::hash::group_hash_axioms;

/// Why a source could not be inserted.
#[derive(Clone, Copy, Debug, PartialEq, Eq, Structural)]
pub enum InsertError {
    /// Every token this loop can issue has been issued.
    TokensExhausted,
    /// The polling backend rejected the descriptor (duplicate or invalid).
    Rejected { errno: i32 },
    /// The polling backend failed for another reason.
    Io { errno: i32 },
}

/// Error codes of the polling backend that refuse a descriptor.
pub const EPERM: i32 = 1;
pub const EBADF: i32 = 9;
pub const EEXIST: i32 = 17;
pub const EINVAL: i32 = 22;

/// Sorts an error code of a failed registration: a duplicate, a closed or
/// an unpollable descriptor is a rejection, anything else an I/O failure.
pub fn registration_error(errno: i32) -> (r: InsertError)
    ensures
        is_rejection(errno) ==> r == (InsertError::Rejected { errno }),
        !is_rejection(errno) ==> r == (InsertError::Io { errno }),
{
    if errno == EEXIST || errno == EBADF || errno == EPERM || errno == EINVAL {
        InsertError::Rejected { errno }
    } else {
        InsertError::Io { errno }
    }
}

/// The error codes by which the backend refuses a descriptor.
pub open spec fn is_rejection(errno: i32) -> bool {
    errno == EEXIST || errno == EBADF || errno == EPERM || errno == EINVAL
}

/// The registry: one dispatcher for each live token.
///
/// Tokens are issued in increasing order and never reused, so a token that
/// was removed can never name a registration again.
pub struct SourceList<D> {
    sources: HashMap<u64, D>,
    next: u64,
}

impl<D> SourceList<D> {
    /// The live registrations, by token value.
    pub closed spec fn view(&self) -> Map<u64, D> {
        self.sources@
    }

    /// The token value that the next insertion will issue; every token
    /// below it has been issued.
    pub closed spec fn next_token(&self) -> nat {
        self.next as nat
    }

    pub closed spec fn wf(&self) -> bool {
        forall|k: u64| #[trigger] self.sources@.contains_key(k) ==> k < self.next
    }

    /// A token that was issued and is no longer live.
    pub open spec fn retired(&self, t: Token) -> bool {
        t.0 < self.next_token() && !self@.contains_key(t.0)
    }

    pub fn new() -> (r: SourceList<D>)
        ensures
            r.wf(),
            r@ == Map::<u64, D>::empty(),
            r.next_token() == 0,
    {
        SourceList { sources: HashMap::new(), next: 0 }
    }

    /// Stores `dispatcher` under a fresh token.
    pub fn insert(&mut self, dispatcher: D) -> (r: Result<Token, InsertError>)
        requires
            old(self).wf(),
        ensures
            final(self).wf(),
            r.is_err() <==> old(self).next_token() == u64::MAX,
            forall|u: Token| old(self).retired(u) ==> #[trigger] final(self).retired(u),
            match r {
                Ok(t) => {
                    &&& t.0 == old(self).next_token()
                    &&& !old(self)@.contains_key(t.0)
                    &&& final(self)@ == old(self)@.insert(t.0, dispatcher)
                    &&& final(self).next_token() == old(self).next_token() + 1
                },
                Err(e) => {
                    &&& e == InsertError::TokensExhausted
                    &&& final(self)@ == old(self)@
                    &&& final(self).next_token() == old(self).next_token()
                },
            },
    {
        if self.next == u64::MAX {
            return Err(InsertError::TokensExhausted);
        }
        let t = self.next;
        self.sources.insert(t, dispatcher);
        self.next = t + 1;
        Ok(Token(t))
    }

    /// The value below which every token has been issued.
    pub fn token_bound(&self) -> (r: u64)
        ensures
            r == self.next_token(),
    {
        self.next
    }

    /// Takes the registration of `t` out, if it is live.
    pub fn remove(&mut self, t: Token) -> (r: Option<D>)
        requires
            old(self).wf(),
        ensures
            final(self).wf(),
            final(self)@ == old(self)@.remove(t.0),
            final(self).next_token() == old(self).next_token(),
            final(self).retired(t) || t.0 >= old(self).next_token(),
            forall|u: Token| old(self).retired(u) ==> #[trigger] final(self).retired(u),
            match r {
                Some(d) => old(self)@.contains_key(t.0) && d == old(self)@[t.0],
                None => !old(self)@.contains_key(t.0),
            },
    {
        self.sources.remove(&t.0)
    }

    /// Undoes the insertion of `t` after the polling backend refused to
    /// register its source with error code `errno`: no entry is left
    /// behind, and the error says whether the descriptor was rejected.
    pub fn rollback(&mut self, t: Token, errno: i32) -> (r: InsertError)
        requires
            old(self).wf(),
        ensures
            final(self).wf(),
            final(self)@ == old(self)@.remove(t.0),
            final(self).next_token() == old(self).next_token(),
            is_rejection(errno) ==> r == (InsertError::Rejected { errno }),
            !is_rejection(errno) ==> r == (InsertError::Io { errno }),
    {
        let _ = self.remove(t);
        registration_error(errno)
    }

    /// Whether `t` names a live registration.
    pub fn contains(&self, t: Token) -> (r: bool)
        ensures
            r == self@.contains_key(t.0),
    {
        self.sources.contains_key(&t.0)
    }

    /// The dispatcher of `t`, if it is live.
    pub fn get(&self, t: Token) -> (r: Option<&D>)
        ensures
            match r {
                Some(d) => self@.contains_key(t.0) && *d == self@[t.0],
                None => !self@.contains_key(t.0),
            },
    {
        self.sources.get(&t.0)
    }

    /// The number of live registrations.
    pub fn len(&self) -> (r: usize)
        ensures
            r == self@.len(),
    {
        self.sources.len()
    }
}

/// Every live token was issued and lies below the next one, so an insertion
/// never hands out a token that a live registration holds: each live token
/// names exactly one dispatcher.
pub proof fn lemma_live_tokens_issued<D>(list: SourceList<D>, k: u64)
    requires
        list.wf(),
        list@.contains_key(k),
    ensures
        k < list.next_token(),
{
}

/// Inserting a source and removing it before any cycle runs leaves the
/// registry as it was, and its token can never be dispatched.
pub proof fn lemma_insert_remove_round_trip<D>(
    before: SourceList<D>,
    inserted: SourceList<D>,
    after: SourceList<D>,
    t: Token,
    dispatcher: D,
)
    requires
        before.wf(),
        t.0 == before.next_token(),
        inserted@ == before@.insert(t.0, dispatcher),
        inserted.next_token() == before.next_token() + 1,
        after@ == inserted@.remove(t.0),
        after.next_token() == inserted.next_token(),
    ensures
        after@ == before@,
        after.retired(t),
{
    assert(!before@.contains_key(t.0));
    assert(after@ =~= before@);
}

} // verus!
