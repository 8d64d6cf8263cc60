//! A write-once memo slot: the cache entry for one logical type.
use std::sync::Arc;
use vstd::prelude::*;

verus! {

/// What a request leaves behind and hands out, given what the slot held and
/// what the initializer would produce: a held value wins, an empty slot takes
/// the fresh one.
pub open spec fn serve<T>(held: Option<T>, fresh: T) -> (Option<T>, T) {
    match held {
        Some(v) => (Some(v), v),
        None => (Some(fresh), fresh),
    }
}

/// How many times a request runs its initializer on a slot holding `held`.
pub open spec fn runs_needed<T>(held: Option<T>) -> nat {
    if held is None {
        1
    } else {
        0
    }
}

/// The slot and the answers after a series of requests, served one at a time
/// (as a lock around the slot serves them), whose initializers would produce
/// `fresh[0]`, `fresh[1]`, ... in that order.
pub open spec fn serve_all<T>(held: Option<T>, fresh: Seq<T>) -> (Option<T>, Seq<T>)
    decreases fresh.len(),
{
    if fresh.len() == 0 {
        (held, Seq::empty())
    } else {
        let (next, answer) = serve(held, fresh[0]);
        let (last, rest) = serve_all(next, fresh.drop_first());
        (last, seq![answer] + rest)
    }
}

/// How many initializers run over the same series of requests.
pub open spec fn runs_all<T>(held: Option<T>, fresh: Seq<T>) -> nat
    decreases fresh.len(),
{
    if fresh.len() == 0 {
        0
    } else {
        runs_needed(held) + runs_all(serve(held, fresh[0]).0, fresh.drop_first())
    }
}

/// Memoization: of two requests on an empty slot, with initializers that
/// would produce different values, both are answered with what the first
/// produced, and the slot keeps it.
pub proof fn lemma_first_initializer_wins<T>(first: T, second: T)
    ensures
        serve(None, first).1 == first,
        serve(serve(None, first).0, second).1 == first,
        serve(serve(None, first).0, second).0 == Some(first),
{
}

proof fn lemma_serve_all_held<T>(v: T, fresh: Seq<T>)
    ensures
        serve_all(Some(v), fresh).0 == Some(v),
        serve_all(Some(v), fresh).1 == Seq::new(fresh.len(), |i: int| v),
        runs_all(Some(v), fresh) == 0,
    decreases fresh.len(),
{
    if fresh.len() > 0 {
        lemma_serve_all_held(v, fresh.drop_first());
        assert(serve_all(Some(v), fresh).1 =~= Seq::new(fresh.len(), |i: int| v));
    }
}

/// Single initialization: however many requests reach an empty slot one at a
/// time, exactly one initializer runs, and every request is answered with the
/// value that it produced.
pub proof fn lemma_single_initialization<T>(fresh: Seq<T>)
    requires
        fresh.len() > 0,
    ensures
        runs_all(None, fresh) == 1,
        serve_all(None, fresh).0 == Some(fresh[0]),
        serve_all(None, fresh).1 == Seq::new(fresh.len(), |i: int| fresh[0]),
{
    lemma_serve_all_held(fresh[0], fresh.drop_first());
    assert(serve_all(None, fresh).1 =~= Seq::new(fresh.len(), |i: int| fresh[0]));
}

/// Relies on `Arc::clone`: the new handle points to the same allocation, so
/// it reads the same value.
#[verifier::external_body]
pub(crate) fn share<T>(a: &Arc<T>) -> (r: Arc<T>)
    ensures
        *r == **a,
{
    Arc::clone(a)
}

/// The cache entry for one logical type: empty until the first request,
/// then holding one shared value for the life of the slot.
pub struct OnceSlot<T> {
    value: Option<Arc<T>>,
    inits: Ghost<nat>,
}

impl<T> OnceSlot<T> {
    /// The value held, if any.
    pub closed spec fn view(&self) -> Option<T> {
        match self.value {
            Some(a) => Some(*a),
            None => None,
        }
    }

    /// How many times an initializer has run on this slot.
    pub closed spec fn inits(&self) -> nat {
        self.inits@
    }

    /// An initializer runs at most once, and exactly when the slot got its value.
    pub open spec fn wf(&self) -> bool {
        self.inits() == if self@ is Some { 1nat } else { 0nat }
    }

    pub fn new() -> (s: Self)
        ensures
            s@ is None,
            s.inits() == 0,
            s.wf(),
    {
        OnceSlot { value: None, inits: Ghost(0) }
    }

    /// Whether the slot already holds its value.
    pub fn is_set(&self) -> (r: bool)
        ensures
            r == (self@ is Some),
    {
        self.value.is_some()
    }

    /// Returns the held value, running `init` to produce it only when the
    /// slot is still empty.
    pub fn get_or_create<F: FnOnce() -> T>(&mut self, init: F) -> (r: Arc<T>)
        requires
            old(self).wf(),
            old(self)@ is None ==> init.requires(()),
        ensures
            final(self).wf(),
            (final(self)@, *r) == serve(old(self)@, *r),
            old(self)@ is None ==> init.ensures((), *r),
            final(self).inits() == old(self).inits() + runs_needed(old(self)@),
    {
        match &self.value {
            Some(a) => share(a),
            None => {
                let fresh = Arc::new(init());
                let out = share(&fresh);
                self.value = Some(fresh);
                self.inits = Ghost(self.inits@ + 1);
                out
            },
        }
    }
}

} // verus!
