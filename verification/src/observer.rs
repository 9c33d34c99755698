//! The observer contract: the three-method capability {next, error,
//! complete} plus a closed-query.
//!
//! Every observer describes its own behaviour through the relation
//! [`Observer::rel`]: `rel(pre, ev, post)` holds exactly when delivering the
//! event `ev` to the observer in state `pre` can leave it in state `post`.
//! A relation, not a function, because an observer may wrap a callback whose
//! result the library does not control. The spec function [`delivers`] lifts
//! the relation to whole event sequences; the operator laws are stated over
//! it.

use vstd::prelude::*;

use crate::noti::RxNoti;

verus! {

/// Anything offering {next, error, complete} and a closed-query qualifies as
/// an observer. `rel` is the impl's own statement of what one delivery does
/// to it; `closed` advertises that the observer has already terminated, so
/// upstream operators may short-circuit delivery.
pub trait Observer<V, E>: Sized {
    /// Whether this observer has advertised that it is done.
    spec fn closed(&self) -> bool;

    /// What delivering one event does: `rel(pre, ev, post)` holds exactly
    /// when the delivery can take the observer from `pre` to `post`.
    spec fn rel(pre: Self, ev: RxNoti<V, E>, post: Self) -> bool;

    /// Deliver a value.
    fn next(&mut self, v: V)
        ensures
            Self::rel(*old(self), RxNoti::Next(v), *final(self)),
    ;

    /// Deliver an error.
    fn err(&mut self, e: E)
        ensures
            Self::rel(*old(self), RxNoti::Error(e), *final(self)),
    ;

    /// Deliver completion.
    fn complete(&mut self)
        ensures
            Self::rel(*old(self), RxNoti::Comp, *final(self)),
    ;

    /// The closed-query.
    fn _is_closed(&self) -> (r: bool)
        ensures
            r == self.closed(),
    ;
}

/// `delivers(pre, evs, post)` holds when handing the events `evs`, in order,
/// to an observer in state `pre` can leave it in state `post`.
pub open spec fn delivers<V, E, O: Observer<V, E>>(
    pre: O,
    evs: Seq<RxNoti<V, E>>,
    post: O,
) -> bool
    decreases evs.len(),
{
    if evs.len() == 0 {
        post == pre
    } else {
        exists|mid: O| #[trigger] O::rel(pre, evs[0], mid) && delivers(mid, evs.skip(1), post)
    }
}

/// Delivering nothing changes nothing.
pub proof fn lemma_delivers_empty<V, E, O: Observer<V, E>>(pre: O)
    ensures
        delivers(pre, Seq::<RxNoti<V, E>>::empty(), pre),
{
}

/// One step extends a delivery on the left.
pub proof fn lemma_delivers_cons<V, E, O: Observer<V, E>>(
    pre: O,
    ev: RxNoti<V, E>,
    mid: O,
    evs: Seq<RxNoti<V, E>>,
    post: O,
)
    requires
        O::rel(pre, ev, mid),
        delivers(mid, evs, post),
    ensures
        delivers(pre, seq![ev] + evs, post),
{
    let whole = seq![ev] + evs;
    assert(whole[0] == ev);
    assert(whole.skip(1) =~= evs);
}

/// Deliveries compose: a sequence split in two delivers through the middle
/// state.
pub proof fn lemma_delivers_app<V, E, O: Observer<V, E>>(
    pre: O,
    evs1: Seq<RxNoti<V, E>>,
    mid: O,
    evs2: Seq<RxNoti<V, E>>,
    post: O,
)
    requires
        delivers(pre, evs1, mid),
        delivers(mid, evs2, post),
    ensures
        delivers(pre, evs1 + evs2, post),
    decreases evs1.len(),
{
    if evs1.len() == 0 {
        assert(evs1 + evs2 =~= evs2);
    } else {
        let step = choose|m: O| #[trigger] O::rel(pre, evs1[0], m) && delivers(
            m,
            evs1.skip(1),
            mid,
        );
        lemma_delivers_app(step, evs1.skip(1), mid, evs2, post);
        assert((evs1 + evs2)[0] == evs1[0]);
        assert((evs1 + evs2).skip(1) =~= evs1.skip(1) + evs2);
    }
}

/// A concrete observer that just records every event it is handed, in order.
/// It never advertises closure, so it sees a chain's whole output; the laws
/// and the tests read its log.
pub struct Collector<V, E> {
    pub log: Vec<RxNoti<V, E>>,
}

impl<V, E> Collector<V, E> {
    /// A collector with an empty log.
    pub fn new() -> (r: Collector<V, E>)
        ensures
            r.log@ == Seq::<RxNoti<V, E>>::empty(),
    {
        Collector { log: Vec::new() }
    }
}

impl<V, E> Observer<V, E> for Collector<V, E> {
    open spec fn closed(&self) -> bool {
        false
    }

    open spec fn rel(pre: Self, ev: RxNoti<V, E>, post: Self) -> bool {
        post.log@ == pre.log@.push(ev)
    }

    fn next(&mut self, v: V) {
        self.log.push(RxNoti::Next(v));
    }

    fn err(&mut self, e: E) {
        self.log.push(RxNoti::Error(e));
    }

    fn complete(&mut self) {
        self.log.push(RxNoti::Comp);
    }

    fn _is_closed(&self) -> (r: bool) {
        false
    }
}

/// A collector's log grows by exactly what is delivered to it: the relation
/// for `Collector` is deterministic, so `delivers` pins the final log down.
pub proof fn lemma_collector_log<V, E>(
    pre: Collector<V, E>,
    evs: Seq<RxNoti<V, E>>,
    post: Collector<V, E>,
)
    requires
        delivers(pre, evs, post),
    ensures
        post.log@ == pre.log@ + evs,
    decreases evs.len(),
{
    if evs.len() == 0 {
        assert(pre.log@ + evs =~= pre.log@);
    } else {
        let mid = choose|m: Collector<V, E>|
            #[trigger] Observer::<V, E>::rel(pre, evs[0], m) && delivers(m, evs.skip(1), post);
        lemma_collector_log(mid, evs.skip(1), post);
        assert(pre.log@ + evs =~= pre.log@.push(evs[0]) + evs.skip(1));
    }
}

} // verus!
