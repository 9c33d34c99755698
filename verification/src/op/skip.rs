//! The `skip` operator: drop the first `n` values, then forward everything
//! unchanged; terminals pass through; if downstream closes mid-stream, stop
//! forwarding and complete.

use vstd::prelude::*;

use core::marker::PhantomData;

use crate::noti::{as_next_events, RxNoti};
use crate::observable::{Observable, YesNo};
use crate::observer::{delivers, lemma_delivers_cons, Observer};

verus! {

/// The per-subscription state of one `skip(n)` subscription: how many values
/// are still to be dropped, and whether the subscription is done.
pub struct SkipObserver<V, E, O> {
    pub remaining: usize,
    pub done: bool,
    pub dest: O,
    pub marker: PhantomData<(V, E)>,
}

/// The `skip` state at subscribe time, as a spec value.
pub open spec fn spec_skip0<V, E, O>(n: usize, dest: O) -> SkipObserver<V, E, O> {
    SkipObserver { remaining: n, done: false, dest, marker: PhantomData }
}

impl<V, E, O: Observer<V, E>> SkipObserver<V, E, O> {
    /// The state at subscribe time: `n` values still to drop, not done.
    pub fn new(n: usize, dest: O) -> (r: Self)
        ensures
            r == spec_skip0::<V, E, O>(n, dest),
    {
        SkipObserver { remaining: n, done: false, dest, marker: PhantomData }
    }
}

impl<V, E, O: Observer<V, E>> Observer<V, E> for SkipObserver<V, E, O> {
    open spec fn closed(&self) -> bool {
        self.done
    }

    /// While the counter is positive a value is dropped and counted; once it
    /// reaches zero values pass through, except that a downstream that has
    /// closed gets one completion instead and the subscription ends; a
    /// terminal passes through once and ends the subscription.
    open spec fn rel(pre: Self, ev: RxNoti<V, E>, post: Self) -> bool {
        if pre.done {
            post == pre
        } else {
            match ev {
                RxNoti::Next(_) => {
                    if pre.remaining > 0 {
                        &&& post.dest == pre.dest
                        &&& post.remaining == pre.remaining - 1
                        &&& !post.done
                    } else if pre.dest.closed() {
                        &&& O::rel(pre.dest, RxNoti::Comp, post.dest)
                        &&& post.done
                        &&& post.remaining == 0
                    } else {
                        &&& exists|mid: O|
                            {
                                &&& #[trigger] O::rel(pre.dest, ev, mid)
                                &&& if mid.closed() {
                                    O::rel(mid, RxNoti::Comp, post.dest) && post.done
                                } else {
                                    post.dest == mid && !post.done
                                }
                            }
                        &&& post.remaining == 0
                    }
                },
                _ => {
                    &&& O::rel(pre.dest, ev, post.dest)
                    &&& post.done
                    &&& post.remaining == pre.remaining
                },
            }
        }
    }

    fn next(&mut self, v: V) {
        if self.done {
            return ;
        }
        if self.remaining > 0 {
            self.remaining = self.remaining - 1;
            return ;
        }
        if self.dest._is_closed() {
            self.done = true;
            self.dest.complete();
            return ;
        }
        let ghost pre = *self;
        let ghost ev = RxNoti::<V, E>::Next(v);
        self.dest.next(v);
        let ghost mid = self.dest;
        if self.dest._is_closed() {
            self.done = true;
            self.dest.complete();
        }
        proof {
            assert(O::rel(pre.dest, ev, mid));
        }
    }

    fn err(&mut self, e: E) {
        if self.done {
            return ;
        }
        self.done = true;
        self.dest.err(e);
    }

    fn complete(&mut self) {
        if self.done {
            return ;
        }
        self.done = true;
        self.dest.complete();
    }

    fn _is_closed(&self) -> (r: bool) {
        self.done
    }
}

/// The exact-count law of `skip`: over a downstream that never closes, for a
/// source that emits the `m` values `vs` and then completes, `skip(n)` drops
/// exactly the first `min(n, m)` values and forwards the rest, and the
/// completion, unchanged.
pub proof fn lemma_skip_exact_count<V, E, O: Observer<V, E>>(
    s0: SkipObserver<V, E, O>,
    vs: Seq<V>,
    sf: SkipObserver<V, E, O>,
)
    requires
        delivers(s0, as_next_events::<V, E>(vs).push(RxNoti::Comp), sf),
        !s0.done,
        forall|d: O| !(#[trigger] d.closed()),
    ensures
        delivers(
            s0.dest,
            as_next_events::<V, E>(
                vs.skip(
                    if s0.remaining <= vs.len() {
                        s0.remaining as int
                    } else {
                        vs.len() as int
                    },
                ),
            ).push(RxNoti::Comp),
            sf.dest,
        ),
    decreases vs.len(),
{
    let evs = as_next_events::<V, E>(vs).push(RxNoti::Comp);
    let m1 = choose|m: SkipObserver<V, E, O>|
        #[trigger] Observer::<V, E>::rel(s0, evs[0], m) && delivers(m, evs.skip(1), sf);
    let c: int = if s0.remaining <= vs.len() {
        s0.remaining as int
    } else {
        vs.len() as int
    };
    if vs.len() == 0 {
        assert(evs[0] == RxNoti::<V, E>::Comp);
        assert(sf == m1);
        assert(as_next_events::<V, E>(vs.skip(c)).push(RxNoti::Comp) =~= seq![
            RxNoti::<V, E>::Comp,
        ]);
        lemma_delivers_cons(s0.dest, RxNoti::<V, E>::Comp, sf.dest, Seq::empty(), sf.dest);
        assert(seq![RxNoti::<V, E>::Comp] + Seq::<RxNoti<V, E>>::empty() =~= seq![
            RxNoti::<V, E>::Comp,
        ]);
    } else {
        assert(evs[0] == RxNoti::<V, E>::Next(vs[0]));
        assert(evs.skip(1) =~= as_next_events::<V, E>(vs.skip(1)).push(RxNoti::Comp));
        lemma_skip_exact_count(m1, vs.skip(1), sf);
        let c1: int = if m1.remaining <= vs.skip(1).len() {
            m1.remaining as int
        } else {
            vs.skip(1).len() as int
        };
        if s0.remaining > 0 {
            assert(m1.dest == s0.dest);
            assert(c1 == c - 1);
            assert(vs.skip(1).skip(c1) =~= vs.skip(c));
        } else {
            let mid = choose|mid: O|
                {
                    &&& #[trigger] O::rel(s0.dest, evs[0], mid)
                    &&& if mid.closed() {
                        O::rel(mid, RxNoti::Comp, m1.dest) && m1.done
                    } else {
                        m1.dest == mid && !m1.done
                    }
                };
            assert(m1.dest == mid);
            assert(c1 == 0 && c == 0);
            let tail = as_next_events::<V, E>(vs.skip(1).skip(0)).push(RxNoti::Comp);
            assert(vs.skip(1).skip(0) =~= vs.skip(1));
            lemma_delivers_cons(s0.dest, evs[0], mid, tail, sf.dest);
            assert(seq![evs[0]] + tail =~= as_next_events::<V, E>(vs.skip(0)).push(RxNoti::Comp));
        }
    }
}

/// The `skip` operator over a source: drop the first `total` values.
pub struct SkipOp<Src> {
    pub source: Src,
    pub total: isize,
}

impl<SS: YesNo, V, E, O: Observer<V, E>, Src: Observable<SS, V, E, SkipObserver<V, E, O>>>
    Observable<SS, V, E, O> for SkipOp<Src> {
    type Out = Src::Out;

    open spec fn sub_pre(self, o: O) -> bool {
        self.source.sub_pre(
            spec_skip0(
                if self.total < 0 {
                    0usize
                } else {
                    self.total as usize
                },
                o,
            ),
        )
    }

    /// The source is subscribed with a fresh `skip` state wrapped around the
    /// observer; a non-positive count drops nothing.
    open spec fn sub_rel(self, o: O, out: Self::Out) -> bool {
        self.source.sub_rel(
            spec_skip0(
                if self.total < 0 {
                    0usize
                } else {
                    self.total as usize
                },
                o,
            ),
            out,
        )
    }

    fn sub(self, o: O) -> (out: Self::Out) {
        let n: usize = if self.total < 0 {
            0
        } else {
            self.total as usize
        };
        self.source.sub(SkipObserver::new(n, o))
    }
}

/// The fluent constructor: `src.skip(total)`.
pub trait ObservableSkip: Sized {
    /// Wrap this source so that the first `total` values are dropped.
    fn skip(self, total: isize) -> (r: SkipOp<Self>)
        ensures
            r.source == self,
            r.total == total,
    ;
}

impl<Src> ObservableSkip for Src {
    fn skip(self, total: isize) -> (r: SkipOp<Self>) {
        SkipOp { source: self, total }
    }
}

} // verus!
