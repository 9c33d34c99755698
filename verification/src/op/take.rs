//! The `take` operator: forward the first `n` values; the value that
//! exhausts the counter is emitted and then completion is synthesized and the
//! upstream subscription is torn down; for `n <= 0`, completion is synthesized
//! immediately and upstream is never subscribed at all.

use vstd::prelude::*;

use core::marker::PhantomData;

use crate::noti::{as_next_events, RxNoti};
use crate::observable::{Observable, YesNo};
use crate::observer::{delivers, lemma_delivers_cons, Observer};

verus! {

/// The per-subscription state of one `take(n)` subscription: how many values
/// may still be forwarded, and whether the subscription is done.
pub struct TakeObserver<V, E, O> {
    pub remaining: usize,
    pub done: bool,
    pub dest: O,
    pub marker: PhantomData<(V, E)>,
}

/// The `take` state at subscribe time, as a spec value: `n` values still
/// owed, not done.
pub open spec fn spec_take0<V, E, O>(n: usize, dest: O) -> TakeObserver<V, E, O> {
    TakeObserver { remaining: n, done: false, dest, marker: PhantomData }
}

impl<V, E, O: Observer<V, E>> TakeObserver<V, E, O> {
    /// The state at subscribe time: `n` values still owed, not done.
    pub fn new(n: usize, dest: O) -> (r: Self)
        requires
            n > 0,
        ensures
            r == spec_take0::<V, E, O>(n, dest),
    {
        TakeObserver { remaining: n, done: false, dest, marker: PhantomData }
    }
}

impl<V, E, O: Observer<V, E>> Observer<V, E> for TakeObserver<V, E, O> {
    open spec fn closed(&self) -> bool {
        self.done
    }

    /// Values decrement the counter and pass through; the value that
    /// exhausts it is followed by a synthesized completion; a terminal
    /// passes through once and ends the subscription; after that, nothing
    /// moves.
    open spec fn rel(pre: Self, ev: RxNoti<V, E>, post: Self) -> bool {
        if pre.done {
            post == pre
        } else {
            match ev {
                RxNoti::Next(_) => {
                    if pre.remaining > 1 {
                        &&& O::rel(pre.dest, ev, post.dest)
                        &&& post.remaining == pre.remaining - 1
                        &&& !post.done
                    } else {
                        &&& exists|mid: O|
                            #[trigger] O::rel(pre.dest, ev, mid) && O::rel(
                                mid,
                                RxNoti::Comp,
                                post.dest,
                            )
                        &&& post.done
                        &&& post.remaining == 0
                    }
                },
                _ => {
                    &&& O::rel(pre.dest, ev, post.dest)
                    &&& post.done
                    &&& post.remaining == pre.remaining
                },
            }
        }
    }

    fn next(&mut self, v: V) {
        if self.done {
            return ;
        }
        let ghost pre = *self;
        let ghost ev = RxNoti::<V, E>::Next(v);
        self.dest.next(v);
        if self.remaining <= 1 {
            let ghost mid = self.dest;
            self.remaining = 0;
            self.done = true;
            self.dest.complete();
            proof {
                assert(O::rel(pre.dest, ev, mid) && O::rel(mid, RxNoti::Comp, self.dest));
            }
        } else {
            self.remaining = self.remaining - 1;
        }
    }

    fn err(&mut self, e: E) {
        if self.done {
            return ;
        }
        self.done = true;
        self.dest.err(e);
    }

    fn complete(&mut self) {
        if self.done {
            return ;
        }
        self.done = true;
        self.dest.complete();
    }

    fn _is_closed(&self) -> (r: bool) {
        self.done
    }
}

/// A done `take` subscription never moves again, whatever else arrives.
pub proof fn lemma_take_done_stable<V, E, O: Observer<V, E>>(
    t0: TakeObserver<V, E, O>,
    evs: Seq<RxNoti<V, E>>,
    tf: TakeObserver<V, E, O>,
)
    requires
        delivers(t0, evs, tf),
        t0.done,
    ensures
        tf == t0,
    decreases evs.len(),
{
    if evs.len() > 0 {
        let m1 = choose|m: TakeObserver<V, E, O>|
            #[trigger] Observer::<V, E>::rel(t0, evs[0], m) && delivers(m, evs.skip(1), tf);
        lemma_take_done_stable(m1, evs.skip(1), tf);
    }
}

/// The exact-count law of `take`: for `n > 0` and a source that emits the
/// `m` values `vs` and then completes, the downstream observer receives
/// exactly the first `min(n, m)` values followed by one completion, and the
/// subscription ends done.
pub proof fn lemma_take_exact_count<V, E, O: Observer<V, E>>(
    t0: TakeObserver<V, E, O>,
    vs: Seq<V>,
    tf: TakeObserver<V, E, O>,
)
    requires
        delivers(t0, as_next_events::<V, E>(vs).push(RxNoti::Comp), tf),
        !t0.done,
        t0.remaining > 0,
    ensures
        delivers(
            t0.dest,
            as_next_events::<V, E>(
                vs.take(
                    if t0.remaining <= vs.len() {
                        t0.remaining as int
                    } else {
                        vs.len() as int
                    },
                ),
            ).push(RxNoti::Comp),
            tf.dest,
        ),
        tf.done,
    decreases vs.len(),
{
    let evs = as_next_events::<V, E>(vs).push(RxNoti::Comp);
    let m1 = choose|m: TakeObserver<V, E, O>|
        #[trigger] Observer::<V, E>::rel(t0, evs[0], m) && delivers(m, evs.skip(1), tf);
    let c: int = if t0.remaining <= vs.len() {
        t0.remaining as int
    } else {
        vs.len() as int
    };
    if vs.len() == 0 {
        assert(evs[0] == RxNoti::<V, E>::Comp);
        assert(tf == m1);
        assert(as_next_events::<V, E>(vs.take(c)).push(RxNoti::Comp) =~= seq![
            RxNoti::<V, E>::Comp,
        ]);
        lemma_delivers_cons(t0.dest, RxNoti::<V, E>::Comp, tf.dest, Seq::empty(), tf.dest);
        assert(seq![RxNoti::<V, E>::Comp] + Seq::<RxNoti<V, E>>::empty() =~= seq![
            RxNoti::<V, E>::Comp,
        ]);
    } else {
        assert(evs[0] == RxNoti::<V, E>::Next(vs[0]));
        if t0.remaining > 1 {
            assert(evs.skip(1) =~= as_next_events::<V, E>(vs.skip(1)).push(RxNoti::Comp));
            lemma_take_exact_count(m1, vs.skip(1), tf);
            let c1: int = if m1.remaining <= vs.skip(1).len() {
                m1.remaining as int
            } else {
                vs.skip(1).len() as int
            };
            assert(c1 == c - 1);
            let tail = as_next_events::<V, E>(vs.skip(1).take(c1)).push(RxNoti::Comp);
            lemma_delivers_cons(t0.dest, evs[0], m1.dest, tail, tf.dest);
            assert(seq![evs[0]] + tail =~= as_next_events::<V, E>(vs.take(c)).push(RxNoti::Comp));
        } else {
            // the value that exhausts the counter: emit it, then complete
            let mid = choose|mid: O|
                #[trigger] O::rel(t0.dest, evs[0], mid) && O::rel(mid, RxNoti::Comp, m1.dest);
            lemma_take_done_stable(m1, evs.skip(1), tf);
            lemma_delivers_cons(mid, RxNoti::<V, E>::Comp, tf.dest, Seq::empty(), tf.dest);
            assert(seq![RxNoti::<V, E>::Comp] + Seq::<RxNoti<V, E>>::empty() =~= seq![
                RxNoti::<V, E>::Comp,
            ]);
            lemma_delivers_cons(
                t0.dest,
                evs[0],
                mid,
                seq![RxNoti::<V, E>::Comp],
                tf.dest,
            );
            assert(seq![evs[0]] + seq![RxNoti::<V, E>::Comp] =~= as_next_events::<V, E>(
                vs.take(c),
            ).push(RxNoti::Comp));
        }
    }
}

/// The `take` operator over a source: forward the first `total` values.
pub struct TakeOp<Src> {
    pub source: Src,
    pub total: isize,
}

/// What subscribing to `take` yields: for `total <= 0` the observer is
/// completed at once and upstream is never subscribed; otherwise whatever
/// the upstream subscription yields.
pub enum TakeSubOut<O, T> {
    Completed(O),
    Subscribed(T),
}

impl<SS: YesNo, V, E, O: Observer<V, E>, Src: Observable<SS, V, E, TakeObserver<V, E, O>>>
    Observable<SS, V, E, O> for TakeOp<Src> {
    type Out = TakeSubOut<O, Src::Out>;

    open spec fn sub_pre(self, o: O) -> bool {
        self.total > 0 ==> self.source.sub_pre(spec_take0(self.total as usize, o))
    }

    /// For `total <= 0`: one completion, no upstream subscription. Otherwise
    /// the source is subscribed with a fresh `take` state wrapped around the
    /// observer.
    open spec fn sub_rel(self, o: O, out: Self::Out) -> bool {
        if self.total <= 0 {
            match out {
                TakeSubOut::Completed(d) => O::rel(o, RxNoti::Comp, d),
                TakeSubOut::Subscribed(_) => false,
            }
        } else {
            match out {
                TakeSubOut::Completed(_) => false,
                TakeSubOut::Subscribed(t) => self.source.sub_rel(
                    spec_take0(self.total as usize, o),
                    t,
                ),
            }
        }
    }

    fn sub(self, o: O) -> (out: Self::Out) {
        if self.total <= 0 {
            let mut d = o;
            d.complete();
            TakeSubOut::Completed(d)
        } else {
            let t0 = TakeObserver::new(self.total as usize, o);
            let t = self.source.sub(t0);
            TakeSubOut::Subscribed(t)
        }
    }
}

/// The fluent constructor: `src.take(total)`.
pub trait ObservableTake: Sized {
    /// Wrap this source so that only the first `total` values pass.
    fn take(self, total: isize) -> (r: TakeOp<Self>)
        ensures
            r.source == self,
            r.total == total,
    ;
}

impl<Src> ObservableTake for Src {
    fn take(self, total: isize) -> (r: TakeOp<Self>) {
        TakeOp { source: self, total }
    }
}

} // verus!
