//! The `tap` operator: a side observer watches every value before it is
//! forwarded unchanged, and is told about termination before downstream is;
//! if downstream is already closed, both the tap call and the forward are
//! skipped and completion is synthesized through both.

use vstd::prelude::*;

use core::marker::PhantomData;

use crate::noti::{as_next_events, RxNoti};
use crate::observable::{Observable, YesNo};
use crate::observer::{delivers, lemma_delivers_cons, Observer};

verus! {

/// The per-subscription state of one `tap` subscription: the side observer,
/// the done flag, and the downstream observer. Values are copied to the side
/// observer, so they must be `Copy`.
pub struct TapObserver<V, E, S, O> {
    pub side: S,
    pub done: bool,
    pub dest: O,
    pub marker: PhantomData<(V, E)>,
}

/// The `tap` state at subscribe time, as a spec value.
pub open spec fn spec_tap0<V, E, S, O>(side: S, dest: O) -> TapObserver<V, E, S, O> {
    TapObserver { side, done: false, dest, marker: PhantomData }
}

impl<V: Copy, E: Copy, S: Observer<V, E>, O: Observer<V, E>> TapObserver<V, E, S, O> {
    /// The state at subscribe time: nothing seen yet.
    pub fn new(side: S, dest: O) -> (r: Self)
        ensures
            r == spec_tap0::<V, E, S, O>(side, dest),
    {
        TapObserver { side, done: false, dest, marker: PhantomData }
    }
}

impl<V: Copy, E: Copy, S: Observer<V, E>, O: Observer<V, E>> Observer<V, E> for TapObserver<
    V,
    E,
    S,
    O,
> {
    open spec fn closed(&self) -> bool {
        self.done
    }

    /// A value reaches the side observer and then downstream; if downstream
    /// was, or becomes, closed, completion is synthesized through both and
    /// the subscription ends; a terminal reaches the side observer first and
    /// downstream second, once.
    open spec fn rel(pre: Self, ev: RxNoti<V, E>, post: Self) -> bool {
        if pre.done {
            post == pre
        } else {
            match ev {
                RxNoti::Next(_) => {
                    if pre.dest.closed() {
                        &&& S::rel(pre.side, RxNoti::Comp, post.side)
                        &&& O::rel(pre.dest, RxNoti::Comp, post.dest)
                        &&& post.done
                    } else {
                        exists|sm: S, dm: O|
                            {
                                &&& #[trigger] S::rel(pre.side, ev, sm)
                                &&& #[trigger] O::rel(pre.dest, ev, dm)
                                &&& if dm.closed() {
                                    &&& S::rel(sm, RxNoti::Comp, post.side)
                                    &&& O::rel(dm, RxNoti::Comp, post.dest)
                                    &&& post.done
                                } else {
                                    &&& post.side == sm
                                    &&& post.dest == dm
                                    &&& !post.done
                                }
                            }
                    }
                },
                _ => {
                    &&& S::rel(pre.side, ev, post.side)
                    &&& O::rel(pre.dest, ev, post.dest)
                    &&& post.done
                },
            }
        }
    }

    fn next(&mut self, v: V) {
        if self.done {
            return ;
        }
        let ghost pre = *self;
        let ghost ev = RxNoti::<V, E>::Next(v);
        if self.dest._is_closed() {
            self.done = true;
            self.side.complete();
            self.dest.complete();
            return ;
        }
        self.side.next(v);
        self.dest.next(v);
        let ghost sm = self.side;
        let ghost dm = self.dest;
        if self.dest._is_closed() {
            self.done = true;
            self.side.complete();
            self.dest.complete();
        }
        proof {
            assert(S::rel(pre.side, ev, sm) && O::rel(pre.dest, ev, dm));
        }
    }

    fn err(&mut self, e: E) {
        if self.done {
            return ;
        }
        self.done = true;
        self.side.err(e);
        self.dest.err(e);
    }

    fn complete(&mut self) {
        if self.done {
            return ;
        }
        self.done = true;
        self.side.complete();
        self.dest.complete();
    }

    fn _is_closed(&self) -> (r: bool) {
        self.done
    }
}

/// The passthrough law of `tap`: over a downstream that never closes, for a
/// source that emits the values `vs` and then completes, `tap` hands the
/// downstream observer exactly the source's events unchanged, and the side
/// observer the very same events: every value once, in order, then the
/// completion.
pub proof fn lemma_tap_passthrough<V: Copy, E: Copy, S: Observer<V, E>, O: Observer<V, E>>(
    t0: TapObserver<V, E, S, O>,
    vs: Seq<V>,
    tf: TapObserver<V, E, S, O>,
)
    requires
        delivers(t0, as_next_events::<V, E>(vs).push(RxNoti::Comp), tf),
        !t0.done,
        forall|d: O| !(#[trigger] d.closed()),
    ensures
        delivers(t0.dest, as_next_events::<V, E>(vs).push(RxNoti::Comp), tf.dest),
        delivers(t0.side, as_next_events::<V, E>(vs).push(RxNoti::Comp), tf.side),
    decreases vs.len(),
{
    let evs = as_next_events::<V, E>(vs).push(RxNoti::Comp);
    let m1 = choose|m: TapObserver<V, E, S, O>|
        #[trigger] Observer::<V, E>::rel(t0, evs[0], m) && delivers(m, evs.skip(1), tf);
    if vs.len() == 0 {
        assert(evs[0] == RxNoti::<V, E>::Comp);
        assert(tf == m1);
        lemma_delivers_cons(t0.dest, RxNoti::<V, E>::Comp, tf.dest, Seq::empty(), tf.dest);
        lemma_delivers_cons(t0.side, RxNoti::<V, E>::Comp, tf.side, Seq::empty(), tf.side);
        assert(seq![RxNoti::<V, E>::Comp] + Seq::<RxNoti<V, E>>::empty() =~= evs);
        assert(evs =~= seq![RxNoti::<V, E>::Comp]);
    } else {
        assert(evs[0] == RxNoti::<V, E>::Next(vs[0]));
        let (sm, dm) = choose|sm: S, dm: O|
            {
                &&& #[trigger] S::rel(t0.side, evs[0], sm)
                &&& #[trigger] O::rel(t0.dest, evs[0], dm)
                &&& if dm.closed() {
                    &&& S::rel(sm, RxNoti::Comp, m1.side)
                    &&& O::rel(dm, RxNoti::Comp, m1.dest)
                    &&& m1.done
                } else {
                    &&& m1.side == sm
                    &&& m1.dest == dm
                    &&& !m1.done
                }
            };
        assert(evs.skip(1) =~= as_next_events::<V, E>(vs.skip(1)).push(RxNoti::Comp));
        lemma_tap_passthrough(m1, vs.skip(1), tf);
        let tail = as_next_events::<V, E>(vs.skip(1)).push(RxNoti::<V, E>::Comp);
        lemma_delivers_cons(t0.dest, evs[0], m1.dest, tail, tf.dest);
        lemma_delivers_cons(t0.side, evs[0], m1.side, tail, tf.side);
        assert(seq![evs[0]] + tail =~= evs);
    }
}

/// The `tap` operator over a source.
pub struct TapOp<Src, S> {
    pub src: Src,
    pub obs: S,
}

impl<
    SS: YesNo,
    V: Copy,
    E: Copy,
    S: Observer<V, E>,
    O: Observer<V, E>,
    Src: Observable<SS, V, E, TapObserver<V, E, S, O>>,
> Observable<SS, V, E, O> for TapOp<Src, S> {
    type Out = Src::Out;

    open spec fn sub_pre(self, o: O) -> bool {
        self.src.sub_pre(spec_tap0::<V, E, S, O>(self.obs, o))
    }

    /// The source is subscribed with a fresh `tap` state, holding the side
    /// observer, wrapped around the observer.
    open spec fn sub_rel(self, o: O, out: Self::Out) -> bool {
        self.src.sub_rel(spec_tap0::<V, E, S, O>(self.obs, o), out)
    }

    fn sub(self, o: O) -> (out: Self::Out) {
        self.src.sub(TapObserver::new(self.obs, o))
    }
}

/// The fluent constructor: `src.tap(side_observer)`.
pub trait ObservableTap: Sized {
    /// Wrap this source so that a side observer watches each event first.
    fn tap<S>(self, o: S) -> (r: TapOp<Self, S>)
        ensures
            r.src == self,
            r.obs == o,
    ;
}

impl<Src> ObservableTap for Src {
    fn tap<S>(self, o: S) -> (r: TapOp<Self, S>) {
        TapOp { src: self, obs: o }
    }
}

} // verus!
