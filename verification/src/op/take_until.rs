//! The `take_until` operator: forward the source's values until a second
//! observable, the notifier, emits a value or an error; then synthesize
//! completion and tear the source subscription down. A notifier that merely
//! completes is not a stop signal. The notifier is attached first, and the
//! notification flag is read again between attaching to the notifier and
//! attaching to the source: a notifier that has already fired by then means
//! the source is never subscribed at all.

use vstd::prelude::*;

use core::marker::PhantomData;

use crate::noti::RxNoti;
use crate::observable::{Observable, YesNo};
use crate::observer::{delivers, lemma_delivers_cons, lemma_delivers_empty, Observer};

verus! {

/// The per-subscription state of one `take_until` subscription: whether the
/// notifier has fired, whether the subscription is done, and the downstream
/// observer.
pub struct TakeUntilState<V, E, O> {
    pub notified: bool,
    pub done: bool,
    pub dest: O,
    pub marker: PhantomData<(V, E)>,
}

/// The `take_until` state at subscribe time, as a spec value.
pub open spec fn spec_take_until0<V, E, O>(dest: O) -> TakeUntilState<V, E, O> {
    TakeUntilState { notified: false, done: false, dest, marker: PhantomData }
}

impl<V, E, O: Observer<V, E>> TakeUntilState<V, E, O> {
    /// The state at subscribe time: not notified, not done.
    pub fn new(dest: O) -> (r: Self)
        ensures
            r == spec_take_until0::<V, E, O>(dest),
    {
        TakeUntilState { notified: false, done: false, dest, marker: PhantomData }
    }

    /// The notifier emitted a value or an error: mark the flag, synthesize
    /// completion through the downstream observer, and end the
    /// subscription. The notifier completing without emitting does not come
    /// here.
    pub fn notify(&mut self)
        ensures
            notify_rel(*old(self), *final(self)),
    {
        self.notified = true;
        if !self.done {
            self.done = true;
            self.dest.complete();
        }
    }
}

/// What the notifier firing does to a subscription state: the flag is set,
/// a live subscription hands its downstream observer one completion, and
/// the subscription is done.
pub open spec fn notify_rel<V, E, O: Observer<V, E>>(
    pre: TakeUntilState<V, E, O>,
    post: TakeUntilState<V, E, O>,
) -> bool {
    &&& post.notified
    &&& post.done
    &&& if pre.done {
        post.dest == pre.dest
    } else {
        O::rel(pre.dest, RxNoti::Comp, post.dest)
    }
}

impl<V, E, O: Observer<V, E>> Observer<V, E> for TakeUntilState<V, E, O> {
    open spec fn closed(&self) -> bool {
        self.done
    }

    /// While the notifier has not fired, source values pass through, and a
    /// terminal from the source passes through once. A state that is marked
    /// notified but not yet done — reachable only by building the state by
    /// hand, since `notify` itself completes at once — turns its next
    /// source event into completion.
    open spec fn rel(pre: Self, ev: RxNoti<V, E>, post: Self) -> bool {
        &&& post.notified == pre.notified
        &&& if pre.done {
            post == pre
        } else {
            match ev {
                RxNoti::Next(_) => {
                    if pre.notified {
                        &&& O::rel(pre.dest, RxNoti::Comp, post.dest)
                        &&& post.done
                    } else {
                        &&& O::rel(pre.dest, ev, post.dest)
                        &&& !post.done
                    }
                },
                _ => {
                    &&& O::rel(pre.dest, ev, post.dest)
                    &&& post.done
                },
            }
        }
    }

    fn next(&mut self, v: V) {
        if self.done {
            return ;
        }
        if self.notified {
            self.done = true;
            self.dest.complete();
            return ;
        }
        self.dest.next(v);
    }

    fn err(&mut self, e: E) {
        if self.done {
            return ;
        }
        self.done = true;
        self.dest.err(e);
    }

    fn complete(&mut self) {
        if self.done {
            return ;
        }
        self.done = true;
        self.dest.complete();
    }

    fn _is_closed(&self) -> (r: bool) {
        self.done
    }
}

/// A done `take_until` subscription never moves again.
pub proof fn lemma_take_until_done_stable<V, E, O: Observer<V, E>>(
    t0: TakeUntilState<V, E, O>,
    evs: Seq<RxNoti<V, E>>,
    tf: TakeUntilState<V, E, O>,
)
    requires
        delivers(t0, evs, tf),
        t0.done,
    ensures
        tf == t0,
    decreases evs.len(),
{
    if evs.len() > 0 {
        let m1 = choose|m: TakeUntilState<V, E, O>|
            #[trigger] Observer::<V, E>::rel(t0, evs[0], m) && delivers(m, evs.skip(1), tf);
        lemma_take_until_done_stable(m1, evs.skip(1), tf);
    }
}

/// The ordering law of `take_until`: a fresh subscription that sees a
/// source value and then the notifier firing hands the downstream observer
/// exactly that value and one completion — the completion fires upon the
/// notification itself, and any further source events at all change
/// nothing.
pub proof fn lemma_take_until_ordering<V, E, O: Observer<V, E>>(
    t0: TakeUntilState<V, E, O>,
    v1: V,
    t1: TakeUntilState<V, E, O>,
    t2: TakeUntilState<V, E, O>,
    after: Seq<RxNoti<V, E>>,
    t3: TakeUntilState<V, E, O>,
)
    requires
        !t0.notified,
        !t0.done,
        Observer::<V, E>::rel(t0, RxNoti::Next(v1), t1),
        notify_rel(t1, t2),
        delivers(t2, after, t3),
    ensures
        delivers(t0.dest, seq![RxNoti::<V, E>::Next(v1), RxNoti::<V, E>::Comp], t3.dest),
        t3.done,
{
    lemma_take_until_done_stable(t2, after, t3);
    lemma_delivers_empty::<V, E, O>(t2.dest);
    lemma_delivers_cons(
        t1.dest,
        RxNoti::<V, E>::Comp,
        t2.dest,
        Seq::empty(),
        t2.dest,
    );
    assert(seq![RxNoti::<V, E>::Comp] + Seq::<RxNoti<V, E>>::empty() =~= seq![
        RxNoti::<V, E>::Comp,
    ]);
    lemma_delivers_cons(
        t0.dest,
        RxNoti::<V, E>::Next(v1),
        t1.dest,
        seq![RxNoti::<V, E>::Comp],
        t3.dest,
    );
    assert(seq![RxNoti::<V, E>::Next(v1)] + seq![RxNoti::<V, E>::Comp] =~= seq![
        RxNoti::<V, E>::Next(v1),
        RxNoti::<V, E>::Comp,
    ]);
}

/// The observer attached to the notifier: it records whether the notifier
/// emitted a value or an error; the notifier completing is ignored.
pub struct NotiProbe<VN, EN> {
    pub notified: bool,
    pub marker: PhantomData<(VN, EN)>,
}

/// A fresh notifier probe, as a spec value.
pub open spec fn spec_probe0<VN, EN>() -> NotiProbe<VN, EN> {
    NotiProbe { notified: false, marker: PhantomData }
}

impl<VN, EN> NotiProbe<VN, EN> {
    /// A probe that has seen nothing yet.
    pub fn new() -> (r: Self)
        ensures
            r == spec_probe0::<VN, EN>(),
    {
        NotiProbe { notified: false, marker: PhantomData }
    }
}

impl<VN, EN> Observer<VN, EN> for NotiProbe<VN, EN> {
    open spec fn closed(&self) -> bool {
        false
    }

    /// A value or an error sets the flag; completion changes nothing.
    open spec fn rel(pre: Self, ev: RxNoti<VN, EN>, post: Self) -> bool {
        match ev {
            RxNoti::Comp => post == pre,
            _ => post.notified,
        }
    }

    fn next(&mut self, _v: VN) {
        self.notified = true;
    }

    fn err(&mut self, _e: EN) {
        self.notified = true;
    }

    fn complete(&mut self) {
    }

    fn _is_closed(&self) -> (r: bool) {
        false
    }
}

/// The `take_until` operator over a source and a notifier. `VN` and `EN`
/// are the notifier's value and error types; its values are only ever used
/// as a stop signal.
pub struct TakeUntilOp<VN, EN, Src, Noti> {
    pub source: Src,
    pub noti: Noti,
    pub marker: PhantomData<(VN, EN)>,
}

/// What subscribing to `take_until` yields: the spent notifier probe, and
/// either the observer handed back untouched — the notifier had already
/// fired before the source subscribe call started, so the source was never
/// subscribed — or whatever the source subscription yields.
pub enum TakeUntilSubOut<P, O, T> {
    NotSubscribed(P, O),
    Subscribed(P, T),
}

impl<
    SS: YesNo,
    V,
    E,
    VN,
    EN,
    O: Observer<V, E>,
    Src: Observable<SS, V, E, TakeUntilState<V, E, O>>,
    Noti: Observable<SS, VN, EN, NotiProbe<VN, EN>, Out = NotiProbe<VN, EN>>,
> Observable<SS, V, E, O> for TakeUntilOp<VN, EN, Src, Noti> {
    type Out = TakeUntilSubOut<NotiProbe<VN, EN>, O, Src::Out>;

    open spec fn sub_pre(self, o: O) -> bool {
        &&& self.noti.sub_pre(spec_probe0::<VN, EN>())
        &&& self.source.sub_pre(spec_take_until0::<V, E, O>(o))
    }

    /// The notifier is subscribed first, with a fresh probe; if it fired
    /// during that subscription, the source is never subscribed and the
    /// observer comes back untouched; otherwise the source is subscribed
    /// with a fresh `take_until` state wrapped around the observer.
    open spec fn sub_rel(self, o: O, out: Self::Out) -> bool {
        match out {
            TakeUntilSubOut::NotSubscribed(p, o2) => {
                &&& self.noti.sub_rel(spec_probe0::<VN, EN>(), p)
                &&& p.notified
                &&& o2 == o
            },
            TakeUntilSubOut::Subscribed(p, t) => {
                &&& self.noti.sub_rel(spec_probe0::<VN, EN>(), p)
                &&& !p.notified
                &&& self.source.sub_rel(spec_take_until0::<V, E, O>(o), t)
            },
        }
    }

    fn sub(self, o: O) -> (out: Self::Out) {
        let probe = self.noti.sub(NotiProbe::new());
        if probe.notified {
            TakeUntilSubOut::NotSubscribed(probe, o)
        } else {
            let t = self.source.sub(TakeUntilState::new(o));
            TakeUntilSubOut::Subscribed(probe, t)
        }
    }
}

/// The fluent constructor: `src.take_until(notifier)`.
pub trait ObservableTakeUntil<VN, EN>: Sized {
    /// Wrap this source so that delivery stops when the notifier emits.
    fn take_until<Noti>(self, noti: Noti) -> (r: TakeUntilOp<VN, EN, Self, Noti>)
        ensures
            r.source == self,
            r.noti == noti,
    ;
}

impl<VN, EN, Src> ObservableTakeUntil<VN, EN> for Src {
    fn take_until<Noti>(self, noti: Noti) -> (r: TakeUntilOp<VN, EN, Self, Noti>) {
        TakeUntilOp { source: self, noti, marker: PhantomData }
    }
}

} // verus!
