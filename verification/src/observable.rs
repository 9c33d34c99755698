//! The observable contract and the notification-callback adapter.
//!
//! An observable is a description of how to produce a sequence; subscribing
//! is its only side-effecting operation. Every observable carries a static
//! thread-safety variant marker, resolved once when a chain is composed: an
//! operator over one variant produces the same variant, so a chain confined
//! to one execution context can never be attached to a cross-thread source,
//! and the check costs nothing at delivery time.

use vstd::prelude::*;

use crate::noti::{count_terminals, is_terminal, lemma_count_terminals_app, lemma_seq_peel_one,
    AsIsClosed, IsClosed,
    RxNoti};
use crate::observer::{delivers, Observer};

verus! {

/// The thread-safety variant marker trait: a chain is composed over exactly
/// one of the two markers below.
pub trait YesNo: Sized {
}

/// The confined variant: delivery and disposal stay in the execution context
/// that subscribed.
pub struct NO;

/// The shared variant: delivery may come from any execution context.
pub struct YES;

impl YesNo for NO {
}

impl YesNo for YES {
}

/// An observable of values `V` and errors `E` under the variant `SS`, as
/// seen by an observer of type `O`. Subscribing consumes the description,
/// hands the observer over, and returns whatever the source yields for a
/// subscription: the attached state for a hot source, the spent observer for
/// a cold one.
///
/// Each impl states what its `sub` does through its own `sub_rel`.
pub trait Observable<SS: YesNo, V, E, O: Observer<V, E>>: Sized {
    /// What subscribing returns.
    type Out;

    /// What a caller must establish before subscribing.
    spec fn sub_pre(self, o: O) -> bool;

    /// The impl's own statement of what subscribing does: how `out` relates
    /// to the consumed source `self` and observer `o`.
    spec fn sub_rel(self, o: O, out: Self::Out) -> bool;

    /// Subscribe: the single side-effecting operation of an observable.
    fn sub(self, o: O) -> (out: Self::Out)
        requires
            self.sub_pre(o),
        ensures
            self.sub_rel(o, out),
    ;
}

/// The adapter that maps a single notification callback back onto the
/// three-method observer contract. It holds one closed flag:
/// a value is handed on only while the flag is clear, and the callback's
/// directive may set it; a terminal event sets the flag as it is delivered,
/// so only the first terminal reaches the callback, unless the callback
/// explicitly asks to reopen — a documented sharp edge for advanced
/// composers.
#[verifier::reject_recursive_types(R)]
pub struct MatchObserver<V, E, R, F: Fn(RxNoti<V, E>) -> R> {
    closed: bool,
    f: F,
    calls: Ghost<Seq<RxNoti<V, E>>>,
    marker: core::marker::PhantomData<R>,
}

impl<V, E, R, F: Fn(RxNoti<V, E>) -> R> MatchObserver<V, E, R, F> {
    /// The callback may be handed any notification.
    #[verifier::type_invariant]
    spec fn match_inv(self) -> bool {
        forall|ev: RxNoti<V, E>| #[trigger] self.f.requires((ev,))
    }
}

impl<V, E, R: AsIsClosed, F: Fn(RxNoti<V, E>) -> R> MatchObserver<V, E, R, F> {
    /// The callback this adapter wraps.
    pub closed spec fn callback(&self) -> F {
        self.f
    }

    /// The notifications the callback has been invoked with, in order.
    pub closed spec fn calls(&self) -> Seq<RxNoti<V, E>> {
        self.calls@
    }

    /// Wrap a callback. It starts open, with no calls made.
    pub fn new(f: F) -> (r: MatchObserver<V, E, R, F>)
        requires
            forall|ev: RxNoti<V, E>| #[trigger] f.requires((ev,)),
        ensures
            !r.closed(),
            r.calls() == Seq::<RxNoti<V, E>>::empty(),
            r.callback() == f,
    {
        MatchObserver {
            closed: false,
            f,
            calls: Ghost(Seq::empty()),
            marker: core::marker::PhantomData,
        }
    }
}

impl<V, E, R: AsIsClosed, F: Fn(RxNoti<V, E>) -> R> Observer<V, E> for MatchObserver<
    V,
    E,
    R,
    F,
> {
    open spec fn closed(&self) -> bool {
        self.closed_flag_state()
    }

    /// Once closed, nothing reaches the callback; while open, the event is
    /// handed to the callback exactly once and the callback's directive
    /// decides the new flag: a value closes only on an explicit `True`, a
    /// terminal closes unless the callback answers `False`.
    open spec fn rel(pre: Self, ev: RxNoti<V, E>, post: Self) -> bool {
        &&& post.callback() == pre.callback()
        &&& if pre.closed() {
            post.calls() == pre.calls() && post.closed()
        } else {
            exists|r: R|
                {
                    &&& #[trigger] call_ensures(pre.callback(), (ev,), r)
                    &&& post.calls() == pre.calls().push(ev)
                    &&& post.closed() == (match ev {
                        RxNoti::Next(_) => r.closed_flag() == IsClosed::True,
                        _ => r.closed_flag() != IsClosed::False,
                    })
                }
        }
    }

    fn next(&mut self, v: V) {
        proof {
            use_type_invariant(&*self);
        }
        let ghost pre = *self;
        if !self.closed {
            let ghost ev = RxNoti::<V, E>::Next(v);
            let r = (self.f)(RxNoti::Next(v));
            if r.is_closed() == IsClosed::True {
                self.closed = true;
            }
            proof {
                self.calls@ = self.calls@.push(ev);
                assert(call_ensures(pre.callback(), (ev,), r));
            }
        }
    }

    fn err(&mut self, e: E) {
        proof {
            use_type_invariant(&*self);
        }
        let ghost pre = *self;
        if !self.closed {
            self.closed = true;
            let ghost ev = RxNoti::<V, E>::Error(e);
            let r = (self.f)(RxNoti::Error(e));
            if r.is_closed() == IsClosed::False {
                self.closed = false;
            }
            proof {
                self.calls@ = self.calls@.push(ev);
                assert(call_ensures(pre.callback(), (ev,), r));
            }
        }
    }

    fn complete(&mut self) {
        proof {
            use_type_invariant(&*self);
        }
        let ghost pre = *self;
        if !self.closed {
            self.closed = true;
            let r = (self.f)(RxNoti::Comp);
            if r.is_closed() == IsClosed::False {
                self.closed = false;
            }
            proof {
                self.calls@ = self.calls@.push(RxNoti::Comp);
                assert(call_ensures(pre.callback(), (RxNoti::<V, E>::Comp,), r));
            }
        }
    }

    fn _is_closed(&self) -> (r: bool) {
        self.closed
    }
}

impl<V, E, R, F: Fn(RxNoti<V, E>) -> R> MatchObserver<V, E, R, F> {
    /// The closed flag itself.
    pub closed spec fn closed_flag_state(&self) -> bool {
        self.closed
    }
}

/// The subscribe-time adapter state for a given callback, as a spec value.
pub closed spec fn spec_match0<V, E, R, F: Fn(RxNoti<V, E>) -> R>(f: F) -> MatchObserver<
    V,
    E,
    R,
    F,
> {
    MatchObserver { closed: false, f, calls: Ghost(Seq::empty()), marker: core::marker::PhantomData }
}

/// What the subscribe-time adapter state looks like.
pub proof fn lemma_match0_parts<V, E, R: AsIsClosed, F: Fn(RxNoti<V, E>) -> R>(f: F)
    ensures
        !spec_match0::<V, E, R, F>(f).closed(),
        spec_match0::<V, E, R, F>(f).calls() == Seq::<RxNoti<V, E>>::empty(),
        spec_match0::<V, E, R, F>(f).callback() == f,
{
}

/// Subscribing through a single notification callback: the callback is
/// wrapped in a [`MatchObserver`] and that adapter is subscribed.
pub trait ObservableSubNotiHelper<SS: YesNo, V, E, R, F>: Sized {
    /// What subscribing returns.
    type NotiOut;

    /// What a caller must establish before subscribing.
    spec fn sub_noti_pre(self, f: F) -> bool;

    /// What subscribing the wrapped callback does.
    spec fn sub_noti_rel(self, f: F, out: Self::NotiOut) -> bool;

    /// Subscribe with a single callback over the notification union.
    fn sub_noti(self, f: F) -> (out: Self::NotiOut)
        requires
            self.sub_noti_pre(f),
        ensures
            self.sub_noti_rel(f, out),
    ;
}

impl<
    SS: YesNo,
    V,
    E,
    R: AsIsClosed,
    F: Fn(RxNoti<V, E>) -> R,
    Obs: Observable<SS, V, E, MatchObserver<V, E, R, F>>,
> ObservableSubNotiHelper<SS, V, E, R, F> for Obs {
    type NotiOut = Obs::Out;

    open spec fn sub_noti_pre(self, f: F) -> bool {
        &&& forall|ev: RxNoti<V, E>| #[trigger] f.requires((ev,))
        &&& self.sub_pre(spec_match0(f))
    }

    open spec fn sub_noti_rel(self, f: F, out: Self::NotiOut) -> bool {
        self.sub_rel(spec_match0(f), out)
    }

    fn sub_noti(self, f: F) -> (out: Self::NotiOut) {
        self.sub(MatchObserver::new(f))
    }
}

/// An observer made of a plain value callback: values are handed to the
/// callback, termination is ignored, and the observer never closes. The
/// ghost log `vals` holds every value the callback has been handed.
pub struct FnObserver<V, E, FN: Fn(V) -> ()> {
    f: FN,
    vals: Ghost<Seq<V>>,
    marker: core::marker::PhantomData<E>,
}

impl<V, E, FN: Fn(V) -> ()> FnObserver<V, E, FN> {
    /// The callback may be handed any value.
    #[verifier::type_invariant]
    spec fn fn_obs_inv(self) -> bool {
        forall|v: V| #[trigger] self.f.requires((v,))
    }

    /// The wrapped callback.
    pub closed spec fn callback(&self) -> FN {
        self.f
    }

    /// The values the callback has been handed, in order.
    pub closed spec fn vals(&self) -> Seq<V> {
        self.vals@
    }

    /// Wrap a value callback; nothing handed to it yet.
    pub fn new(f: FN) -> (r: Self)
        requires
            forall|v: V| #[trigger] f.requires((v,)),
        ensures
            r == spec_fn_obs::<V, E, FN>(f),
            r.callback() == f,
            r.vals() == Seq::<V>::empty(),
    {
        FnObserver { f, vals: Ghost(Seq::empty()), marker: core::marker::PhantomData }
    }
}

/// The subscribe-time state of a value-callback observer, as a spec value.
pub closed spec fn spec_fn_obs<V, E, FN: Fn(V) -> ()>(f: FN) -> FnObserver<V, E, FN> {
    FnObserver { f, vals: Ghost(Seq::empty()), marker: core::marker::PhantomData }
}

impl<V, E, FN: Fn(V) -> ()> Observer<V, E> for FnObserver<V, E, FN> {
    open spec fn closed(&self) -> bool {
        false
    }

    /// A value is handed to the callback — the relation carries the
    /// callback's own postcondition for that call — and logged; terminal
    /// events change nothing.
    open spec fn rel(pre: Self, ev: RxNoti<V, E>, post: Self) -> bool {
        &&& post.callback() == pre.callback()
        &&& match ev {
            RxNoti::Next(v) => post.vals() == pre.vals().push(v) && call_ensures(
                pre.callback(),
                (v,),
                (),
            ),
            _ => post.vals() == pre.vals(),
        }
    }

    fn next(&mut self, v: V) {
        proof {
            use_type_invariant(&*self);
        }
        let ghost pre = *self;
        let ghost ev = RxNoti::<V, E>::Next(v);
        (self.f)(v);
        proof {
            match ev {
                RxNoti::Next(vv) => {
                    self.vals@ = self.vals@.push(vv);
                    assert(call_ensures(pre.callback(), (vv,), ()));
                },
                _ => {},
            }
        }
    }

    fn err(&mut self, _e: E) {
    }

    fn complete(&mut self) {
    }

    fn _is_closed(&self) -> (r: bool) {
        false
    }
}

/// Subscribing through plain callbacks: the callbacks are wrapped in a
/// callback observer and that observer is subscribed. The callback argument
/// is a value callback alone; richer shapes subscribe a [`MatchObserver`]
/// through [`ObservableSubNotiHelper`] instead.
pub trait SubFHelper<SS: YesNo, V, E, FT>: Sized {
    /// What subscribing returns.
    type FOut;

    /// What a caller must establish before subscribing.
    spec fn subf_pre(self, f: FT) -> bool;

    /// What subscribing the wrapped callbacks does.
    spec fn subf_rel(self, f: FT, out: Self::FOut) -> bool;

    /// Subscribe with plain callbacks.
    fn subf(self, f: FT) -> (out: Self::FOut)
        requires
            self.subf_pre(f),
        ensures
            self.subf_rel(f, out),
    ;
}

impl<
    SS: YesNo,
    V,
    E,
    FN: Fn(V) -> (),
    Obs: Observable<SS, V, E, FnObserver<V, E, FN>>,
> SubFHelper<SS, V, E, FN> for Obs {
    type FOut = Obs::Out;

    open spec fn subf_pre(self, f: FN) -> bool {
        &&& forall|v: V| #[trigger] f.requires((v,))
        &&& self.sub_pre(spec_fn_obs(f))
    }

    open spec fn subf_rel(self, f: FN, out: Self::FOut) -> bool {
        self.sub_rel(spec_fn_obs(f), out)
    }

    fn subf(self, f: FN) -> (out: Self::FOut) {
        self.sub(FnObserver::new(f))
    }
}

/// An observer made of a value callback and a completion callback: values
/// go to the first, completion to the second, errors are ignored, and the
/// observer never closes. The ghost state holds every value the first
/// callback was handed and how often the second was called.
pub struct FnCompObserver<V, E, FN: Fn(V) -> (), FC: Fn() -> ()> {
    f: FN,
    fc: FC,
    vals: Ghost<Seq<V>>,
    comps: Ghost<nat>,
    marker: core::marker::PhantomData<E>,
}

impl<V, E, FN: Fn(V) -> (), FC: Fn() -> ()> FnCompObserver<V, E, FN, FC> {
    /// The callbacks may be handed any value, and called at all.
    #[verifier::type_invariant]
    spec fn fn_comp_obs_inv(self) -> bool {
        &&& forall|v: V| #[trigger] self.f.requires((v,))
        &&& self.fc.requires(())
    }

    /// The wrapped value callback.
    pub closed spec fn callback(&self) -> FN {
        self.f
    }

    /// The wrapped completion callback.
    pub closed spec fn comp_callback(&self) -> FC {
        self.fc
    }

    /// The values the value callback has been handed, in order.
    pub closed spec fn vals(&self) -> Seq<V> {
        self.vals@
    }

    /// How often the completion callback has been called.
    pub closed spec fn comps(&self) -> nat {
        self.comps@
    }

    /// Wrap the two callbacks; nothing handed to either yet.
    pub fn new(f: FN, fc: FC) -> (r: Self)
        requires
            forall|v: V| #[trigger] f.requires((v,)),
            fc.requires(()),
        ensures
            r == spec_fn_comp_obs::<V, E, FN, FC>(f, fc),
            r.callback() == f,
            r.comp_callback() == fc,
            r.vals() == Seq::<V>::empty(),
            r.comps() == 0,
    {
        FnCompObserver {
            f,
            fc,
            vals: Ghost(Seq::empty()),
            comps: Ghost(0),
            marker: core::marker::PhantomData,
        }
    }
}

/// The subscribe-time state of a value-and-completion callback observer, as
/// a spec value.
pub closed spec fn spec_fn_comp_obs<V, E, FN: Fn(V) -> (), FC: Fn() -> ()>(
    f: FN,
    fc: FC,
) -> FnCompObserver<V, E, FN, FC> {
    FnCompObserver {
        f,
        fc,
        vals: Ghost(Seq::empty()),
        comps: Ghost(0),
        marker: core::marker::PhantomData,
    }
}

impl<V, E, FN: Fn(V) -> (), FC: Fn() -> ()> Observer<V, E> for FnCompObserver<V, E, FN, FC> {
    open spec fn closed(&self) -> bool {
        false
    }

    /// A value is handed to the value callback and logged; completion is
    /// handed to the completion callback and counted; errors change
    /// nothing. The relation carries each callback's own postcondition for
    /// its call.
    open spec fn rel(pre: Self, ev: RxNoti<V, E>, post: Self) -> bool {
        &&& post.callback() == pre.callback()
        &&& post.comp_callback() == pre.comp_callback()
        &&& match ev {
            RxNoti::Next(v) => {
                &&& post.vals() == pre.vals().push(v)
                &&& call_ensures(pre.callback(), (v,), ())
                &&& post.comps() == pre.comps()
            },
            RxNoti::Error(_) => post.vals() == pre.vals() && post.comps() == pre.comps(),
            RxNoti::Comp => {
                &&& post.vals() == pre.vals()
                &&& post.comps() == pre.comps() + 1
                &&& call_ensures(pre.comp_callback(), (), ())
            },
        }
    }

    fn next(&mut self, v: V) {
        proof {
            use_type_invariant(&*self);
        }
        let ghost pre = *self;
        let ghost ev = RxNoti::<V, E>::Next(v);
        (self.f)(v);
        proof {
            match ev {
                RxNoti::Next(vv) => {
                    self.vals@ = self.vals@.push(vv);
                    assert(call_ensures(pre.callback(), (vv,), ()));
                },
                _ => {},
            }
        }
    }

    fn err(&mut self, _e: E) {
    }

    fn complete(&mut self) {
        proof {
            use_type_invariant(&*self);
        }
        (self.fc)();
        proof {
            self.comps@ = self.comps@ + 1;
        }
    }

    fn _is_closed(&self) -> (r: bool) {
        false
    }
}

/// An observer made of all three callbacks: values, errors and completion
/// each go to their own, and the observer never closes. The ghost log holds
/// every notification handed to a callback, in order.
pub struct FnEcObserver<V, E, FN: Fn(V) -> (), FE: Fn(E) -> (), FC: Fn() -> ()> {
    f: FN,
    fe: FE,
    fc: FC,
    calls: Ghost<Seq<RxNoti<V, E>>>,
    marker: core::marker::PhantomData<E>,
}

impl<V, E, FN: Fn(V) -> (), FE: Fn(E) -> (), FC: Fn() -> ()> FnEcObserver<V, E, FN, FE, FC> {
    /// The callbacks may be handed any value or error, and called at all.
    #[verifier::type_invariant]
    spec fn fn_ec_obs_inv(self) -> bool {
        &&& forall|v: V| #[trigger] self.f.requires((v,))
        &&& forall|e: E| #[trigger] self.fe.requires((e,))
        &&& self.fc.requires(())
    }

    /// The wrapped value callback.
    pub closed spec fn callback(&self) -> FN {
        self.f
    }

    /// The wrapped error callback.
    pub closed spec fn err_callback(&self) -> FE {
        self.fe
    }

    /// The wrapped completion callback.
    pub closed spec fn comp_callback(&self) -> FC {
        self.fc
    }

    /// The notifications handed to the callbacks, in order.
    pub closed spec fn calls(&self) -> Seq<RxNoti<V, E>> {
        self.calls@
    }

    /// Wrap the three callbacks; nothing handed to any yet.
    pub fn new(f: FN, fe: FE, fc: FC) -> (r: Self)
        requires
            forall|v: V| #[trigger] f.requires((v,)),
            forall|e: E| #[trigger] fe.requires((e,)),
            fc.requires(()),
        ensures
            r == spec_fn_ec_obs::<V, E, FN, FE, FC>(f, fe, fc),
            r.callback() == f,
            r.err_callback() == fe,
            r.comp_callback() == fc,
            r.calls() == Seq::<RxNoti<V, E>>::empty(),
    {
        FnEcObserver {
            f,
            fe,
            fc,
            calls: Ghost(Seq::empty()),
            marker: core::marker::PhantomData,
        }
    }
}

/// The subscribe-time state of a three-callback observer, as a spec value.
pub closed spec fn spec_fn_ec_obs<V, E, FN: Fn(V) -> (), FE: Fn(E) -> (), FC: Fn() -> ()>(
    f: FN,
    fe: FE,
    fc: FC,
) -> FnEcObserver<V, E, FN, FE, FC> {
    FnEcObserver { f, fe, fc, calls: Ghost(Seq::empty()), marker: core::marker::PhantomData }
}

impl<V, E, FN: Fn(V) -> (), FE: Fn(E) -> (), FC: Fn() -> ()> Observer<V, E> for FnEcObserver<
    V,
    E,
    FN,
    FE,
    FC,
> {
    open spec fn closed(&self) -> bool {
        false
    }

    /// Each notification is handed to its own callback and logged; the
    /// relation carries each callback's own postcondition for its call.
    open spec fn rel(pre: Self, ev: RxNoti<V, E>, post: Self) -> bool {
        &&& post.callback() == pre.callback()
        &&& post.err_callback() == pre.err_callback()
        &&& post.comp_callback() == pre.comp_callback()
        &&& post.calls() == pre.calls().push(ev)
        &&& match ev {
            RxNoti::Next(v) => call_ensures(pre.callback(), (v,), ()),
            RxNoti::Error(e) => call_ensures(pre.err_callback(), (e,), ()),
            RxNoti::Comp => call_ensures(pre.comp_callback(), (), ()),
        }
    }

    fn next(&mut self, v: V) {
        proof {
            use_type_invariant(&*self);
        }
        let ghost pre = *self;
        let ghost ev = RxNoti::<V, E>::Next(v);
        (self.f)(v);
        proof {
            match ev {
                RxNoti::Next(vv) => {
                    self.calls@ = self.calls@.push(ev);
                    assert(call_ensures(pre.callback(), (vv,), ()));
                },
                _ => {},
            }
        }
    }

    fn err(&mut self, e: E) {
        proof {
            use_type_invariant(&*self);
        }
        let ghost pre = *self;
        let ghost ev = RxNoti::<V, E>::Error(e);
        (self.fe)(e);
        proof {
            match ev {
                RxNoti::Error(ee) => {
                    self.calls@ = self.calls@.push(ev);
                    assert(call_ensures(pre.err_callback(), (ee,), ()));
                },
                _ => {},
            }
        }
    }

    fn complete(&mut self) {
        proof {
            use_type_invariant(&*self);
        }
        let ghost pre = *self;
        (self.fc)();
        proof {
            self.calls@ = self.calls@.push(RxNoti::Comp);
            assert(call_ensures(pre.comp_callback(), (), ()));
        }
    }

    fn _is_closed(&self) -> (r: bool) {
        false
    }
}

impl<
    SS: YesNo,
    V,
    E,
    FN: Fn(V) -> (),
    FC: Fn() -> (),
    Obs: Observable<SS, V, E, FnCompObserver<V, E, FN, FC>>,
> SubFHelper<SS, V, E, (FN, (), FC)> for Obs {
    type FOut = Obs::Out;

    open spec fn subf_pre(self, f: (FN, (), FC)) -> bool {
        &&& forall|v: V| #[trigger] f.0.requires((v,))
        &&& f.2.requires(())
        &&& self.sub_pre(spec_fn_comp_obs(f.0, f.2))
    }

    open spec fn subf_rel(self, f: (FN, (), FC), out: Self::FOut) -> bool {
        self.sub_rel(spec_fn_comp_obs(f.0, f.2), out)
    }

    fn subf(self, f: (FN, (), FC)) -> (out: Self::FOut) {
        let (fnx, _unit, fc) = f;
        self.sub(FnCompObserver::new(fnx, fc))
    }
}

impl<
    SS: YesNo,
    V,
    E,
    FN: Fn(V) -> (),
    FE: Fn(E) -> (),
    FC: Fn() -> (),
    Obs: Observable<SS, V, E, FnEcObserver<V, E, FN, FE, FC>>,
> SubFHelper<SS, V, E, (FN, FE, FC)> for Obs {
    type FOut = Obs::Out;

    open spec fn subf_pre(self, f: (FN, FE, FC)) -> bool {
        &&& forall|v: V| #[trigger] f.0.requires((v,))
        &&& forall|e: E| #[trigger] f.1.requires((e,))
        &&& f.2.requires(())
        &&& self.sub_pre(spec_fn_ec_obs(f.0, f.1, f.2))
    }

    open spec fn subf_rel(self, f: (FN, FE, FC), out: Self::FOut) -> bool {
        self.sub_rel(spec_fn_ec_obs(f.0, f.1, f.2), out)
    }

    fn subf(self, f: (FN, FE, FC)) -> (out: Self::FOut) {
        let (fnx, fe, fc) = f;
        self.sub(FnEcObserver::new(fnx, fe, fc))
    }
}

/// A callback that never answers `False` to a terminal notification — that
/// is, one that does not use the documented reopen edge.
pub open spec fn no_reopen<V, E, R: AsIsClosed, F: Fn(RxNoti<V, E>) -> R>(f: F) -> bool {
    forall|ev: RxNoti<V, E>, r: R|
        is_terminal(ev) && #[trigger] call_ensures(f, (ev,), r) ==> r.closed_flag()
            != IsClosed::False
}

/// A callback that never asks to close on a plain value, so it stays
/// attached until a terminal arrives.
pub open spec fn no_early_close<V, E, R: AsIsClosed, F: Fn(RxNoti<V, E>) -> R>(f: F) -> bool {
    forall|ev: RxNoti<V, E>, r: R|
        !is_terminal(ev) && #[trigger] call_ensures(f, (ev,), r) ==> r.closed_flag()
            != IsClosed::True
}

/// Exactly-once termination, the at-most half: whatever sequence of events
/// is thrown at the adapter — values, errors and completions interleaved in
/// any order — a callback that does not reopen sees at most one terminal
/// notification, and none at all if the adapter was already closed.
pub proof fn lemma_match_terminal_at_most_once<V, E, R: AsIsClosed, F: Fn(RxNoti<V, E>) -> R>(
    m0: MatchObserver<V, E, R, F>,
    evs: Seq<RxNoti<V, E>>,
    mf: MatchObserver<V, E, R, F>,
)
    requires
        delivers(m0, evs, mf),
        no_reopen(m0.callback()),
    ensures
        mf.callback() == m0.callback(),
        mf.calls().len() >= m0.calls().len(),
        mf.calls().subrange(0, m0.calls().len() as int) == m0.calls(),
        count_terminals(mf.calls().skip(m0.calls().len() as int)) <= (if m0.closed() {
            0nat
        } else {
            1nat
        }),
        count_terminals(mf.calls().skip(m0.calls().len() as int)) >= 1 ==> mf.closed(),
        m0.closed() ==> mf.closed(),
    decreases evs.len(),
{
    if evs.len() == 0 {
        assert(mf.calls().subrange(0, m0.calls().len() as int) =~= m0.calls());
        assert(mf.calls().skip(m0.calls().len() as int) =~= Seq::<RxNoti<V, E>>::empty());
    } else {
        let m1 = choose|m: MatchObserver<V, E, R, F>|
            #[trigger] Observer::<V, E>::rel(m0, evs[0], m) && delivers(m, evs.skip(1), mf);
        lemma_match_terminal_at_most_once(m1, evs.skip(1), mf);
        let app1 = mf.calls().skip(m1.calls().len() as int);
        let app0 = mf.calls().skip(m0.calls().len() as int);
        if m0.closed() {
            assert(m1.calls() == m0.calls());
            assert(app0 == app1);
        } else {
            let k = m0.calls().len() as int;
            assert(m1.calls() == m0.calls().push(evs[0]));
            assert(mf.calls()[k] == evs[0]) by {
                assert(mf.calls().subrange(0, m1.calls().len() as int) == m1.calls());
                assert(mf.calls().subrange(0, m1.calls().len() as int)[k] == mf.calls()[k]);
                assert(m1.calls()[k] == evs[0]);
            }
            lemma_seq_peel_one(mf.calls(), k, evs[0]);
            assert(app0 == seq![evs[0]] + app1);
            lemma_count_terminals_app(seq![evs[0]], app1);
            assert(count_terminals(seq![evs[0]].skip(1)) == 0) by {
                assert(seq![evs[0]].skip(1) =~= Seq::<RxNoti<V, E>>::empty());
            }
            if is_terminal(evs[0]) {
                assert(m1.closed());
            }
        }
        assert(mf.calls().subrange(0, m0.calls().len() as int) =~= m0.calls()) by {
            assert(mf.calls().subrange(0, m1.calls().len() as int) == m1.calls());
            if !m0.closed() {
                assert forall|i: int| 0 <= i < m0.calls().len() implies mf.calls()[i]
                    == m0.calls()[i] by {
                    assert(mf.calls().subrange(0, m1.calls().len() as int)[i] == mf.calls()[i]);
                    assert(m1.calls()[i] == m0.calls()[i]);
                }
            }
        }
    }
}

/// Exactly-once termination, the at-least half: a plain callback — one that
/// neither reopens nor closes early on a value — receives exactly one
/// terminal notification whenever the event sequence holds at least one.
pub proof fn lemma_match_terminal_exactly_once<V, E, R: AsIsClosed, F: Fn(RxNoti<V, E>) -> R>(
    m0: MatchObserver<V, E, R, F>,
    evs: Seq<RxNoti<V, E>>,
    mf: MatchObserver<V, E, R, F>,
)
    requires
        delivers(m0, evs, mf),
        no_reopen(m0.callback()),
        no_early_close(m0.callback()),
        !m0.closed(),
        count_terminals(evs) >= 1,
    ensures
        count_terminals(mf.calls().skip(m0.calls().len() as int)) == 1,
    decreases evs.len(),
{
    let m1 = choose|m: MatchObserver<V, E, R, F>|
        #[trigger] Observer::<V, E>::rel(m0, evs[0], m) && delivers(m, evs.skip(1), mf);
    lemma_match_terminal_at_most_once(m0, evs, mf);
    lemma_match_terminal_at_most_once(m1, evs.skip(1), mf);
    assert(m1.calls() == m0.calls().push(evs[0]));
    let k = m0.calls().len() as int;
    let app0 = mf.calls().skip(k);
    let app1 = mf.calls().skip(m1.calls().len() as int);
    assert(mf.calls()[k] == evs[0]) by {
        assert(mf.calls().subrange(0, m1.calls().len() as int) == m1.calls());
        assert(mf.calls().subrange(0, m1.calls().len() as int)[k] == mf.calls()[k]);
        assert(m1.calls()[k] == evs[0]);
    }
    lemma_seq_peel_one(mf.calls(), k, evs[0]);
    assert(app0 == seq![evs[0]] + app1);
    lemma_count_terminals_app(seq![evs[0]], app1);
    assert(count_terminals(seq![evs[0]].skip(1)) == 0) by {
        assert(seq![evs[0]].skip(1) =~= Seq::<RxNoti<V, E>>::empty());
    }
    if is_terminal(evs[0]) {
        assert(count_terminals(seq![evs[0]]) == 1);
    } else {
        assert(!m1.closed());
        lemma_match_terminal_exactly_once(m1, evs.skip(1), mf);
    }
}

} // verus!
