//! The `filter` operator: forward a value exactly when the predicate
//! answers true; termination passes through once, guarded by a done flag, so
//! a racing upstream cannot double-deliver a terminal event.

use vstd::prelude::*;

use core::marker::PhantomData;

use crate::noti::{as_next_events, count_terminals, lemma_count_terminals_app,
    lemma_count_terminals_one, RxNoti};
use crate::observable::{Observable, YesNo};
use crate::observer::{delivers, lemma_delivers_cons, lemma_delivers_empty, Observer};

verus! {

/// A predicate that may be asked about any value: the callability is carried
/// by the type, so the observer wrapping it needs no precondition of its
/// own.
pub struct PredFn<V, F: Fn(&V) -> bool> {
    f: F,
    marker: PhantomData<V>,
}

impl<V, F: Fn(&V) -> bool> PredFn<V, F> {
    /// The predicate may be asked about any value.
    #[verifier::type_invariant]
    spec fn pred_inv(self) -> bool {
        forall|v: V| #[trigger] self.f.requires((&v,))
    }

    /// The wrapped predicate.
    pub closed spec fn spec_f(&self) -> F {
        self.f
    }

    /// The decision relation of the wrapped predicate: `dec(v, b)` holds
    /// exactly when asking about `v` can answer `b`.
    pub open spec fn dec(&self, v: V, b: bool) -> bool {
        call_ensures(self.spec_f(), (&v,), b)
    }

    /// Certify a predicate as total.
    pub fn new(f: F) -> (r: Self)
        requires
            forall|v: V| #[trigger] f.requires((&v,)),
        ensures
            r == spec_pred(f),
            r.spec_f() == f,
    {
        PredFn { f, marker: PhantomData }
    }

    /// Ask the predicate about one value.
    pub fn call(&self, v: &V) -> (b: bool)
        ensures
            self.dec(*v, b),
    {
        proof {
            use_type_invariant(self);
        }
        (self.f)(v)
    }
}

/// The certified form of a given predicate, as a spec value.
pub closed spec fn spec_pred<V, F: Fn(&V) -> bool>(f: F) -> PredFn<V, F> {
    PredFn { f, marker: PhantomData }
}

/// The certified form wraps exactly the predicate it was made from.
pub proof fn lemma_spec_pred_f<V, F: Fn(&V) -> bool>(f: F)
    ensures
        spec_pred::<V, F>(f).spec_f() == f,
{
}

/// The per-subscription state of one `filter` subscription: the predicate,
/// the done flag that deduplicates termination, and the downstream observer.
pub struct FilterObserver<V, E, F: Fn(&V) -> bool, O> {
    pub done: bool,
    pub f: PredFn<V, F>,
    pub dest: O,
    pub marker: PhantomData<E>,
}

/// The `filter` state at subscribe time, as a spec value.
pub open spec fn spec_filter0<V, E, F: Fn(&V) -> bool, O>(f: PredFn<V, F>, dest: O) -> FilterObserver<
    V,
    E,
    F,
    O,
> {
    FilterObserver { done: false, f, dest, marker: PhantomData }
}

impl<V, E, F: Fn(&V) -> bool, O: Observer<V, E>> FilterObserver<V, E, F, O> {
    /// The state at subscribe time: nothing seen yet.
    pub fn new(f: PredFn<V, F>, dest: O) -> (r: Self)
        ensures
            r == spec_filter0::<V, E, F, O>(f, dest),
    {
        FilterObserver { done: false, f, dest, marker: PhantomData }
    }
}

impl<V, E, F: Fn(&V) -> bool, O: Observer<V, E>> Observer<V, E> for FilterObserver<V, E, F, O> {
    open spec fn closed(&self) -> bool {
        self.done
    }

    /// A value is forwarded exactly when the predicate, asked once, answers
    /// true; the first terminal passes through and sets the done flag; after
    /// that, nothing moves.
    open spec fn rel(pre: Self, ev: RxNoti<V, E>, post: Self) -> bool {
        &&& post.f.spec_f() == pre.f.spec_f()
        &&& if pre.done {
            post == pre
        } else {
            match ev {
                RxNoti::Next(v) => {
                    &&& exists|b: bool|
                        {
                            &&& #[trigger] pre.f.dec(v, b)
                            &&& if b {
                                O::rel(pre.dest, ev, post.dest)
                            } else {
                                post.dest == pre.dest
                            }
                        }
                    &&& !post.done
                },
                _ => {
                    &&& O::rel(pre.dest, ev, post.dest)
                    &&& post.done
                },
            }
        }
    }

    fn next(&mut self, v: V) {
        if !self.done {
            let ghost pre = *self;
            let ghost gv = v;
            let ghost ev = RxNoti::<V, E>::Next(v);
            let b = self.f.call(&v);
            if b {
                self.dest.next(v);
            }
            proof {
                match ev {
                    RxNoti::Next(vv) => {
                        assert(pre.f.dec(vv, b));
                    },
                    _ => {},
                }
            }
        }
    }

    fn err(&mut self, e: E) {
        if !self.done {
            self.done = true;
            self.dest.err(e);
        }
    }

    fn complete(&mut self) {
        if !self.done {
            self.done = true;
            self.dest.complete();
        }
    }

    fn _is_closed(&self) -> (r: bool) {
        self.done
    }
}

/// A done `filter` subscription never moves again.
pub proof fn lemma_filter_done_stable<V, E, F: Fn(&V) -> bool, O: Observer<V, E>>(
    f0: FilterObserver<V, E, F, O>,
    evs: Seq<RxNoti<V, E>>,
    ff: FilterObserver<V, E, F, O>,
)
    requires
        delivers(f0, evs, ff),
        f0.done,
    ensures
        ff == f0,
    decreases evs.len(),
{
    if evs.len() > 0 {
        let m1 = choose|m: FilterObserver<V, E, F, O>|
            #[trigger] Observer::<V, E>::rel(f0, evs[0], m) && delivers(m, evs.skip(1), ff);
        lemma_filter_done_stable(m1, evs.skip(1), ff);
    }
}

/// The termination-deduplication law of `filter`: whatever mix of values and
/// terminal events the upstream throws at a live `filter` subscription —
/// including a predicate whose side effects race the upstream's own
/// termination — the downstream observer receives a terminal event exactly
/// once if the input holds any, and never more than once.
pub proof fn lemma_filter_terminal_once<V, E, F: Fn(&V) -> bool, O: Observer<V, E>>(
    f0: FilterObserver<V, E, F, O>,
    evs: Seq<RxNoti<V, E>>,
    ff: FilterObserver<V, E, F, O>,
)
    requires
        delivers(f0, evs, ff),
        !f0.done,
    ensures
        exists|w: Seq<RxNoti<V, E>>|
            #[trigger] delivers(f0.dest, w, ff.dest) && count_terminals(w) == (
            if count_terminals(evs) == 0 {
                0nat
            } else {
                1nat
            }),
    decreases evs.len(),
{
    if evs.len() == 0 {
        lemma_delivers_empty::<V, E, O>(f0.dest);
        assert(delivers(f0.dest, Seq::<RxNoti<V, E>>::empty(), ff.dest) && count_terminals(
            Seq::<RxNoti<V, E>>::empty(),
        ) == 0);
    } else {
        let m1 = choose|m: FilterObserver<V, E, F, O>|
            #[trigger] Observer::<V, E>::rel(f0, evs[0], m) && delivers(m, evs.skip(1), ff);
        match evs[0] {
            RxNoti::Next(v) => {
                let b = choose|b: bool|
                    {
                        &&& #[trigger] f0.f.dec(v, b)
                        &&& if b {
                            O::rel(f0.dest, evs[0], m1.dest)
                        } else {
                            m1.dest == f0.dest
                        }
                    };
                lemma_filter_terminal_once(m1, evs.skip(1), ff);
                let w1 = choose|w: Seq<RxNoti<V, E>>|
                    #[trigger] delivers(m1.dest, w, ff.dest) && count_terminals(w) == (
                    if count_terminals(evs.skip(1)) == 0 {
                        0nat
                    } else {
                        1nat
                    });
                if b {
                    lemma_delivers_cons(f0.dest, evs[0], m1.dest, w1, ff.dest);
                    lemma_count_terminals_app(seq![evs[0]], w1);
                    lemma_count_terminals_one(evs[0]);
                    assert(delivers(f0.dest, seq![evs[0]] + w1, ff.dest));
                } else {
                    assert(delivers(f0.dest, w1, ff.dest));
                }
            },
            _ => {
                lemma_filter_done_stable(m1, evs.skip(1), ff);
                let w = seq![evs[0]];
                lemma_delivers_cons(f0.dest, evs[0], m1.dest, Seq::empty(), ff.dest);
                assert(seq![evs[0]] + Seq::<RxNoti<V, E>>::empty() =~= w);
                lemma_count_terminals_one(evs[0]);
                assert(delivers(f0.dest, w, ff.dest));
            },
        }
    }
}

/// The exact-forwarding law of `filter`: when the predicate agrees with a
/// mathematical predicate `p` on every value, a `filter` subscription hands
/// its downstream observer exactly the values satisfying `p`, in order, and
/// the completion unchanged — `filter` itself never consults the
/// downstream's closed-query.
pub proof fn lemma_filter_exact<V, E, F: Fn(&V) -> bool, O: Observer<V, E>>(
    f0: FilterObserver<V, E, F, O>,
    vs: Seq<V>,
    ff: FilterObserver<V, E, F, O>,
    p: spec_fn(V) -> bool,
)
    requires
        delivers(f0, as_next_events::<V, E>(vs).push(RxNoti::Comp), ff),
        !f0.done,
        forall|v: V, b: bool| #[trigger] f0.f.dec(v, b) ==> b == p(v),
    ensures
        delivers(f0.dest, as_next_events::<V, E>(vs.filter(p)).push(RxNoti::Comp), ff.dest),
    decreases vs.len(),
{
    let evs = as_next_events::<V, E>(vs).push(RxNoti::Comp);
    let m1 = choose|m: FilterObserver<V, E, F, O>|
        #[trigger] Observer::<V, E>::rel(f0, evs[0], m) && delivers(m, evs.skip(1), ff);
    if vs.len() == 0 {
        assert(vs.filter(p) =~= Seq::<V>::empty()) by {
            reveal_with_fuel(Seq::filter, 1);
        }
        assert(evs[0] == RxNoti::<V, E>::Comp);
        assert(ff == m1);
        lemma_delivers_empty::<V, E, O>(ff.dest);
        lemma_delivers_cons(f0.dest, RxNoti::<V, E>::Comp, ff.dest, Seq::empty(), ff.dest);
        assert(seq![RxNoti::<V, E>::Comp] + Seq::<RxNoti<V, E>>::empty() =~= seq![
            RxNoti::<V, E>::Comp,
        ]);
        assert(as_next_events::<V, E>(vs.filter(p)).push(RxNoti::Comp) =~= seq![
            RxNoti::<V, E>::Comp,
        ]);
    } else {
        assert(evs[0] == RxNoti::<V, E>::Next(vs[0]));
        let b = choose|b: bool|
            {
                &&& #[trigger] f0.f.dec(vs[0], b)
                &&& if b {
                    O::rel(f0.dest, evs[0], m1.dest)
                } else {
                    m1.dest == f0.dest
                }
            };
        assert(b == p(vs[0]));
        assert(evs.skip(1) =~= as_next_events::<V, E>(vs.skip(1)).push(RxNoti::Comp));
        assert(m1.f.spec_f() == f0.f.spec_f());
        assert(forall|v: V, b2: bool| #[trigger] m1.f.dec(v, b2) ==> b2 == p(v));
        lemma_filter_exact(m1, vs.skip(1), ff, p);
        assert(vs =~= seq![vs[0]] + vs.skip(1));
        Seq::filter_distributes_over_add(seq![vs[0]], vs.skip(1), p);
        assert(seq![vs[0]].filter(p) == (if p(vs[0]) {
            seq![vs[0]]
        } else {
            Seq::<V>::empty()
        })) by {
            reveal_with_fuel(Seq::filter, 2);
            assert(seq![vs[0]].drop_last() =~= Seq::<V>::empty());
            assert(seq![vs[0]].last() == vs[0]);
            if p(vs[0]) {
                assert(Seq::<V>::empty().push(vs[0]) =~= seq![vs[0]]);
            }
        }
        let tail = as_next_events::<V, E>(vs.skip(1).filter(p)).push(RxNoti::<V, E>::Comp);
        if b {
            lemma_delivers_cons(f0.dest, evs[0], m1.dest, tail, ff.dest);
            assert(seq![evs[0]] + tail =~= as_next_events::<V, E>(vs.filter(p)).push(
                RxNoti::Comp,
            ));
        } else {
            assert(vs.filter(p) == vs.skip(1).filter(p)) by {
                assert(seq![vs[0]].filter(p) + vs.skip(1).filter(p) =~= vs.skip(1).filter(p));
            }
        }
    }
}

/// The `filter` operator over a source.
pub struct FilterOp<SS, Src, F> {
    pub f: F,
    pub src: Src,
    pub marker: PhantomData<SS>,
}

impl<
    SS: YesNo,
    V,
    E,
    F: Fn(&V) -> bool,
    O: Observer<V, E>,
    Src: Observable<SS, V, E, FilterObserver<V, E, F, O>>,
> Observable<SS, V, E, O> for FilterOp<SS, Src, F> {
    type Out = Src::Out;

    open spec fn sub_pre(self, o: O) -> bool {
        &&& forall|v: V| #[trigger] self.f.requires((&v,))
        &&& self.src.sub_pre(spec_filter0::<V, E, F, O>(spec_pred(self.f), o))
    }

    /// The source is subscribed with a fresh `filter` state, holding the
    /// predicate, wrapped around the observer.
    open spec fn sub_rel(self, o: O, out: Self::Out) -> bool {
        self.src.sub_rel(spec_filter0::<V, E, F, O>(spec_pred(self.f), o), out)
    }

    fn sub(self, o: O) -> (out: Self::Out) {
        let p = PredFn::new(self.f);
        self.src.sub(FilterObserver::new(p, o))
    }
}

/// The fluent constructor: `src.filter(pred)`.
pub trait ObservableFilterOp<SS>: Sized {
    /// Wrap this source so that only values the predicate accepts pass.
    fn filter<F>(self, f: F) -> (r: FilterOp<SS, Self, F>)
        ensures
            r.src == self,
            r.f == f,
    ;
}

impl<SS: YesNo, Src> ObservableFilterOp<SS> for Src {
    fn filter<F>(self, f: F) -> (r: FilterOp<SS, Self, F>) {
        FilterOp { f, src: self, marker: PhantomData }
    }
}

} // verus!
