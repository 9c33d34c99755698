//! The `map` operator: each value is replaced by the transform's result
//! before being forwarded, unless downstream has already closed; terminal
//! events pass through unchanged.

use vstd::prelude::*;

use core::marker::PhantomData;

use crate::noti::{as_next_events, RxNoti};
use crate::observable::{Observable, YesNo};
use crate::observer::{delivers, lemma_delivers_cons, Observer};

verus! {

/// A transform that may be applied to any value: the callability is carried
/// by the type, so the observer wrapping it needs no precondition of its
/// own.
#[verifier::reject_recursive_types(W)]
pub struct MapFn<V, W, F: Fn(V) -> W> {
    f: F,
    marker: PhantomData<(V, W)>,
}

impl<V, W, F: Fn(V) -> W> MapFn<V, W, F> {
    /// The transform may be applied to any value.
    #[verifier::type_invariant]
    spec fn map_inv(self) -> bool {
        forall|v: V| #[trigger] self.f.requires((v,))
    }

    /// The wrapped transform.
    pub closed spec fn spec_f(&self) -> F {
        self.f
    }

    /// The graph of the wrapped transform: `maps(v, w)` holds exactly when
    /// applying it to `v` can yield `w`.
    pub open spec fn maps(&self, v: V, w: W) -> bool {
        call_ensures(self.spec_f(), (v,), w)
    }

    /// Certify a transform as total.
    pub fn new(f: F) -> (r: Self)
        requires
            forall|v: V| #[trigger] f.requires((v,)),
        ensures
            r == spec_map_fn(f),
            r.spec_f() == f,
    {
        MapFn { f, marker: PhantomData }
    }

    /// Apply the transform to one value.
    pub fn call(&self, v: V) -> (w: W)
        ensures
            self.maps(v, w),
    {
        proof {
            use_type_invariant(self);
        }
        (self.f)(v)
    }
}

/// The certified form of a given transform, as a spec value.
pub closed spec fn spec_map_fn<V, W, F: Fn(V) -> W>(f: F) -> MapFn<V, W, F> {
    MapFn { f, marker: PhantomData }
}

/// The certified form wraps exactly the transform it was made from.
pub proof fn lemma_spec_map_fn_f<V, W, F: Fn(V) -> W>(f: F)
    ensures
        spec_map_fn::<V, W, F>(f).spec_f() == f,
{
}

/// The per-subscription state of one `map` subscription: the transform and
/// the downstream observer. `map` keeps no flag of its own; it follows the
/// downstream's closed-query.
#[verifier::reject_recursive_types(W)]
pub struct MapObserver<V, E, W, F: Fn(V) -> W, O> {
    pub f: MapFn<V, W, F>,
    pub dest: O,
    pub marker: PhantomData<E>,
}

/// The `map` state at subscribe time, as a spec value.
pub open spec fn spec_map0<V, E, W, F: Fn(V) -> W, O>(f: MapFn<V, W, F>, dest: O) -> MapObserver<
    V,
    E,
    W,
    F,
    O,
> {
    MapObserver { f, dest, marker: PhantomData }
}

impl<V, E, W, F: Fn(V) -> W, O: Observer<W, E>> MapObserver<V, E, W, F, O> {
    /// The state at subscribe time.
    pub fn new(f: MapFn<V, W, F>, dest: O) -> (r: Self)
        ensures
            r == spec_map0::<V, E, W, F, O>(f, dest),
    {
        MapObserver { f, dest, marker: PhantomData }
    }
}

impl<V, E, W, F: Fn(V) -> W, O: Observer<W, E>> Observer<V, E> for MapObserver<V, E, W, F, O> {
    open spec fn closed(&self) -> bool {
        self.dest.closed()
    }

    /// The transform is applied to each value; the result is forwarded
    /// unless downstream has already closed; terminals pass through
    /// unchanged.
    open spec fn rel(pre: Self, ev: RxNoti<V, E>, post: Self) -> bool {
        &&& post.f.spec_f() == pre.f.spec_f()
        &&& match ev {
            RxNoti::Next(v) => exists|w: W|
                {
                    &&& #[trigger] pre.f.maps(v, w)
                    &&& if pre.dest.closed() {
                        post.dest == pre.dest
                    } else {
                        O::rel(pre.dest, RxNoti::Next(w), post.dest)
                    }
                },
            RxNoti::Error(e) => O::rel(pre.dest, RxNoti::Error(e), post.dest),
            RxNoti::Comp => O::rel(pre.dest, RxNoti::Comp, post.dest),
        }
    }

    fn next(&mut self, v: V) {
        let ghost pre = *self;
        let ghost ev = RxNoti::<V, E>::Next(v);
        let w = self.f.call(v);
        if !self.dest._is_closed() {
            self.dest.next(w);
        }
        proof {
            match ev {
                RxNoti::Next(vv) => {
                    assert(pre.f.maps(vv, w));
                },
                _ => {},
            }
        }
    }

    fn err(&mut self, e: E) {
        self.dest.err(e);
    }

    fn complete(&mut self) {
        self.dest.complete();
    }

    fn _is_closed(&self) -> (r: bool) {
        self.dest._is_closed()
    }
}

/// The exact-transform law of `map`: when the transform agrees with a
/// mathematical function `fm` on every value, a `map` subscription over a
/// downstream that never closes hands that downstream exactly the images of
/// the source's values, in order, and the completion unchanged.
pub proof fn lemma_map_exact<V, E, W, F: Fn(V) -> W, O: Observer<W, E>>(
    mp0: MapObserver<V, E, W, F, O>,
    vs: Seq<V>,
    mpf: MapObserver<V, E, W, F, O>,
    fm: spec_fn(V) -> W,
)
    requires
        delivers(mp0, as_next_events::<V, E>(vs).push(RxNoti::Comp), mpf),
        forall|d: O| !(#[trigger] d.closed()),
        forall|v: V, w: W| #[trigger] mp0.f.maps(v, w) ==> w == fm(v),
    ensures
        delivers(
            mp0.dest,
            as_next_events::<W, E>(Seq::new(vs.len(), |i: int| fm(vs[i]))).push(RxNoti::Comp),
            mpf.dest,
        ),
    decreases vs.len(),
{
    let evs = as_next_events::<V, E>(vs).push(RxNoti::Comp);
    let m1 = choose|m: MapObserver<V, E, W, F, O>|
        #[trigger] Observer::<V, E>::rel(mp0, evs[0], m) && delivers(m, evs.skip(1), mpf);
    let ws = Seq::new(vs.len(), |i: int| fm(vs[i]));
    if vs.len() == 0 {
        assert(evs[0] == RxNoti::<V, E>::Comp);
        assert(mpf == m1);
        assert(as_next_events::<W, E>(ws).push(RxNoti::Comp) =~= seq![RxNoti::<W, E>::Comp]);
        lemma_delivers_cons(mp0.dest, RxNoti::<W, E>::Comp, mpf.dest, Seq::empty(), mpf.dest);
        assert(seq![RxNoti::<W, E>::Comp] + Seq::<RxNoti<W, E>>::empty() =~= seq![
            RxNoti::<W, E>::Comp,
        ]);
    } else {
        assert(evs[0] == RxNoti::<V, E>::Next(vs[0]));
        let w = choose|w: W|
            {
                &&& #[trigger] mp0.f.maps(vs[0], w)
                &&& if mp0.dest.closed() {
                    m1.dest == mp0.dest
                } else {
                    O::rel(mp0.dest, RxNoti::Next(w), m1.dest)
                }
            };
        assert(w == fm(vs[0]));
        assert(evs.skip(1) =~= as_next_events::<V, E>(vs.skip(1)).push(RxNoti::Comp));
        assert(m1.f.spec_f() == mp0.f.spec_f());
        assert(forall|v: V, w2: W| #[trigger] m1.f.maps(v, w2) ==> w2 == fm(v));
        lemma_map_exact(m1, vs.skip(1), mpf, fm);
        let ws1 = Seq::new(vs.skip(1).len(), |i: int| fm(vs.skip(1)[i]));
        let tail = as_next_events::<W, E>(ws1).push(RxNoti::Comp);
        lemma_delivers_cons(mp0.dest, RxNoti::<W, E>::Next(w), m1.dest, tail, mpf.dest);
        assert(seq![RxNoti::<W, E>::Next(w)] + tail =~= as_next_events::<W, E>(ws).push(
            RxNoti::Comp,
        ));
    }
}

/// The `map` operator over a source. `V` is the source's value type, which
/// the transform consumes.
pub struct MapOp<SS, V, Src, F> {
    pub f: F,
    pub src: Src,
    pub marker: PhantomData<(SS, V)>,
}

impl<
    SS: YesNo,
    V,
    E,
    W,
    F: Fn(V) -> W,
    O: Observer<W, E>,
    Src: Observable<SS, V, E, MapObserver<V, E, W, F, O>>,
> Observable<SS, W, E, O> for MapOp<SS, V, Src, F> {
    type Out = Src::Out;

    open spec fn sub_pre(self, o: O) -> bool {
        &&& forall|v: V| #[trigger] self.f.requires((v,))
        &&& self.src.sub_pre(spec_map0::<V, E, W, F, O>(spec_map_fn(self.f), o))
    }

    /// The source is subscribed with a fresh `map` state, holding the
    /// transform, wrapped around the observer.
    open spec fn sub_rel(self, o: O, out: Self::Out) -> bool {
        self.src.sub_rel(spec_map0::<V, E, W, F, O>(spec_map_fn(self.f), o), out)
    }

    fn sub(self, o: O) -> (out: Self::Out) {
        let f = MapFn::new(self.f);
        self.src.sub(MapObserver::new(f, o))
    }
}

/// The fluent constructor: `src.map(f)`.
pub trait ObsMapOp<SS, V>: Sized {
    /// Wrap this source so that each value is transformed before delivery.
    fn map<F>(self, f: F) -> (r: MapOp<SS, V, Self, F>)
        ensures
            r.src == self,
            r.f == f,
    ;
}

impl<SS: YesNo, V, Src> ObsMapOp<SS, V> for Src {
    fn map<F>(self, f: F) -> (r: MapOp<SS, V, Self, F>) {
        MapOp { f, src: self, marker: PhantomData }
    }
}

} // verus!
