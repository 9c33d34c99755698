//! Cold sources: observables that deliver their whole sequence
//! synchronously during `sub` and hand the spent observer back. A
//! single-value source delivers exactly one value and then completes; a
//! range source delivers each integer of a half-open range in order and
//! then completes, whether or not the observer closes along the way.

use vstd::prelude::*;

use crate::noti::{as_next_events, RxNoti};
use crate::observable::{Observable, YesNo};
use crate::observer::{delivers, lemma_delivers_app, lemma_delivers_cons, lemma_delivers_empty,
    Observer};

verus! {

/// A cold source holding one value: on subscribe it delivers the value and
/// then completion, synchronously.
pub struct Of<V> {
    pub v: V,
}

impl<V> Of<V> {
    /// The source that emits exactly `v` and completes.
    pub fn value(v: V) -> (r: Of<V>)
        ensures
            r.v == v,
    {
        Of { v }
    }
}

impl<SS: YesNo, V, E, O: Observer<V, E>> Observable<SS, V, E, O> for Of<V> {
    type Out = O;

    open spec fn sub_pre(self, o: O) -> bool {
        true
    }

    /// The observer receives the one value, then completion.
    open spec fn sub_rel(self, o: O, out: Self::Out) -> bool {
        delivers(o, seq![RxNoti::<V, E>::Next(self.v), RxNoti::<V, E>::Comp], out)
    }

    fn sub(self, o: O) -> (out: Self::Out) {
        let ghost o0 = o;
        let ghost ev = RxNoti::<V, E>::Next(self.v);
        let mut d = o;
        d.next(self.v);
        let ghost m1 = d;
        d.complete();
        proof {
            lemma_delivers_empty::<V, E, O>(d);
            lemma_delivers_cons(m1, RxNoti::<V, E>::Comp, d, Seq::empty(), d);
            assert(seq![RxNoti::<V, E>::Comp] + Seq::<RxNoti<V, E>>::empty() =~= seq![
                RxNoti::<V, E>::Comp,
            ]);
            lemma_delivers_cons(o0, ev, m1, seq![RxNoti::<V, E>::Comp], d);
            assert(seq![ev] + seq![RxNoti::<V, E>::Comp] =~= seq![ev, RxNoti::<V, E>::Comp]);
        }
        d
    }
}

/// The integers of the half-open range `[lo, hi)`, in order.
pub open spec fn range_values(lo: i32, hi: i32) -> Seq<i32> {
    if lo <= hi {
        Seq::new((hi - lo) as nat, |i: int| (lo + i) as i32)
    } else {
        Seq::empty()
    }
}

/// A cold source holding a half-open integer range: on subscribe it
/// delivers every integer of the range, in order, then completion,
/// synchronously — it does not stop early for an observer that closes.
pub struct RangeSrc {
    pub lo: i32,
    pub hi: i32,
}

/// The source that emits `lo, lo + 1, ..., hi - 1` and completes.
pub fn range(lo: i32, hi: i32) -> (r: RangeSrc)
    ensures
        r.lo == lo,
        r.hi == hi,
{
    RangeSrc { lo, hi }
}

impl<SS: YesNo, E, O: Observer<i32, E>> Observable<SS, i32, E, O> for RangeSrc {
    type Out = O;

    open spec fn sub_pre(self, o: O) -> bool {
        true
    }

    /// The observer receives each integer of the range, in order, then
    /// completion.
    open spec fn sub_rel(self, o: O, out: Self::Out) -> bool {
        delivers(
            o,
            as_next_events::<i32, E>(range_values(self.lo, self.hi)).push(RxNoti::Comp),
            out,
        )
    }

    fn sub(self, o: O) -> (out: Self::Out) {
        let ghost o0 = o;
        let mut d = o;
        let mut i = self.lo;
        if i < self.hi {
            while i < self.hi
                invariant
                    self.lo <= i <= self.hi,
                    delivers(o0, as_next_events::<i32, E>(range_values(self.lo, i)), d),
                decreases self.hi - i,
            {
                let ghost dpre = d;
                let ghost done = range_values(self.lo, i);
                d.next(i);
                proof {
                    lemma_delivers_empty::<i32, E, O>(d);
                    lemma_delivers_cons(
                        dpre,
                        RxNoti::<i32, E>::Next(i),
                        d,
                        Seq::empty(),
                        d,
                    );
                    assert(seq![RxNoti::<i32, E>::Next(i)] + Seq::<RxNoti<i32, E>>::empty() =~= seq![
                        RxNoti::<i32, E>::Next(i),
                    ]);
                    lemma_delivers_app(
                        o0,
                        as_next_events::<i32, E>(done),
                        dpre,
                        seq![RxNoti::<i32, E>::Next(i)],
                        d,
                    );
                    assert(as_next_events::<i32, E>(done) + seq![RxNoti::<i32, E>::Next(i)]
                        =~= as_next_events::<i32, E>(range_values(self.lo, (i + 1) as i32)));
                }
                i = i + 1;
            }
        } else {
            proof {
                lemma_delivers_empty::<i32, E, O>(d);
                assert(as_next_events::<i32, E>(range_values(self.lo, self.lo))
                    =~= Seq::<RxNoti<i32, E>>::empty());
                assert(range_values(self.lo, self.hi) =~= range_values(self.lo, self.lo));
            }
        }
        let ghost dpre = d;
        d.complete();
        proof {
            lemma_delivers_empty::<i32, E, O>(d);
            lemma_delivers_cons(dpre, RxNoti::<i32, E>::Comp, d, Seq::empty(), d);
            assert(seq![RxNoti::<i32, E>::Comp] + Seq::<RxNoti<i32, E>>::empty() =~= seq![
                RxNoti::<i32, E>::Comp,
            ]);
            lemma_delivers_app(
                o0,
                as_next_events::<i32, E>(range_values(self.lo, self.hi)),
                dpre,
                seq![RxNoti::<i32, E>::Comp],
                d,
            );
            assert(as_next_events::<i32, E>(range_values(self.lo, self.hi)) + seq![
                RxNoti::<i32, E>::Comp,
            ] =~= as_next_events::<i32, E>(range_values(self.lo, self.hi)).push(RxNoti::Comp));
        }
        d
    }
}

} // verus!
