//! The notification encoding: the three observer events as a tagged union.

use vstd::prelude::*;

verus! {

/// One event of the observer contract, as a value: a next value, an error,
/// or completion.
#[derive(Clone, Copy, Debug, PartialEq, Eq)]
pub enum RxNoti<V, E> {
    Next(V),
    Error(E),
    Comp,
}

/// Whether a notification is terminal (error or completion).
pub open spec fn is_terminal<V, E>(n: RxNoti<V, E>) -> bool {
    !(n is Next)
}

/// How many terminal notifications a sequence of events holds.
pub open spec fn count_terminals<V, E>(evs: Seq<RxNoti<V, E>>) -> nat
    decreases evs.len(),
{
    if evs.len() == 0 {
        0
    } else {
        (if is_terminal(evs[0]) {
            1nat
        } else {
            0nat
        }) + count_terminals(evs.skip(1))
    }
}

/// Terminal counts add up over concatenation.
pub proof fn lemma_count_terminals_app<V, E>(a: Seq<RxNoti<V, E>>, b: Seq<RxNoti<V, E>>)
    ensures
        count_terminals(a + b) == count_terminals(a) + count_terminals(b),
    decreases a.len(),
{
    if a.len() == 0 {
        assert(a + b =~= b);
    } else {
        lemma_count_terminals_app(a.skip(1), b);
        assert((a + b)[0] == a[0]);
        assert((a + b).skip(1) =~= a.skip(1) + b);
    }
}

/// A sequence of plain values, as the next-notifications that carry them.
pub open spec fn as_next_events<V, E>(vs: Seq<V>) -> Seq<RxNoti<V, E>> {
    Seq::new(vs.len(), |i: int| RxNoti::Next(vs[i]))
}

/// The terminal count of a single event.
pub proof fn lemma_count_terminals_one<V, E>(ev: RxNoti<V, E>)
    ensures
        count_terminals(seq![ev]) == (if is_terminal(ev) {
            1nat
        } else {
            0nat
        }),
{
    assert(seq![ev].skip(1) =~= Seq::<RxNoti<V, E>>::empty());
    assert(count_terminals(Seq::<RxNoti<V, E>>::empty()) == 0);
}

/// Peeling the element at position `k` off the tail of a sequence.
pub proof fn lemma_seq_peel_one<T>(s: Seq<T>, k: int, x: T)
    requires
        0 <= k,
        k + 1 <= s.len(),
        s[k] == x,
    ensures
        s.skip(k) == seq![x] + s.skip(k + 1),
{
    assert(s.skip(k) =~= seq![x] + s.skip(k + 1));
}

/// The directive a notification callback hands back: leave the closed flag
/// alone, force it closed, or force it open again.
#[derive(Clone, Copy, Debug, PartialEq, Eq, Structural)]
pub enum IsClosed {
    Default,
    True,
    False,
}

/// A callback return type that can be read as a closed-flag directive, so
/// callbacks returning nothing at all stay legal.
pub trait AsIsClosed: Sized {
    /// The directive this value stands for.
    spec fn closed_flag(&self) -> IsClosed;

    /// Read the directive.
    fn is_closed(&self) -> (r: IsClosed)
        ensures
            r == self.closed_flag(),
    ;
}

impl AsIsClosed for () {
    open spec fn closed_flag(&self) -> IsClosed {
        IsClosed::Default
    }

    fn is_closed(&self) -> (r: IsClosed) {
        IsClosed::Default
    }
}

impl AsIsClosed for IsClosed {
    open spec fn closed_flag(&self) -> IsClosed {
        *self
    }

    fn is_closed(&self) -> (r: IsClosed) {
        *self
    }
}

} // verus!
