//! The disposal token: a handle owning zero-or-more teardown actions.
//!
//! Disposing runs every registered action at most once; disposing again has
//! no further effect. The token's history is modelled by [`UnsubModel`]: the
//! actions still pending and the actions already run, and the exec methods
//! are each proved to step the model by the matching spec function, so the
//! idempotence law is a statement about the model alone.

use vstd::prelude::*;

verus! {

/// The model of a disposal token: its flag, the teardown actions registered
/// but not yet run, and the actions already run, in order.
pub struct UnsubModel<F> {
    pub disposed: bool,
    pub pending: Seq<F>,
    pub ran: Seq<F>,
}

/// What registering one more teardown action does to the model: pending when
/// the token is live, run immediately when it is already disposed.
pub open spec fn add_step<F>(m: UnsubModel<F>, f: F) -> UnsubModel<F> {
    if m.disposed {
        UnsubModel { disposed: true, pending: m.pending, ran: m.ran.push(f) }
    } else {
        UnsubModel { disposed: false, pending: m.pending.push(f), ran: m.ran }
    }
}

/// Every action of a list has been run: its own postcondition for one
/// unit call holds of each.
pub open spec fn all_ran<F: Fn() -> ()>(actions: Seq<F>) -> bool {
    forall|i: int| 0 <= i < actions.len() ==> call_ensures(#[trigger] actions[i], (), ())
}

/// What disposing does to the model: the first call moves every pending
/// action to the ran log; any later call changes nothing.
pub open spec fn dispose_step<F>(m: UnsubModel<F>) -> UnsubModel<F> {
    if m.disposed {
        m
    } else {
        UnsubModel { disposed: true, pending: Seq::empty(), ran: m.ran + m.pending }
    }
}

/// What absorbing another token's pending actions does to the model: they
/// join this token's pending list, or run at once if it is already disposed.
pub open spec fn added_each_step<F>(m: UnsubModel<F>, child: Seq<F>) -> UnsubModel<F> {
    if m.disposed {
        UnsubModel { disposed: true, pending: m.pending, ran: m.ran + child }
    } else {
        UnsubModel { disposed: false, pending: m.pending + child, ran: m.ran }
    }
}

/// A disposal token. `F` is the teardown action type; actions run in
/// registration order on the first `dispose`.
pub struct Unsub<F> {
    disposed: bool,
    actions: Vec<F>,
    ran: Ghost<Seq<F>>,
}

impl<F: Fn() -> ()> View for Unsub<F> {
    type V = UnsubModel<F>;

    closed spec fn view(&self) -> UnsubModel<F> {
        UnsubModel { disposed: self.disposed, pending: self.actions@, ran: self.ran@ }
    }
}

impl<F: Fn() -> ()> Unsub<F> {
    /// Every stored action may be called, and a disposed token holds none.
    pub closed spec fn wf(&self) -> bool {
        &&& forall|i: int| 0 <= i < self.actions@.len() ==> (#[trigger] self.actions@[i]).requires(
            (),
        )
        &&& self.disposed ==> self.actions@.len() == 0
    }

    /// A live token with no teardown actions and nothing run yet.
    pub fn new() -> (r: Unsub<F>)
        ensures
            r@ == (UnsubModel::<F> { disposed: false, pending: Seq::empty(), ran: Seq::empty() }),
            r.wf(),
    {
        Unsub { disposed: false, actions: Vec::new(), ran: Ghost(Seq::empty()) }
    }

    /// Whether the token has been disposed.
    pub fn is_disposed(&self) -> (r: bool)
        ensures
            r == self@.disposed,
    {
        self.disposed
    }

    /// Register one more teardown action; it runs immediately if the token
    /// is already disposed.
    pub fn add(&mut self, f: F)
        requires
            old(self).wf(),
            f.requires(()),
        ensures
            final(self).wf(),
            final(self)@ == add_step(old(self)@, f),
            old(self)@.disposed ==> call_ensures(f, (), ()),
    {
        if self.disposed {
            let ghost fg = f;
            f();
            proof {
                self.ran@ = self.ran@.push(fg);
            }
        } else {
            self.actions.push(f);
        }
    }

    /// Run every pending teardown action, at most once each; later calls
    /// change nothing.
    pub fn dispose(&mut self)
        requires
            old(self).wf(),
        ensures
            final(self).wf(),
            final(self)@ == dispose_step(old(self)@),
            all_ran(old(self)@.pending),
    {
        if self.disposed {
            return ;
        }
        self.disposed = true;
        let ghost pending0 = self.actions@;
        let ghost ran0 = self.ran@;
        while self.actions.len() > 0
            invariant
                self.disposed,
                forall|i: int|
                    0 <= i < self.actions@.len() ==> (#[trigger] self.actions@[i]).requires(()),
                pending0 == self.ran@.subrange(ran0.len() as int, self.ran@.len() as int)
                    + self.actions@,
                self.ran@.subrange(0, ran0.len() as int) == ran0,
                self.ran@.len() >= ran0.len(),
                forall|i: int|
                    0 <= i < pending0.len() - self.actions@.len() ==> call_ensures(
                        #[trigger] pending0[i],
                        (),
                        (),
                    ),
            decreases self.actions.len(),
        {
            let ghost k = pending0.len() - self.actions@.len();
            let f = self.actions.remove(0);
            let ghost fg = f;
            f();
            proof {
                self.ran@ = self.ran@.push(fg);
                assert(self.ran@.subrange(0, ran0.len() as int) =~= ran0);
                assert(self.ran@.subrange(ran0.len() as int, self.ran@.len() as int)
                    =~= self.ran@.subrange(ran0.len() as int, self.ran@.len() - 1).push(fg));
                assert(pending0[k] == fg);
                assert(call_ensures(pending0[k], (), ()));
            }
        }
        proof {
            assert(self.ran@ =~= ran0 + pending0);
            assert(self.actions@ =~= Seq::empty());
        }
    }

    /// Absorb another token's pending teardown actions, so that disposing
    /// this token also runs the child's teardown. The child's own flag and
    /// run log are spent: only its pending actions move; on an already
    /// disposed token they run at once.
    pub fn added_each(&mut self, child: Unsub<F>)
        requires
            old(self).wf(),
            child.wf(),
        ensures
            final(self).wf(),
            final(self)@ == added_each_step(old(self)@, child@.pending),
            old(self)@.disposed ==> all_ran(child@.pending),
    {
        let Unsub { disposed: _, mut actions, ran: _ } = child;
        let ghost child0 = actions@;
        let ghost m0 = self@;
        while actions.len() > 0
            invariant
                old(self).wf(),
                self.wf(),
                forall|i: int| 0 <= i < actions@.len() ==> (#[trigger] actions@[i]).requires(()),
                child0 == child0.subrange(0, child0.len() - actions@.len()) + actions@,
                self@ == added_each_step(m0, child0.subrange(0, child0.len() - actions@.len())),
                m0.disposed ==> forall|i: int|
                    0 <= i < child0.len() - actions@.len() ==> call_ensures(
                        #[trigger] child0[i],
                        (),
                        (),
                    ),
            decreases actions.len(),
        {
            let ghost actions_pre = actions@;
            let ghost self_pre = self@;
            let f = actions.remove(0);
            let ghost fg = f;
            self.add(f);
            proof {
                let k = child0.len() - actions_pre.len();
                assert(child0[k] == fg);
                if m0.disposed {
                    assert(self_pre.disposed);
                    assert(call_ensures(fg, (), ()));
                }
                assert(child0.subrange(0, k + 1) =~= child0.subrange(0, k).push(f));
                assert(child0 =~= child0.subrange(0, k + 1) + actions@);
                if m0.disposed {
                    assert(self@.ran =~= m0.ran + child0.subrange(0, k + 1));
                } else {
                    assert(self@.pending =~= m0.pending + child0.subrange(0, k + 1));
                }
            }
        }
        proof {
            assert(child0.subrange(0, child0.len() as int) =~= child0);
        }
    }
}

/// Disposal is idempotent: the first `dispose` runs every registered action
/// exactly once, and a second `dispose` runs nothing more, so however many
/// times a token is disposed, each registered teardown action appears in the
/// run log exactly once.
pub proof fn lemma_dispose_idempotent<F>(m: UnsubModel<F>)
    requires
        !m.disposed,
    ensures
        dispose_step(m).ran == m.ran + m.pending,
        dispose_step(dispose_step(m)) == dispose_step(m),
{
}

} // verus!
