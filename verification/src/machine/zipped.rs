//! Two machines side by side, driven in lock step.

use core::marker::PhantomData;
use vstd::prelude::*;

use super::Machine;

verus! {

/// Two machines over one alphabet, run in parallel. The menu is that of
/// `machine1`; every edge is handed to both machines; the state is the two
/// states combined by `f`.
pub struct ZippedMachine<T, U, M1, M2, F> {
    pub t: PhantomData<T>,
    pub u: PhantomData<U>,
    pub machine1: M1,
    pub machine2: M2,
    pub f: F,
}

impl<M1, M2, F, T, U, V> Machine<V> for ZippedMachine<T, U, M1, M2, F> where
    M1: Machine<T>,
    M2: Machine<U, Transition = M1::Transition>,
    F: Fn(T, U) -> V,
 {
    type Transition = M1::Transition;

    open spec fn wf(&self) -> bool {
        &&& self.machine1.wf()
        &&& self.machine2.wf()
        &&& forall|state1: T, state2: U| call_requires(self.f, (state1, state2))
    }

    open spec fn offers(&self, menu: Seq<M1::Transition>) -> bool {
        self.machine1.offers(menu)
    }

    open spec fn shows(&self, state: V) -> bool {
        exists|state1: T, state2: U|
            {
                &&& #[trigger] self.machine1.shows(state1)
                &&& #[trigger] self.machine2.shows(state2)
                &&& call_ensures(self.f, (state1, state2), state)
            }
    }

    open spec fn after(&self, edge: M1::Transition, next: Self) -> bool {
        &&& self.machine1.after(edge, next.machine1)
        &&& self.machine2.after(edge, next.machine2)
        &&& next.f == self.f
    }

    /// Both machines keep to their menus at `edge`, and the second one does
    /// not have it on a menu of its own.
    open spec fn guards(&self, edge: M1::Transition) -> bool {
        &&& self.machine1.guards(edge)
        &&& self.machine2.guards(edge)
        &&& exists|menu2: Seq<M1::Transition>| #[trigger]
            self.machine2.offers(menu2) && !menu2.contains(edge)
    }

    fn edges(&self) -> (menu: Vec<M1::Transition>) {
        self.machine1.edges()
    }

    fn state(&mut self) -> (state: V) {
        let state1 = self.machine1.state();
        let state2 = self.machine2.state();
        (self.f)(state1, state2)
    }

    fn traverse(&mut self, edge: &M1::Transition) {
        self.machine1.traverse(edge);
        self.machine2.traverse(edge);
    }
}

/// Lock-step broadcast: one transition of the pair is that transition taken
/// by each of the two machines, and what the pair then shows is a
/// combination, by `f`, of what the two then show.
pub proof fn lemma_zip_broadcast<M1, M2, F, T, U, V>(
    zipped: ZippedMachine<T, U, M1, M2, F>,
    edge: M1::Transition,
    next: ZippedMachine<T, U, M1, M2, F>,
    state: V,
) where M1: Machine<T>, M2: Machine<U, Transition = M1::Transition>, F: Fn(T, U) -> V
    requires
        zipped.after(edge, next),
        next.shows(state),
    ensures
        zipped.machine1.after(edge, next.machine1),
        zipped.machine2.after(edge, next.machine2),
        exists|state1: T, state2: U|
            {
                &&& #[trigger] next.machine1.shows(state1)
                &&& #[trigger] next.machine2.shows(state2)
                &&& call_ensures(zipped.f, (state1, state2), state)
            },
{
}

} // verus!
