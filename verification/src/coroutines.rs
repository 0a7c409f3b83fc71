//! Elementary machines: a process that suspends at choice points, wrapped
//! so that it can be driven as a machine.
//!
//! A process runs from one choice point to the next. At a choice point it
//! hands out what it wants to show together with the transitions it offers,
//! and waits to be resumed with the transition that was chosen.

use core::marker::PhantomData;
use vstd::prelude::*;

use crate::machine::Machine;

verus! {

/// What a process did when it was resumed: it stopped at its next choice
/// point, or it ran to its end.
#[derive(Debug, PartialEq, Eq)]
pub enum CoroutineState<Y, R> {
    Yielded(Y),
    Complete(R),
}

/// A process that never ends: every time it is resumed it runs to its next
/// choice point, where it yields its state and a non-empty menu.
///
/// An implementation that does not define the two relations is taken to be
/// resumable at any time, with any outcome.
pub trait StateMachine<Action, State>: Sized {
    /// The process may be resumed.
    open spec fn resumable(&self) -> bool {
        true
    }

    /// Resumed with `action`, the process may yield `yielded` and become
    /// `next`.
    open spec fn resumes(&self, action: Action, yielded: (State, Seq<Action>), next: Self) -> bool {
        true
    }

    /// Runs the process, with `action` as the transition chosen, up to its
    /// next choice point.
    fn resume(&mut self, action: Action) -> (yielded: (State, Vec<Action>))
        requires
            old(self).resumable(),
        ensures
            final(self).resumable(),
            old(self).resumes(action, (yielded.0, yielded.1@), *final(self)),
            yielded.1@.len() > 0,
    ;
}

/// A process that ends with a result: resumed, it either yields a
/// non-empty menu at its next choice point or completes. Once it has
/// completed it is not resumed again.
///
/// An implementation that does not define the two relations is taken to be
/// resumable at any time, with any outcome.
pub trait ChainStateMachine<Action, Result>: Sized {
    /// The process may be resumed.
    open spec fn resumable(&self) -> bool {
        true
    }

    /// Resumed with `action`, the process may end up as `next` with
    /// `outcome`.
    open spec fn resumes(
        &self,
        action: Action,
        outcome: CoroutineState<Seq<Action>, Result>,
        next: Self,
    ) -> bool {
        true
    }

    /// Runs the process, with `action` as the transition chosen, up to its
    /// next choice point or to its end.
    fn resume(&mut self, action: Action) -> (outcome: CoroutineState<Vec<Action>, Result>)
        requires
            old(self).resumable(),
        ensures
            old(self).resumes(action, menu_view(outcome), *final(self)),
            outcome matches CoroutineState::Yielded(menu) ==> final(self).resumable() && menu@.len()
                > 0,
    ;
}

/// An outcome with its menu as a sequence.
pub open spec fn menu_view<A, R>(outcome: CoroutineState<Vec<A>, R>) -> CoroutineState<Seq<A>, R> {
    match outcome {
        CoroutineState::Yielded(menu) => CoroutineState::Yielded(menu@),
        CoroutineState::Complete(result) => CoroutineState::Complete(result),
    }
}

/// Whether `edge` is on `menu`.
pub fn offered<A: PartialEq>(menu: &Vec<A>, edge: &A) -> (found: bool)
    requires
        crate::machine::eq_exact::<A>(),
    ensures
        found == menu@.contains(*edge),
{
    let mut i: usize = 0;
    while i < menu.len()
        invariant
            crate::machine::eq_exact::<A>(),
            i <= menu.len(),
            forall|j: int| 0 <= j < i ==> menu@[j] != *edge,
        decreases menu.len() - i,
    {
        if menu[i].eq(edge) {
            return true;
        }
        i += 1;
    }
    false
}

/// A copy of `menu`.
pub fn menu_copy<A: Clone>(menu: &Vec<A>) -> (copy: Vec<A>)
    requires
        crate::machine::clone_exact::<A>(),
    ensures
        copy@ == menu@,
{
    let copy = menu.clone();
    assert(copy@ =~= menu@);
    copy
}

/// A never-ending process seen as a machine. `state` holds what the
/// process yielded at the choice point where it is waiting.
pub struct AsMachine<A, S, M> {
    pub a: PhantomData<A>,
    pub state: S,
    pub machine: M,
}

impl<State: Clone, Action: Clone + Default + PartialEq, M: StateMachine<Action, State>> AsMachine<
    Action,
    (State, Vec<Action>),
    M,
> {
    /// Starts `machine`, resuming it once with the default action to bring
    /// it to its first choice point.
    pub fn new(machine: M) -> (adapter: Self)
        requires
            machine.resumable(),
        ensures
            exists|first: Action|
                call_ensures(Action::default, (), first) && #[trigger] machine.resumes(
                    first,
                    (adapter.state.0, adapter.state.1@),
                    adapter.machine,
                ),
            adapter.machine.resumable(),
            adapter.state.1@.len() > 0,
            crate::machine::clone_exact::<Action>() && crate::machine::eq_exact::<Action>()
                ==> adapter.wf(),
    {
        let mut process = machine;
        let first = Action::default();
        let initial = process.resume(first);
        let adapter = AsMachine { a: PhantomData, state: initial, machine: process };
        assert(call_ensures(Action::default, (), first) && machine.resumes(
            first,
            (adapter.state.0, adapter.state.1@),
            adapter.machine,
        ));
        adapter
    }
}

impl<State: Clone, Action: Clone + Default + PartialEq, M: StateMachine<Action, State>> Machine<
    State,
> for AsMachine<Action, (State, Vec<Action>), M> {
    type Transition = Action;

    open spec fn wf(&self) -> bool {
        &&& self.machine.resumable()
        &&& self.state.1@.len() > 0
        &&& crate::machine::clone_exact::<Action>()
        &&& crate::machine::eq_exact::<Action>()
    }

    open spec fn offers(&self, menu: Seq<Action>) -> bool {
        menu == self.state.1@
    }

    open spec fn shows(&self, state: State) -> bool {
        cloned(self.state.0, state)
    }

    open spec fn after(&self, edge: Action, next: Self) -> bool {
        if self.state.1@.contains(edge) {
            self.machine.resumes(edge, (next.state.0, next.state.1@), next.machine)
        } else {
            next == *self
        }
    }

    open spec fn guards(&self, edge: Action) -> bool {
        true
    }

    fn edges(&self) -> (menu: Vec<Action>) {
        menu_copy(&self.state.1)
    }

    fn state(&mut self) -> (state: State) {
        self.state.0.clone()
    }

    fn traverse(&mut self, edge: &Action) {
        if offered(&self.state.1, edge) {
            let chosen = edge.clone();
            assert(cloned(*edge, chosen));
            self.state = self.machine.resume(chosen);
        }
    }
}

/// A process that ends with a result, seen as a machine whose state is
/// `None` while the process runs and `Some(result)` once it has completed.
/// `state` holds the outcome of the last resumption.
pub struct AsChainMachine<A, R, M> {
    pub a: PhantomData<A>,
    pub state: CoroutineState<Vec<A>, R>,
    pub machine: M,
}

impl<A: Clone + Default + PartialEq, R, M: ChainStateMachine<A, R>> AsChainMachine<A, R, M> {
    /// Starts `machine`, resuming it once with the default action to bring
    /// it to its first choice point, or to its end.
    pub fn new(machine: M) -> (adapter: AsChainMachine<A, R, M>)
        requires
            machine.resumable(),
        ensures
            exists|first: A|
                call_ensures(A::default, (), first) && #[trigger] machine.resumes(
                    first,
                    menu_view(adapter.state),
                    adapter.machine,
                ),
            adapter.state matches CoroutineState::Yielded(menu) ==> adapter.machine.resumable()
                && menu@.len() > 0,
    {
        let mut process = machine;
        let first = A::default();
        let initial = process.resume(first);
        let adapter = AsChainMachine { a: PhantomData, state: initial, machine: process };
        assert(call_ensures(A::default, (), first) && machine.resumes(
            first,
            menu_view(adapter.state),
            adapter.machine,
        ));
        adapter
    }
}

impl<A: Clone + Default + PartialEq, R: Clone, M: ChainStateMachine<A, R>> Machine<
    Option<R>,
> for AsChainMachine<A, R, M> {
    type Transition = A;

    open spec fn wf(&self) -> bool {
        &&& crate::machine::clone_exact::<A>()
        &&& crate::machine::eq_exact::<A>()
        &&& self.state matches CoroutineState::Yielded(menu) ==> self.machine.resumable()
            && menu@.len() > 0
    }

    open spec fn offers(&self, menu: Seq<A>) -> bool {
        match self.state {
            CoroutineState::Yielded(actions) => menu == actions@,
            CoroutineState::Complete(_) => menu.len() == 0,
        }
    }

    open spec fn shows(&self, state: Option<R>) -> bool {
        match self.state {
            CoroutineState::Yielded(_) => state is None,
            CoroutineState::Complete(result) => state is Some && cloned(result, state->Some_0),
        }
    }

    open spec fn after(&self, edge: A, next: Self) -> bool {
        match self.state {
            CoroutineState::Yielded(actions) if actions@.contains(edge) => self.machine.resumes(
                edge,
                menu_view(next.state),
                next.machine,
            ),
            _ => next == *self,
        }
    }

    open spec fn guards(&self, edge: A) -> bool {
        true
    }

    fn edges(&self) -> (menu: Vec<A>) {
        match &self.state {
            CoroutineState::Yielded(actions) => menu_copy(actions),
            CoroutineState::Complete(_) => Vec::new(),
        }
    }

    fn state(&mut self) -> (state: Option<R>) {
        match &self.state {
            CoroutineState::Complete(result) => Some(result.clone()),
            CoroutineState::Yielded(_) => None,
        }
    }

    fn traverse(&mut self, edge: &A) {
        let live = match &self.state {
            CoroutineState::Yielded(actions) => offered(actions, edge),
            CoroutineState::Complete(_) => false,
        };
        if live {
            let chosen = edge.clone();
            assert(cloned(*edge, chosen));
            self.state = self.machine.resume(chosen);
        }
    }
}

} // verus!
