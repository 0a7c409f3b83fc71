//! The machine interface and the constructors of the structural combinators.

use core::marker::PhantomData;
use vstd::prelude::*;
use vstd::std_specs::cmp::PartialEqSpec;

use mapped::{MappedMachine, MappedTransitionMachine};
use zipped::ZippedMachine;

pub mod chained;
pub mod mapped;
pub mod zipped;

verus! {

/// Cloning a value of `E` yields that value.
pub open spec fn clone_exact<E: Clone>() -> bool {
    forall|a: E, b: E| #[trigger] cloned(a, b) ==> a == b
}

/// `==` on `E` decides equality of values.
pub open spec fn eq_exact<E: PartialEq>() -> bool {
    &&& E::obeys_eq_spec()
    &&& forall|a: E, b: E| (#[trigger] a.eq_spec(&b)) <==> a == b
}

/// A composable state machine whose observable state has type `T`.
///
/// The associated type `Transition` is the alphabet of the machine: the
/// values that name its edges. A machine is described by a validity
/// predicate and three relations; they are relations rather than functions
/// because states and menus may be produced by caller-supplied functions
/// and by `Clone`, of which only their postconditions are known. An
/// implementation that does not define them is taken to allow every outcome
/// and to promise nothing.
pub trait Machine<T>: Sized {
    type Transition;

    /// The machine may be driven: its operations can be called.
    open spec fn wf(&self) -> bool {
        true
    }

    /// `menu` is a sequence of edges that `edges` may return now.
    open spec fn offers(&self, menu: Seq<Self::Transition>) -> bool {
        true
    }

    /// `state` is a value that `state` may return now.
    open spec fn shows(&self, state: T) -> bool {
        true
    }

    /// `next` is a machine that `traverse(edge)` may leave behind.
    open spec fn after(&self, edge: Self::Transition, next: Self) -> bool {
        true
    }

    /// The machine keeps to its menu at `edge`: if `edge` is not on the
    /// menu, following it changes neither what the machine shows nor what
    /// it offers.
    /// Elementary machines always do; a combinator does where its parts do
    /// and their menus fit together.
    open spec fn guards(&self, edge: Self::Transition) -> bool {
        false
    }

    /// The edges that can be used to leave the current state.
    fn edges(&self) -> (menu: Vec<Self::Transition>)
        requires
            self.wf(),
        ensures
            self.offers(menu@),
    ;

    /// The current state. Looking at it does not change the machine.
    fn state(&mut self) -> (state: T)
        requires
            old(self).wf(),
        ensures
            *final(self) == *old(self),
            old(self).shows(state),
    ;

    /// Follows `edge`. An edge that is off the menu leaves the shown state
    /// and the menu as they are, wherever the machine keeps to its menu.
    fn traverse(&mut self, edge: &Self::Transition)
        requires
            old(self).wf(),
        ensures
            final(self).wf(),
            old(self).after(*edge, *final(self)),
            old(self).guards(*edge) && (exists|menu: Seq<Self::Transition>| #[trigger]
                old(self).offers(menu) && !menu.contains(*edge)) ==> {
                &&& forall|state: T| final(self).shows(state) <==> old(self).shows(state)
                &&& forall|menu: Seq<Self::Transition>|
                    final(self).offers(menu) <==> old(self).offers(menu)
            },
    ;

    /// Transforms the state of a machine by applying `f` to it.
    #[inline]
    fn map<F, U>(self, f: F) -> (mapped: MappedMachine<T, Self, F>) where F: Fn(T) -> U
        ensures
            mapped.machine == self,
            mapped.f == f,
    {
        MappedMachine { t: PhantomData, machine: self, f }
    }

    /// Moves a machine to another alphabet: `f` embeds each of its edges
    /// into the new alphabet, and `g` projects an edge of the new alphabet
    /// back, or rejects it.
    #[inline]
    fn map_actions<F, G, E>(self, f: F, g: G) -> (mapped: MappedTransitionMachine<T, Self, F, G>) where
        F: Fn(Self::Transition) -> E,
        G: Fn(E) -> Option<Self::Transition>,

        ensures
            mapped.machine == self,
            mapped.f == f,
            mapped.g == g,
    {
        MappedTransitionMachine { t: PhantomData, machine: self, f, g }
    }

    /// Combines two machines with different alphabets side by side. Both
    /// are first moved to the shared alphabet `E`: `embed1` and `project1`
    /// carry the alphabet of `self`, `embed2` and `project2` the
    /// alphabet `B` of `machine2`. The states are combined by `f`. The
    /// result is a machine where `machine2` is one with alphabet `B`.
    #[inline]
    fn zip_with_into<E, B, M2, U, G, W, F1, G1, F2, G2>(
        self,
        machine2: M2,
        embed1: F1,
        project1: G1,
        embed2: F2,
        project2: G2,
        f: G,
    ) -> (zipped: ZippedMachine<
        T,
        U,
        MappedTransitionMachine<T, Self, F1, G1>,
        MappedTransitionMachine<U, M2, F2, G2>,
        G,
    >) where
        E: Clone,
        F1: Fn(Self::Transition) -> E,
        G1: Fn(E) -> Option<Self::Transition>,
        F2: Fn(B) -> E,
        G2: Fn(E) -> Option<B>,
        G: Fn(T, U) -> W,

        ensures
            zipped.machine1.machine == self,
            zipped.machine1.f == embed1,
            zipped.machine1.g == project1,
            zipped.machine2.machine == machine2,
            zipped.machine2.f == embed2,
            zipped.machine2.g == project2,
            zipped.f == f,
    {
        ZippedMachine {
            t: PhantomData,
            u: PhantomData,
            machine1: MappedTransitionMachine {
                t: PhantomData,
                machine: self,
                f: embed1,
                g: project1,
            },
            machine2: MappedTransitionMachine {
                t: PhantomData,
                machine: machine2,
                f: embed2,
                g: project2,
            },
            f,
        }
    }

    /// Combines two machines side by side, combining their states by `f`.
    /// The result is a machine where `machine2` is one over the alphabet
    /// of `self`.
    #[inline]
    fn zip_with<M2, U, G, W>(self, machine2: M2, f: G) -> (zipped: ZippedMachine<
        T,
        U,
        Self,
        M2,
        G,
    >) where G: Fn(T, U) -> W
        ensures
            zipped.machine1 == self,
            zipped.machine2 == machine2,
            zipped.f == f,
    {
        ZippedMachine { t: PhantomData, u: PhantomData, machine1: self, machine2, f }
    }
}

/// `edge` is missing from a menu that `machine` offers, and `machine`
/// keeps to its menu there.
pub open spec fn bars<T, M: Machine<T>>(machine: M, edge: M::Transition) -> bool {
    &&& machine.guards(edge)
    &&& exists|menu: Seq<M::Transition>| #[trigger] machine.offers(menu) && !menu.contains(edge)
}

/// `end` is a machine that `start` may become by following `path`, edge by
/// edge.
pub open spec fn reaches<T, M: Machine<T>>(start: M, path: Seq<M::Transition>, end: M) -> bool
    decreases path.len(),
{
    if path.len() == 0 {
        end == start
    } else {
        exists|mid: M| #[trigger] start.after(path[0], mid) && reaches(mid, path.drop_first(), end)
    }
}

} // verus!
