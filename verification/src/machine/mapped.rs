//! Machines seen through a function: on their state, or on their alphabet.

use core::marker::PhantomData;
use vstd::prelude::*;

use super::Machine;

verus! {

/// A machine whose state is the state of `machine` passed through `f`.
/// Menu and transitions are those of `machine`.
pub struct MappedMachine<T, M, F> {
    pub t: PhantomData<T>,
    pub machine: M,
    pub f: F,
}

impl<M, F, T, U> Machine<U> for MappedMachine<T, M, F> where M: Machine<T>, F: Fn(T) -> U {
    type Transition = M::Transition;

    open spec fn wf(&self) -> bool {
        &&& self.machine.wf()
        &&& forall|inner: T| call_requires(self.f, (inner,))
    }

    open spec fn offers(&self, menu: Seq<Self::Transition>) -> bool {
        self.machine.offers(menu)
    }

    open spec fn shows(&self, state: U) -> bool {
        exists|inner: T| #[trigger] self.machine.shows(inner) && call_ensures(self.f, (inner,), state)
    }

    open spec fn after(&self, edge: Self::Transition, next: Self) -> bool {
        &&& self.machine.after(edge, next.machine)
        &&& next.f == self.f
    }

    open spec fn guards(&self, edge: Self::Transition) -> bool {
        self.machine.guards(edge)
    }

    fn edges(&self) -> (menu: Vec<Self::Transition>) {
        self.machine.edges()
    }

    fn state(&mut self) -> (state: U) {
        let inner = self.machine.state();
        (self.f)(inner)
    }

    fn traverse(&mut self, edge: &Self::Transition) {
        self.machine.traverse(edge);
    }
}

/// Mapping the state by an identity changes nothing that can be observed:
/// the menus are those of the machine inside, every transition is one of
/// the machine inside, and every state shown is one that the machine inside
/// shows. Where the identity is known to return, the converse holds too.
pub proof fn lemma_map_identity<T, M, F>(mapped: MappedMachine<T, M, F>) where
    M: Machine<T>,
    F: Fn(T) -> T,

    requires
        forall|inner: T, state: T| call_ensures(mapped.f, (inner,), state) ==> state == inner,
    ensures
        forall|menu: Seq<M::Transition>| mapped.offers(menu) <==> mapped.machine.offers(menu),
        forall|edge: M::Transition, next: MappedMachine<T, M, F>|
            mapped.after(edge, next) <==> mapped.machine.after(edge, next.machine) && next.f
                == mapped.f,
        forall|state: T| mapped.shows(state) ==> mapped.machine.shows(state),
        (forall|inner: T| call_ensures(mapped.f, (inner,), inner)) ==> forall|state: T|
            mapped.machine.shows(state) ==> mapped.shows(state),
{
}

/// `h` maps as `g` after `f` does.
pub open spec fn composes<T, U, V, F, G, H>(f: F, g: G, h: H) -> bool where
    F: Fn(T) -> U,
    G: Fn(U) -> V,
    H: Fn(T) -> V,
 {
    forall|inner: T, state: V|
        call_ensures(h, (inner,), state) <==> exists|middle: U|
            call_ensures(f, (inner,), middle) && call_ensures(g, (middle,), state)
}

/// Mapping twice is mapping once by the composition: a machine mapped by
/// `f` and then by `g`, and the same machine mapped by a function that
/// does what `g` does after `f`, offer the same menus and show the same
/// states; a transition of the one is a transition of the other, and it
/// leads to a pair of the same kind.
pub proof fn lemma_map_composition<T, U, V, M, F, G, H>(
    twice: MappedMachine<U, MappedMachine<T, M, F>, G>,
    once: MappedMachine<T, M, H>,
    edge: M::Transition,
    twice_next: MappedMachine<U, MappedMachine<T, M, F>, G>,
    once_next: MappedMachine<T, M, H>,
) where M: Machine<T>, F: Fn(T) -> U, G: Fn(U) -> V, H: Fn(T) -> V
    requires
        twice.machine.machine == once.machine,
        composes(twice.machine.f, twice.f, once.f),
    ensures
        forall|menu: Seq<M::Transition>| twice.offers(menu) <==> once.offers(menu),
        forall|state: V| twice.shows(state) <==> once.shows(state),
        twice.after(edge, twice_next) && once.after(edge, once_next) ==> composes(
            twice_next.machine.f,
            twice_next.f,
            once_next.f,
        ),
        twice_next.machine.machine == once_next.machine && twice_next.machine.f == twice.machine.f
            && twice_next.f == twice.f && once_next.f == once.f ==> (twice.after(edge, twice_next)
            <==> once.after(edge, once_next)),
{
    assert forall|state: V| twice.shows(state) implies once.shows(state) by {
        let middle = choose|middle: U| #[trigger]
            twice.machine.shows(middle) && call_ensures(twice.f, (middle,), state);
        let inner = choose|inner: T| #[trigger]
            once.machine.shows(inner) && call_ensures(twice.machine.f, (inner,), middle);
        assert(call_ensures(once.f, (inner,), state));
    }
    assert forall|state: V| once.shows(state) implies twice.shows(state) by {
        let inner = choose|inner: T| #[trigger]
            once.machine.shows(inner) && call_ensures(once.f, (inner,), state);
        let middle = choose|middle: U|
            call_ensures(twice.machine.f, (inner,), middle) && call_ensures(
                twice.f,
                (middle,),
                state,
            );
        assert(twice.machine.machine.shows(inner));
        assert(twice.machine.shows(middle));
    }
}

/// A machine over another alphabet: `f` embeds every edge of `machine` into
/// the outer alphabet, and `g` projects an outer edge back onto an edge of
/// `machine`, or onto nothing. State is that of `machine`.
pub struct MappedTransitionMachine<T, M, F, G> {
    pub t: PhantomData<T>,
    pub machine: M,
    pub f: F,
    pub g: G,
}

impl<T, M, F, G> MappedTransitionMachine<T, M, F, G> {
    /// `menu` is `inner` with each edge passed through `f`.
    pub open spec fn embeds<U, V>(&self, inner: Seq<U>, menu: Seq<V>) -> bool where F: Fn(U) -> V {
        &&& menu.len() == inner.len()
        &&& forall|i: int|
            0 <= i < inner.len() ==> call_ensures(self.f, (inner[i],), #[trigger] menu[i])
    }
}

impl<M, F, G, T, U, V> Machine<T> for MappedTransitionMachine<T, M, F, G> where
    M: Machine<T, Transition = U>,
    F: Fn(U) -> V,
    G: Fn(V) -> Option<U>,
    V: Clone,
 {
    type Transition = V;

    open spec fn wf(&self) -> bool {
        &&& self.machine.wf()
        &&& forall|inner: U| call_requires(self.f, (inner,))
        &&& forall|outer: V| call_requires(self.g, (outer,))
        &&& super::clone_exact::<V>()
    }

    open spec fn offers(&self, menu: Seq<V>) -> bool {
        exists|inner: Seq<U>| #[trigger] self.machine.offers(inner) && self.embeds(inner, menu)
    }

    open spec fn shows(&self, state: T) -> bool {
        self.machine.shows(state)
    }

    open spec fn after(&self, edge: V, next: Self) -> bool {
        &&& next.f == self.f
        &&& next.g == self.g
        &&& exists|back: Option<U>| #[trigger]
            call_ensures(self.g, (edge,), back) && match back {
                Some(inner) => self.machine.after(inner, next.machine),
                None => next.machine == self.machine,
            }
    }

    /// Whatever `g` projects `edge` onto is embedded back onto `edge` by
    /// `f`, and `machine` keeps to its menu there.
    open spec fn guards(&self, edge: V) -> bool {
        forall|inner: U| #[trigger]
            call_ensures(self.g, (edge,), Some(inner)) ==> {
                &&& self.machine.guards(inner)
                &&& forall|outer: V| call_ensures(self.f, (inner,), outer) ==> outer == edge
            }
    }

    fn edges(&self) -> (menu: Vec<V>) {
        let inner = self.machine.edges();
        let mut menu: Vec<V> = Vec::new();
        for edge in it: inner.into_iter()
            invariant
                forall|inner: U| call_requires(self.f, (inner,)),
                menu@.len() == it.index(),
                forall|i: int|
                    0 <= i < menu@.len() ==> call_ensures(self.f, (it.seq()[i],), #[trigger] menu@[i]),
        {
            menu.push((self.f)(edge));
        }
        menu
    }

    fn state(&mut self) -> (state: T) {
        self.machine.state()
    }

    fn traverse(&mut self, edge: &V) {
        let outer = edge.clone();
        assert(cloned(*edge, outer));
        let back = (self.g)(outer);
        assert(call_ensures(self.g, (*edge,), back));
        if let Some(inner) = back {
            proof {
                if self.guards(*edge) && exists|menu: Seq<V>| #[trigger]
                    self.offers(menu) && !menu.contains(*edge) {
                    let menu = choose|menu: Seq<V>| #[trigger]
                        self.offers(menu) && !menu.contains(*edge);
                    let inner_menu = choose|inner_menu: Seq<U>| #[trigger]
                        self.machine.offers(inner_menu) && self.embeds(inner_menu, menu);
                    if inner_menu.contains(inner) {
                        let i = choose|i: int| 0 <= i < inner_menu.len() && inner_menu[i] == inner;
                        assert(menu[i] == *edge);
                    }
                    assert(super::bars(self.machine, inner));
                }
            }
            self.machine.traverse(&inner);
        }
    }
}

} // verus!
