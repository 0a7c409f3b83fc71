//! Sequencing: machines whose state is an `Option`, `None` while they run
//! and `Some` once they have finished, put one after the other.

use core::marker::PhantomData;
use vstd::prelude::*;
use vstd::std_specs::iter::IteratorSpec;

use super::Machine;

verus! {

/// A machine that has nothing left to do: it shows `value`, offers no edge
/// and ignores every transition.
pub struct PureMachine<T, E> {
    pub e: PhantomData<E>,
    pub value: T,
}

/// The terminal machine that shows `value`.
#[inline]
pub fn pure<T: Clone, E>(value: T) -> (machine: PureMachine<T, E>)
    ensures
        machine.value == value,
        machine.wf(),
{
    PureMachine { e: PhantomData, value }
}

impl<T: Clone, E> Machine<T> for PureMachine<T, E> {
    type Transition = E;

    open spec fn wf(&self) -> bool {
        true
    }

    open spec fn offers(&self, menu: Seq<E>) -> bool {
        menu.len() == 0
    }

    open spec fn shows(&self, state: T) -> bool {
        cloned(self.value, state)
    }

    open spec fn after(&self, edge: E, next: Self) -> bool {
        next == *self
    }

    open spec fn guards(&self, edge: E) -> bool {
        true
    }

    fn edges(&self) -> (menu: Vec<E>) {
        Vec::new()
    }

    fn state(&mut self) -> (state: T)
        ensures
            (forall|copy: T| cloned(old(self).value, copy) ==> copy == old(self).value) ==> state
                == old(self).value,
    {
        self.value.clone()
    }

    fn traverse(&mut self, edge: &E)
        ensures
            *final(self) == *old(self),
    {
    }
}

/// A pure machine is terminal: whatever path is followed, it remains the
/// machine it was; it offers the empty menu only, and shows its value, as
/// `Clone` hands it out, and nothing else. Where a clone of the value is
/// the value, it shows exactly the value.
pub proof fn lemma_pure_is_terminal<T: Clone, E>(
    machine: PureMachine<T, E>,
    path: Seq<E>,
    end: PureMachine<T, E>,
)
    requires
        super::reaches(machine, path, end),
    ensures
        end == machine,
        forall|menu: Seq<E>| end.offers(menu) <==> menu =~= Seq::<E>::empty(),
        forall|state: T| end.shows(state) <==> cloned(machine.value, state),
        (forall|copy: T| cloned(machine.value, copy) ==> copy == machine.value) ==> forall|
            state: T,
        | end.shows(state) <==> state == machine.value,
    decreases path.len(),
{
    if path.len() > 0 {
        let mid = choose|mid: PureMachine<T, E>| #[trigger]
            machine.after(path[0], mid) && super::reaches(mid, path.drop_first(), end);
        lemma_pure_is_terminal(mid, path.drop_first(), end);
    }
}

/// Two machines in sequence. The first runs until a transition takes it
/// from showing `None` to showing `Some`; from then on the second runs, and
/// its state is the state of the whole. What the first machine produced is
/// dropped.
pub struct ChainedMachine<T, M1, M2> {
    pub t: PhantomData<T>,
    pub in_second_machine: bool,
    pub machine1: M1,
    pub machine2: M2,
}

impl<T, U, M1, M2> Machine<Option<U>> for ChainedMachine<Option<T>, M1, M2> where
    M1: Machine<Option<T>>,
    M2: Machine<Option<U>, Transition = M1::Transition>,
 {
    type Transition = M1::Transition;

    open spec fn wf(&self) -> bool {
        &&& self.machine1.wf()
        &&& self.machine2.wf()
    }

    open spec fn offers(&self, menu: Seq<M1::Transition>) -> bool {
        if self.in_second_machine {
            self.machine2.offers(menu)
        } else {
            self.machine1.offers(menu)
        }
    }

    open spec fn shows(&self, state: Option<U>) -> bool {
        if self.in_second_machine {
            self.machine2.shows(state)
        } else {
            state is None
        }
    }

    open spec fn after(&self, edge: M1::Transition, next: Self) -> bool {
        if self.in_second_machine {
            &&& next.in_second_machine
            &&& next.machine1 == self.machine1
            &&& self.machine2.after(edge, next.machine2)
        } else {
            &&& next.machine2 == self.machine2
            &&& self.machine1.after(edge, next.machine1)
            &&& exists|before: Option<T>, result: Option<T>|
                {
                    &&& #[trigger] self.machine1.shows(before)
                    &&& #[trigger] next.machine1.shows(result)
                    &&& next.in_second_machine == (before is None && result is Some)
                }
        }
    }

    /// The running machine keeps to its menu at `edge`; and the first
    /// machine, while it is in charge, is either seen running or seen
    /// finished, not now the one and now the other.
    open spec fn guards(&self, edge: M1::Transition) -> bool {
        if self.in_second_machine {
            self.machine2.guards(edge)
        } else {
            &&& self.machine1.guards(edge)
            &&& !(self.machine1.shows(None) && exists|result: T|
                self.machine1.shows(Some(result)))
        }
    }

    fn edges(&self) -> (menu: Vec<M1::Transition>) {
        if self.in_second_machine {
            self.machine2.edges()
        } else {
            self.machine1.edges()
        }
    }

    fn state(&mut self) -> (state: Option<U>) {
        if self.in_second_machine {
            self.machine2.state()
        } else {
            None
        }
    }

    fn traverse(&mut self, edge: &M1::Transition) {
        if self.in_second_machine {
            self.machine2.traverse(edge);
        } else {
            let before = self.machine1.state();
            self.machine1.traverse(edge);
            let result = self.machine1.state();
            if before.is_none() && result.is_some() {
                self.in_second_machine = true;
                proof {
                    if super::bars(old(self).machine1, *edge) {
                        assert(old(self).machine1.shows(Some(result.unwrap())));
                    }
                }
            }
        }
    }
}

/// The edges of a chain, read one by one: those that `iterator2` yields
/// once the chain has handed over, those that `iterator1` yields before.
pub struct ChainedMachineIterator<I1, I2> {
    pub in_second_machine: bool,
    pub iterator1: I1,
    pub iterator2: I2,
}

impl<T, I1: Iterator<Item = T>, I2: Iterator<Item = T>> ChainedMachineIterator<I1, I2> {
    /// The next edge of the iterator in charge, which is advanced as its
    /// own `next` advances it; the other iterator is left alone.
    pub fn next(&mut self) -> (item: Option<T>)
        ensures
            final(self).in_second_machine == old(self).in_second_machine,
            old(self).in_second_machine ==> final(self).iterator1 == old(self).iterator1,
            !old(self).in_second_machine ==> final(self).iterator2 == old(self).iterator2,
            old(self).in_second_machine ==> {
                &&& final(self).iterator2.obeys_prophetic_iter_laws() == old(self).iterator2.obeys_prophetic_iter_laws()
                &&& old(self).iterator2.obeys_prophetic_iter_laws() ==> if old(self).iterator2.remaining().len() > 0 {
                    &&& item == Some(old(self).iterator2.remaining()[0])
                    &&& final(self).iterator2.remaining() == old(self).iterator2.remaining().drop_first()
                } else {
                    &&& item is None
                    &&& final(self).iterator2.remaining() == old(self).iterator2.remaining()
                }
            },
            !old(self).in_second_machine ==> {
                &&& final(self).iterator1.obeys_prophetic_iter_laws() == old(self).iterator1.obeys_prophetic_iter_laws()
                &&& old(self).iterator1.obeys_prophetic_iter_laws() ==> if old(self).iterator1.remaining().len() > 0 {
                    &&& item == Some(old(self).iterator1.remaining()[0])
                    &&& final(self).iterator1.remaining() == old(self).iterator1.remaining().drop_first()
                } else {
                    &&& item is None
                    &&& final(self).iterator1.remaining() == old(self).iterator1.remaining()
                }
            },
    {
        if self.in_second_machine {
            self.iterator2.next()
        } else {
            self.iterator1.next()
        }
    }
}

/// Before the hand-over a chain shows `None` and nothing else, and a
/// transition of the chain is that transition taken by the first machine,
/// the second one left alone. The chain hands over with that transition
/// exactly if the first machine is seen running before it and finished
/// after it.
pub proof fn lemma_chain_before_hand_over<T, U, M1, M2>(
    chained: ChainedMachine<Option<T>, M1, M2>,
    edge: M1::Transition,
    next: ChainedMachine<Option<T>, M1, M2>,
) where M1: Machine<Option<T>>, M2: Machine<Option<U>, Transition = M1::Transition>
    requires
        !chained.in_second_machine,
        chained.after(edge, next),
    ensures
        forall|state: Option<U>| chained.shows(state) <==> state is None,
        chained.machine1.after(edge, next.machine1),
        next.machine2 == chained.machine2,
        next.in_second_machine ==> chained.machine1.shows(None) && exists|result: T|
            next.machine1.shows(Some(result)),
        !next.in_second_machine ==> next.machine1.shows(None) || exists|result: T|
            chained.machine1.shows(Some(result)),
        (forall|state: Option<T>| chained.machine1.shows(state) ==> state is None) && (forall|
            state: Option<T>,
        |
            next.machine1.shows(state) ==> state is Some) ==> next.in_second_machine,
        (forall|state: Option<T>| next.machine1.shows(state) ==> state is None)
            ==> !next.in_second_machine,
        (forall|state: Option<T>| chained.machine1.shows(state) ==> state is Some)
            ==> !next.in_second_machine,
{
    let (before, result) = choose|before: Option<T>, result: Option<T>|
        {
            &&& #[trigger] chained.machine1.shows(before)
            &&& #[trigger] next.machine1.shows(result)
            &&& next.in_second_machine == (before is None && result is Some)
        };
    if next.in_second_machine {
        assert(next.machine1.shows(Some(result->Some_0)));
    } else if before is Some {
        assert(chained.machine1.shows(Some(before->Some_0)));
    }
}

/// After the hand-over the chain stays handed over: along any path the
/// first machine is left as it was, the path is followed by the second
/// machine, and the chain shows what the second machine shows.
pub proof fn lemma_chain_after_hand_over<T, U, M1, M2>(
    chained: ChainedMachine<Option<T>, M1, M2>,
    path: Seq<M1::Transition>,
    end: ChainedMachine<Option<T>, M1, M2>,
) where M1: Machine<Option<T>>, M2: Machine<Option<U>, Transition = M1::Transition>
    requires
        chained.in_second_machine,
        super::reaches(chained, path, end),
    ensures
        end.in_second_machine,
        end.machine1 == chained.machine1,
        super::reaches(chained.machine2, path, end.machine2),
        forall|state: Option<U>| end.shows(state) <==> end.machine2.shows(state),
    decreases path.len(),
{
    if path.len() > 0 {
        let mid = choose|mid: ChainedMachine<Option<T>, M1, M2>| #[trigger]
            chained.after(path[0], mid) && super::reaches(mid, path.drop_first(), end);
        lemma_chain_after_hand_over(mid, path.drop_first(), end);
        assert(chained.machine2.after(path[0], mid.machine2) && super::reaches(
            mid.machine2,
            path.drop_first(),
            end.machine2,
        ));
    }
}

/// Machines that can be followed by another one: those whose state is an
/// `Option`.
pub trait Chainable<T>: Machine<T> {
    /// Runs `self` until it has finished, then `next`.
    fn chain<U, M2>(self, next: M2) -> (chained: ChainedMachine<T, Self, M2>) where
        M2: Machine<Option<U>, Transition = Self::Transition>,

        ensures
            !chained.in_second_machine,
            chained.machine1 == self,
            chained.machine2 == next,
    ;
}

impl<T, M1: Machine<Option<T>>> Chainable<Option<T>> for M1 {
    #[inline]
    fn chain<U, M2>(self, next: M2) -> (chained: ChainedMachine<Option<T>, M1, M2>) where
        M2: Machine<Option<U>, Transition = Self::Transition>,
     {
        ChainedMachine { t: PhantomData, in_second_machine: false, machine1: self, machine2: next }
    }
}

/// What a joined machine is running: the machine that will produce the
/// second one, or the second one.
pub enum JoinedMachineState<M1, M2> {
    First(M1),
    Second(M2),
}

/// A machine that produces a machine, flattened into one machine: the
/// first one runs until it shows `Some(second)`; from then on `second` runs
/// in its place.
pub struct JoinedMachine<T, M1, M2> {
    pub t: PhantomData<T>,
    pub state: JoinedMachineState<M1, M2>,
}

/// Every machine that `first` shows, now or after any sequence of
/// transitions, may be driven.
pub open spec fn continues_well<S, M1, M2>(first: M1) -> bool where
    M1: Machine<Option<M2>>,
    M2: Machine<S>,
 {
    forall|path: Seq<M1::Transition>, end: M1, second: M2|
        #![trigger super::reaches(first, path, end), end.shows(Some(second))]
        super::reaches(first, path, end) && end.shows(Some(second)) ==> second.wf()
}

/// Whatever continues well still does so one transition later.
pub proof fn lemma_continues_well_after<S, M1, M2>(first: M1, edge: M1::Transition, moved: M1) where
    M1: Machine<Option<M2>>,
    M2: Machine<S>,

    requires
        continues_well::<S, M1, M2>(first),
        first.after(edge, moved),
    ensures
        continues_well::<S, M1, M2>(moved),
{
    assert forall|path: Seq<M1::Transition>, end: M1, second: M2|
        super::reaches(moved, path, end) && end.shows(Some(second)) implies second.wf() by {
        let longer = seq![edge] + path;
        assert(longer.drop_first() =~= path);
        assert(first.after(longer[0], moved) && super::reaches(moved, longer.drop_first(), end));
        assert(super::reaches(first, longer, end));
    }
}

impl<T, M1, M2> Machine<Option<T>> for JoinedMachine<Option<T>, M1, M2> where
    M1: Machine<Option<M2>, Transition = M2::Transition>,
    M2: Machine<Option<T>>,
 {
    type Transition = M2::Transition;

    open spec fn wf(&self) -> bool {
        match self.state {
            JoinedMachineState::First(first) => first.wf() && continues_well::<Option<T>, M1, M2>(
                first,
            ),
            JoinedMachineState::Second(second) => second.wf(),
        }
    }

    open spec fn offers(&self, menu: Seq<M2::Transition>) -> bool {
        match self.state {
            JoinedMachineState::First(first) => first.offers(menu),
            JoinedMachineState::Second(second) => second.offers(menu),
        }
    }

    open spec fn shows(&self, state: Option<T>) -> bool {
        match self.state {
            JoinedMachineState::First(_) => state is None,
            JoinedMachineState::Second(second) => second.shows(state),
        }
    }

    open spec fn after(&self, edge: M2::Transition, next: Self) -> bool {
        match self.state {
            JoinedMachineState::First(first) => exists|moved: M1, produced: Option<M2>|
                {
                    &&& #[trigger] first.after(edge, moved)
                    &&& #[trigger] moved.shows(produced)
                    &&& next.state == match produced {
                        Some(second) => JoinedMachineState::<M1, M2>::Second(second),
                        None => JoinedMachineState::<M1, M2>::First(moved),
                    }
                },
            JoinedMachineState::Second(second) => match next.state {
                JoinedMachineState::First(_) => false,
                JoinedMachineState::Second(moved) => second.after(edge, moved),
            },
        }
    }

    /// The running machine keeps to its menu at `edge`; and a second
    /// machine that the first one has already produced shows `None` and
    /// offers what the first one offers, so that the switch changes neither
    /// the state nor the menu.
    open spec fn guards(&self, edge: M2::Transition) -> bool {
        match self.state {
            JoinedMachineState::First(first) => {
                &&& first.guards(edge)
                &&& forall|second: M2, state: Option<T>| #[trigger]
                    first.shows(Some(second)) ==> (#[trigger] second.shows(state) <==> state is None)
                &&& forall|second: M2, menu: Seq<M2::Transition>| #[trigger]
                    first.shows(Some(second)) ==> (#[trigger] second.offers(menu) <==> first.offers(
                        menu,
                    ))
            },
            JoinedMachineState::Second(second) => second.guards(edge),
        }
    }

    fn edges(&self) -> (menu: Vec<M2::Transition>) {
        match &self.state {
            JoinedMachineState::First(first) => first.edges(),
            JoinedMachineState::Second(second) => second.edges(),
        }
    }

    fn state(&mut self) -> (state: Option<T>) {
        match &mut self.state {
            JoinedMachineState::First(_) => None,
            JoinedMachineState::Second(second) => second.state(),
        }
    }

    fn traverse(&mut self, edge: &M2::Transition) {
        match &mut self.state {
            JoinedMachineState::First(first) => {
                first.traverse(edge);
                let produced = first.state();
                proof {
                    lemma_continues_well_after::<Option<T>, M1, M2>(
                        old(self).state->First_0,
                        *edge,
                        *first,
                    );
                    assert(super::reaches(*first, Seq::empty(), *first));
                }
                if let Some(second) = produced {
                    self.state = JoinedMachineState::Second(second);
                }
            },
            JoinedMachineState::Second(second) => {
                second.traverse(edge);
            },
        }
    }
}

/// The edges of a joined machine, read one by one: those of the machine
/// that produces the second one, or those of the second one.
pub enum JoinedMachineIterator<I1, I2> {
    First(I1),
    Second(I2),
}

impl<I1: Iterator, I2: Iterator<Item = I1::Item>> JoinedMachineIterator<I1, I2> {
    /// The next edge of the iterator inside, which is advanced as its own
    /// `next` advances it.
    pub fn next(&mut self) -> (item: Option<I1::Item>)
        ensures
            match (*old(self), *final(self)) {
                (
                    JoinedMachineIterator::First(before),
                    JoinedMachineIterator::First(after),
                ) => {
                    &&& after.obeys_prophetic_iter_laws() == before.obeys_prophetic_iter_laws()
                    &&& before.obeys_prophetic_iter_laws() ==> if before.remaining().len() > 0 {
                        &&& item == Some(before.remaining()[0])
                        &&& after.remaining() == before.remaining().drop_first()
                    } else {
                        &&& item is None
                        &&& after.remaining() == before.remaining()
                    }
                },
                (
                    JoinedMachineIterator::Second(before),
                    JoinedMachineIterator::Second(after),
                ) => {
                    &&& after.obeys_prophetic_iter_laws() == before.obeys_prophetic_iter_laws()
                    &&& before.obeys_prophetic_iter_laws() ==> if before.remaining().len() > 0 {
                        &&& item == Some(before.remaining()[0])
                        &&& after.remaining() == before.remaining().drop_first()
                    } else {
                        &&& item is None
                        &&& after.remaining() == before.remaining()
                    }
                },
                _ => false,
            },
    {
        match self {
            JoinedMachineIterator::First(x) => x.next(),
            JoinedMachineIterator::Second(y) => y.next(),
        }
    }
}

/// Before the switch a joined machine shows `None` and nothing else. A
/// transition is taken by the first machine; if that machine is then seen
/// to have produced a second one, the second one takes its place, else the
/// first one stays.
pub proof fn lemma_join_before_switch<T, M1, M2>(
    joined: JoinedMachine<Option<T>, M1, M2>,
    edge: M2::Transition,
    next: JoinedMachine<Option<T>, M1, M2>,
) where M1: Machine<Option<M2>, Transition = M2::Transition>, M2: Machine<Option<T>>
    requires
        joined.state is First,
        joined.after(edge, next),
    ensures
        forall|state: Option<T>| joined.shows(state) <==> state is None,
        exists|moved: M1|
            {
                &&& #[trigger] joined.state->First_0.after(edge, moved)
                &&& match next.state {
                    JoinedMachineState::First(first) => first == moved && moved.shows(None),
                    JoinedMachineState::Second(second) => moved.shows(Some(second)),
                }
            },
{
    let first = joined.state->First_0;
    let (moved, produced) = choose|moved: M1, produced: Option<M2>|
        {
            &&& #[trigger] first.after(edge, moved)
            &&& #[trigger] moved.shows(produced)
            &&& next.state == match produced {
                Some(second) => JoinedMachineState::<M1, M2>::Second(second),
                None => JoinedMachineState::<M1, M2>::First(moved),
            }
        };
    assert(first.after(edge, moved));
}

/// The switch is one-way: once the second machine runs, it runs along any
/// path, and the joined machine shows what it shows.
pub proof fn lemma_join_after_switch<T, M1, M2>(
    joined: JoinedMachine<Option<T>, M1, M2>,
    path: Seq<M2::Transition>,
    end: JoinedMachine<Option<T>, M1, M2>,
) where M1: Machine<Option<M2>, Transition = M2::Transition>, M2: Machine<Option<T>>
    requires
        joined.state is Second,
        super::reaches(joined, path, end),
    ensures
        end.state is Second,
        super::reaches(joined.state->Second_0, path, end.state->Second_0),
        forall|state: Option<T>| end.shows(state) <==> end.state->Second_0.shows(state),
    decreases path.len(),
{
    if path.len() > 0 {
        let mid = choose|mid: JoinedMachine<Option<T>, M1, M2>| #[trigger]
            joined.after(path[0], mid) && super::reaches(mid, path.drop_first(), end);
        lemma_join_after_switch(mid, path.drop_first(), end);
        assert(joined.state->Second_0.after(path[0], mid.state->Second_0) && super::reaches(
            mid.state->Second_0,
            path.drop_first(),
            end.state->Second_0,
        ));
    }
}

/// Machines that produce a machine `M1` and can be flattened.
pub trait JoinMachine<M1, T>: Sized {
    /// Runs `self` until it produces a machine, then that machine.
    fn join(self) -> (joined: JoinedMachine<T, Self, M1>)
        ensures
            joined.state == JoinedMachineState::<Self, M1>::First(self),
    ;
}

impl<T, M1, M2> JoinMachine<M1, Option<T>> for M2 where
    M1: Machine<Option<T>>,
    M2: Machine<Option<M1>, Transition = M1::Transition>,
 {
    #[inline]
    fn join(self) -> (joined: JoinedMachine<Option<T>, M2, M1>) {
        JoinedMachine { t: PhantomData, state: JoinedMachineState::First(self) }
    }
}

/// A machine whose result, once it has finished, is passed through `f`:
/// it shows `None` while `machine` does, and `Some(f(a))` once `machine`
/// shows `Some(a)`. Menu and transitions are those of `machine`.
pub struct MappedResultMachine<A, M, F> {
    pub a: PhantomData<A>,
    pub machine: M,
    pub f: F,
}

impl<A, B, M, F> Machine<Option<B>> for MappedResultMachine<Option<A>, M, F> where
    M: Machine<Option<A>>,
    F: Fn(A) -> B,
 {
    type Transition = M::Transition;

    open spec fn wf(&self) -> bool {
        &&& self.machine.wf()
        &&& forall|result: A| call_requires(self.f, (result,))
    }

    open spec fn offers(&self, menu: Seq<M::Transition>) -> bool {
        self.machine.offers(menu)
    }

    open spec fn shows(&self, state: Option<B>) -> bool {
        exists|inner: Option<A>| #[trigger]
            self.machine.shows(inner) && match inner {
                Some(result) => state is Some && call_ensures(self.f, (result,), state->Some_0),
                None => state is None,
            }
    }

    open spec fn after(&self, edge: M::Transition, next: Self) -> bool {
        &&& self.machine.after(edge, next.machine)
        &&& next.f == self.f
    }

    open spec fn guards(&self, edge: M::Transition) -> bool {
        self.machine.guards(edge)
    }

    fn edges(&self) -> (menu: Vec<M::Transition>) {
        self.machine.edges()
    }

    fn state(&mut self) -> (state: Option<B>) {
        match self.machine.state() {
            Some(result) => Some((self.f)(result)),
            None => None,
        }
    }

    fn traverse(&mut self, edge: &M::Transition) {
        self.machine.traverse(edge);
    }
}

/// Transitions do not change the function of a `MappedResultMachine`.
pub proof fn lemma_mapped_result_keeps_function<A, B, M, F>(
    start: MappedResultMachine<Option<A>, M, F>,
    path: Seq<M::Transition>,
    end: MappedResultMachine<Option<A>, M, F>,
) where M: Machine<Option<A>>, F: Fn(A) -> B
    requires
        super::reaches(start, path, end),
    ensures
        end.f == start.f,
    decreases path.len(),
{
    if path.len() > 0 {
        let mid = choose|mid: MappedResultMachine<Option<A>, M, F>| #[trigger]
            start.after(path[0], mid) && super::reaches(mid, path.drop_first(), end);
        lemma_mapped_result_keeps_function(mid, path.drop_first(), end);
    }
}

/// Machines that can be continued by a machine `M2` computed from their
/// result.
pub trait FlatMappable<AX, F, BX, M2>: Machine<AX> {
    /// Runs `self` until it has finished with a result, then the machine
    /// that `f` makes of that result.
    fn flat_map(self, f: F) -> (joined: JoinedMachine<BX, MappedResultMachine<AX, Self, F>, M2>)
        ensures
            joined.state matches JoinedMachineState::First(first) && first.machine == self
                && first.f == f,
    ;
}

impl<A, B, M1, M2, F> FlatMappable<Option<A>, F, Option<B>, M2> for M1 where
    M1: Machine<Option<A>>,
    M2: Machine<Option<B>, Transition = M1::Transition>,
    F: Fn(A) -> M2,
 {
    fn flat_map(self, f: F) -> (joined: JoinedMachine<
        Option<B>,
        MappedResultMachine<Option<A>, M1, F>,
        M2,
    >)
        ensures
            self.wf() && (forall|result: A| call_requires(f, (result,))) && (forall|
                result: A,
                second: M2,
            |
                call_ensures(f, (result,), second) ==> second.wf()) ==> joined.wf(),
    {
        let first = MappedResultMachine { a: PhantomData, machine: self, f };
        proof {
            if forall|result: A, second: M2| call_ensures(f, (result,), second) ==> second.wf() {
                assert forall|
                    path: Seq<M1::Transition>,
                    end: MappedResultMachine<Option<A>, M1, F>,
                    second: M2,
                |
                    super::reaches(first, path, end) && end.shows(Some(second)) implies second.wf() by {
                    lemma_mapped_result_keeps_function(first, path, end);
                }
            }
        }
        first.join()
    }
}

} // verus!
