//! Composable finite-interaction state machines.
//!
//! A machine shows a state, offers a finite menu of transitions and, when one
//! of them is applied, moves on. Machines are built from elementary processes
//! ([`coroutines`]) and combined with the combinators of [`machine`]: state
//! and alphabet mappings, lock-step pairing, and sequencing.
//!
//! Every machine is described by a validity predicate, `wf`, and three
//! relations, `offers`, `shows` and `after`; every operation is specified
//! against them. The functions that combinators take are type parameters:
//! code that is verified against the relations of a combinator is generic
//! in the type of the function, and states what it needs of the function
//! over `call_requires` and `call_ensures`.

pub mod coroutines;
pub mod machine;
