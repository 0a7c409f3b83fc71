use enstate::coroutines::{AsChainMachine, AsMachine, ChainStateMachine, CoroutineState, StateMachine};
use enstate::machine::chained::{pure, Chainable, FlatMappable, PureMachine};
use enstate::machine::Machine;

// ---------------------------------------------------------------------------
// Counter
// ---------------------------------------------------------------------------

#[derive(Clone, Copy, PartialEq, Eq, Debug)]
pub enum Action {
    Increment,
    Decrement,
}

impl Default for Action {
    fn default() -> Self {
        Self::Increment
    }
}

struct CounterProcess {
    started: bool,
    count: i32,
}

impl StateMachine<Action, i32> for CounterProcess {
    fn resume(&mut self, action: Action) -> (i32, Vec<Action>) {
        if self.started {
            match action {
                Action::Increment => self.count = self.count + 1,
                Action::Decrement => self.count = self.count - 1,
            }
        } else {
            self.started = true;
        }
        (self.count, vec![Action::Increment, Action::Decrement])
    }
}

pub fn counter() -> impl Machine<i32, Transition = Action> {
    AsMachine::new(CounterProcess {
        started: false,
        count: 0,
    })
}

#[test]
fn counter_example() {
    let mut machine = counter();

    assert_eq!(machine.state(), 0);

    machine.traverse(&Action::Increment);
    assert_eq!(machine.state(), 1);
}

#[test]
fn counter_increments_then_decrements() {
    let mut machine = counter();

    assert_eq!(machine.state(), 0);
    assert_eq!(machine.edges(), vec![Action::Increment, Action::Decrement]);

    machine.traverse(&Action::Increment);
    assert_eq!(machine.state(), 1);
    assert_eq!(machine.edges(), vec![Action::Increment, Action::Decrement]);

    machine.traverse(&Action::Decrement);
    assert_eq!(machine.state(), 0);
    assert_eq!(machine.edges(), vec![Action::Increment, Action::Decrement]);

    machine.traverse(&Action::Decrement);
    assert_eq!(machine.state(), -1);
}

// ---------------------------------------------------------------------------
// Vending machine
// ---------------------------------------------------------------------------

#[derive(Clone, Copy, PartialEq, Eq, Debug)]
enum VendingAction {
    InsertCoin,
    SelectItem,
    ReturnChange,
}

impl Default for VendingAction {
    fn default() -> Self {
        Self::InsertCoin
    }
}

struct VendingProcess {
    started: bool,
    coins: u32,
}

impl StateMachine<VendingAction, u32> for VendingProcess {
    fn resume(&mut self, action: VendingAction) -> (u32, Vec<VendingAction>) {
        if self.started {
            match action {
                VendingAction::InsertCoin => self.coins = self.coins + 1,
                VendingAction::SelectItem => {
                    if self.coins >= 2 {
                        self.coins = self.coins - 2
                    }
                }
                VendingAction::ReturnChange => self.coins = 0,
            }
        } else {
            self.started = true;
        }
        (
            self.coins,
            vec![
                VendingAction::InsertCoin,
                VendingAction::SelectItem,
                VendingAction::ReturnChange,
            ],
        )
    }
}

fn vending_machine() -> impl Machine<u32, Transition = VendingAction> {
    AsMachine::new(VendingProcess {
        started: false,
        coins: 0,
    })
}

#[test]
fn vending_machine_example() {
    let mut machine = vending_machine();

    assert_eq!(machine.state(), 0);

    machine.traverse(&VendingAction::InsertCoin);
    assert_eq!(machine.state(), 1);

    machine.traverse(&VendingAction::SelectItem);
    assert_eq!(machine.state(), 1); // Not enough coins

    machine.traverse(&VendingAction::InsertCoin);
    assert_eq!(machine.state(), 2);

    machine.traverse(&VendingAction::SelectItem);
    assert_eq!(machine.state(), 0); // Purchase successful
}

#[test]
fn vending_machine_two_coins_buy_one_item() {
    let mut machine = vending_machine();

    for action in [
        VendingAction::InsertCoin,
        VendingAction::InsertCoin,
        VendingAction::SelectItem,
    ] {
        machine.traverse(&action);
    }
    assert_eq!(machine.state(), 0);
}

#[test]
fn vending_machine_returns_change() {
    let mut machine = vending_machine();

    machine.traverse(&VendingAction::InsertCoin);
    machine.traverse(&VendingAction::InsertCoin);
    machine.traverse(&VendingAction::InsertCoin);
    assert_eq!(machine.state(), 3);

    machine.traverse(&VendingAction::ReturnChange);
    assert_eq!(machine.state(), 0);
}

// ---------------------------------------------------------------------------
// Modal dialog
// ---------------------------------------------------------------------------

#[derive(Clone, Copy, PartialEq, Eq, Debug)]
pub enum ModalResult<T> {
    Okay(T),
    Cancelled,
}

#[derive(PartialEq, Eq, Clone, Copy, Debug)]
pub enum CountDialogAction {
    Buttons(ModalAction),
    Display(Action),
}

#[derive(PartialEq, Eq, Clone, Copy, Debug)]
pub enum ModalAction {
    Okay,
    Cancel,
}

impl From<ModalAction> for CountDialogAction {
    fn from(value: ModalAction) -> Self {
        CountDialogAction::Buttons(value)
    }
}

impl From<Action> for CountDialogAction {
    fn from(value: Action) -> Self {
        CountDialogAction::Display(value)
    }
}

impl TryInto<Action> for CountDialogAction {
    type Error = ();

    fn try_into(self) -> Result<Action, Self::Error> {
        match self {
            CountDialogAction::Display(action) => Ok(action),
            _ => Err(()),
        }
    }
}

impl TryInto<ModalAction> for CountDialogAction {
    type Error = ();

    fn try_into(self) -> Result<ModalAction, Self::Error> {
        match self {
            CountDialogAction::Buttons(action) => Ok(action),
            _ => Err(()),
        }
    }
}

impl Default for ModalAction {
    fn default() -> Self {
        ModalAction::Okay
    }
}

fn accept<T>(state: T) -> ModalResult<T> {
    ModalResult::Okay(state)
}

fn dismiss<T>(_state: T) -> ModalResult<T> {
    ModalResult::Cancelled
}

/// The process of a modal dialog: it offers its two buttons once and ends
/// with what the chosen button makes of the dialog's contents.
struct ModalProcess {
    started: bool,
}

impl<T> ChainStateMachine<ModalAction, fn(T) -> ModalResult<T>> for ModalProcess {
    fn resume(
        &mut self,
        action: ModalAction,
    ) -> CoroutineState<Vec<ModalAction>, fn(T) -> ModalResult<T>> {
        if self.started {
            match action {
                ModalAction::Okay => CoroutineState::Complete(accept),
                ModalAction::Cancel => CoroutineState::Complete(dismiss),
            }
        } else {
            self.started = true;
            CoroutineState::Yielded(vec![ModalAction::Okay, ModalAction::Cancel])
        }
    }
}

/// A generic machine that can be combined with other machines to construct
/// the state machine of a modal dialog.
pub fn modal<T: Clone>(
) -> impl Chainable<Option<fn(T) -> ModalResult<T>>, Transition = ModalAction> {
    AsChainMachine::new(ModalProcess { started: false })
}

fn apply_button(
    dialog_state: Option<fn(i32) -> ModalResult<i32>>,
    count: i32,
) -> Option<ModalResult<i32>> {
    match dialog_state {
        Some(f) => Some((f.clone())(count)),
        None => None,
    }
}

#[test]
fn modal_dialog_example() {
    let contents = counter();

    let dialog = modal();

    let mut machine = dialog.zip_with_into(
        contents,
        |x: ModalAction| CountDialogAction::from(x),
        |x: CountDialogAction| x.try_into().ok(),
        |x: Action| CountDialogAction::from(x),
        |x: CountDialogAction| x.try_into().ok(),
        |dialog_state, count| match dialog_state {
            Some(f) => Some((f.clone())(count)),
            None => None,
        },
    );

    assert_eq!(machine.state(), None);

    machine.traverse(&CountDialogAction::Display(Action::Decrement));

    assert_eq!(machine.state(), None);

    machine.traverse(&CountDialogAction::Buttons(ModalAction::Okay));

    assert_eq!(machine.state(), Some(ModalResult::Okay(-1)));

    let contents = counter();

    let dialog = modal();

    let mut machine = dialog.zip_with_into(
        contents,
        |x: ModalAction| CountDialogAction::from(x),
        |x: CountDialogAction| x.try_into().ok(),
        |x: Action| CountDialogAction::from(x),
        |x: CountDialogAction| x.try_into().ok(),
        apply_button,
    );

    assert_eq!(machine.state(), None);

    machine.traverse(&CountDialogAction::Display(Action::Increment));

    assert_eq!(machine.state(), None);

    machine.traverse(&CountDialogAction::Buttons(ModalAction::Okay));

    assert_eq!(machine.state(), Some(ModalResult::Okay(1)));
}

#[test]
fn modal_dialog_offers_its_buttons_in_the_shared_alphabet() {
    let mut machine = modal().zip_with_into(
        counter(),
        |x: ModalAction| CountDialogAction::from(x),
        |x: CountDialogAction| x.try_into().ok(),
        |x: Action| CountDialogAction::from(x),
        |x: CountDialogAction| x.try_into().ok(),
        apply_button,
    );

    assert_eq!(
        machine.edges(),
        vec![
            CountDialogAction::Buttons(ModalAction::Okay),
            CountDialogAction::Buttons(ModalAction::Cancel),
        ]
    );

    machine.traverse(&CountDialogAction::Buttons(ModalAction::Cancel));
    assert_eq!(machine.state(), Some(ModalResult::Cancelled));
    assert_eq!(machine.edges(), vec![]);
}

// ---------------------------------------------------------------------------
// Chaining
// ---------------------------------------------------------------------------

fn dialog() -> impl Chainable<Option<ModalResult<i32>>, Transition = CountDialogAction> {
    modal()
        .map_actions(
            |x| CountDialogAction::Buttons(x),
            |x| match x {
                CountDialogAction::Buttons(modal_action) => Some(modal_action),
                CountDialogAction::Display(_) => None,
            },
        )
        .zip_with(
            counter().map_actions(
                |x| CountDialogAction::Display(x),
                |x| match x {
                    CountDialogAction::Buttons(_) => None,
                    CountDialogAction::Display(action) => Some(action),
                },
            ),
            apply_button,
        )
}

#[test]
fn chained_modal_dialog_example() {
    let mut machine = dialog().chain(dialog());

    assert_eq!(machine.state(), None);

    // First dialog interactions
    machine.traverse(&CountDialogAction::Display(Action::Increment));
    assert_eq!(machine.state(), None);

    machine.traverse(&CountDialogAction::Buttons(ModalAction::Okay));
    assert_eq!(machine.state(), None); // Still None as we're in second dialog

    // Second dialog interactions
    machine.traverse(&CountDialogAction::Buttons(ModalAction::Okay));
    machine.traverse(&CountDialogAction::Display(Action::Increment));
    assert_eq!(machine.state(), Some(ModalResult::Okay(1)));

    // Test cancellation path
    let mut machine = dialog().chain(dialog());

    machine.traverse(&CountDialogAction::Display(Action::Increment));
    machine.traverse(&CountDialogAction::Buttons(ModalAction::Okay));
    machine.traverse(&CountDialogAction::Buttons(ModalAction::Cancel));
    assert_eq!(machine.state(), Some(ModalResult::Cancelled));
}

#[test]
fn flat_mapped_modal_dialog_example() {
    let mut machine = dialog().flat_map(|first_result| match first_result {
        ModalResult::Okay(first_count) => dialog().map(move |second_result| match second_result {
            Some(ModalResult::Okay(second_count)) => {
                Some(ModalResult::Okay(first_count + second_count))
            }
            Some(ModalResult::Cancelled) => Some(ModalResult::Cancelled),
            None => None,
        }),
        ModalResult::Cancelled => panic!("the first dialog was cancelled"),
    });

    assert_eq!(machine.state(), None);

    // First dialog interactions
    machine.traverse(&CountDialogAction::Display(Action::Increment));
    assert_eq!(machine.state(), None);

    machine.traverse(&CountDialogAction::Buttons(ModalAction::Okay));
    assert_eq!(machine.state(), None);

    // Second dialog interactions
    machine.traverse(&CountDialogAction::Display(Action::Increment));
    machine.traverse(&CountDialogAction::Display(Action::Increment));
    machine.traverse(&CountDialogAction::Buttons(ModalAction::Okay));
    assert_eq!(machine.state(), Some(ModalResult::Okay(3)));
}

/// One of two machines over the same state and alphabet.
enum Either<L, R> {
    Left(L),
    Right(R),
}

impl<T, L, R> Machine<T> for Either<L, R>
where
    L: Machine<T>,
    R: Machine<T, Transition = L::Transition>,
{
    type Transition = L::Transition;

    fn edges(&self) -> Vec<L::Transition> {
        match self {
            Either::Left(left) => left.edges(),
            Either::Right(right) => right.edges(),
        }
    }

    fn state(&mut self) -> T {
        match self {
            Either::Left(left) => left.state(),
            Either::Right(right) => right.state(),
        }
    }

    fn traverse(&mut self, edge: &L::Transition) {
        match self {
            Either::Left(left) => left.traverse(edge),
            Either::Right(right) => right.traverse(edge),
        }
    }
}

/// Two dialogs, one after the other; the result is the sum of the two
/// counts, or `Cancelled` as soon as one of them is cancelled.
fn two_dialogs() -> impl Machine<Option<ModalResult<i32>>, Transition = CountDialogAction> {
    dialog().flat_map(|first_result| match first_result {
        ModalResult::Okay(first_count) => {
            Either::Left(dialog().map(move |second_result| match second_result {
                Some(ModalResult::Okay(second_count)) => {
                    Some(ModalResult::Okay(first_count + second_count))
                }
                Some(ModalResult::Cancelled) => Some(ModalResult::Cancelled),
                None => None,
            }))
        }
        ModalResult::Cancelled => {
            let cancelled: PureMachine<Option<ModalResult<i32>>, CountDialogAction> =
                pure(Some(ModalResult::Cancelled));
            Either::Right(cancelled)
        }
    })
}

#[test]
fn two_dialogs_confirmed_at_one_each_give_two() {
    let mut machine = two_dialogs();
    assert_eq!(machine.state(), None);

    machine.traverse(&CountDialogAction::Display(Action::Increment));
    assert_eq!(machine.state(), None);
    machine.traverse(&CountDialogAction::Buttons(ModalAction::Okay));
    assert_eq!(machine.state(), None);

    machine.traverse(&CountDialogAction::Display(Action::Increment));
    assert_eq!(machine.state(), None);
    machine.traverse(&CountDialogAction::Buttons(ModalAction::Okay));
    assert_eq!(machine.state(), Some(ModalResult::Okay(2)));
}

#[test]
fn cancelling_the_first_dialog_ends_the_sequence() {
    let mut machine = two_dialogs();

    machine.traverse(&CountDialogAction::Display(Action::Increment));
    machine.traverse(&CountDialogAction::Buttons(ModalAction::Cancel));
    assert_eq!(machine.state(), Some(ModalResult::Cancelled));
    assert_eq!(machine.edges(), vec![]);

    // Nothing is left to drive.
    machine.traverse(&CountDialogAction::Display(Action::Increment));
    machine.traverse(&CountDialogAction::Buttons(ModalAction::Okay));
    assert_eq!(machine.state(), Some(ModalResult::Cancelled));
}

#[test]
fn cancelling_the_second_dialog_ends_the_sequence() {
    let mut machine = two_dialogs();

    machine.traverse(&CountDialogAction::Display(Action::Increment));
    machine.traverse(&CountDialogAction::Buttons(ModalAction::Okay));
    machine.traverse(&CountDialogAction::Display(Action::Increment));
    machine.traverse(&CountDialogAction::Buttons(ModalAction::Cancel));
    assert_eq!(machine.state(), Some(ModalResult::Cancelled));

    // The dialog has ended: its buttons are gone and so is its result's
    // dependence on them.
    machine.traverse(&CountDialogAction::Buttons(ModalAction::Okay));
    assert_eq!(machine.state(), Some(ModalResult::Cancelled));
}
