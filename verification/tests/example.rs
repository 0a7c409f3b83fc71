use enstate::coroutines::StateMachine;

#[derive(Clone, Copy, PartialEq, Eq, Debug)]
enum Action {
    Increment,
    Decrement,
}

impl Default for Action {
    fn default() -> Self {
        Self::Increment
    }
}

/// A counter process: it waits at its single choice point and, resumed with
/// an action, applies it and comes back to the choice point.
struct Example {
    started: bool,
    count: i32,
}

impl StateMachine<Action, i32> for Example {
    fn resume(&mut self, action: Action) -> (i32, Vec<Action>) {
        if self.started {
            match action {
                Action::Increment => self.count = self.count + 1,
                Action::Decrement => self.count = self.count - 1,
            }
        } else {
            self.started = true;
        }
        (self.count, vec![Action::Increment, Action::Decrement])
    }
}

fn example() -> impl StateMachine<Action, i32> {
    Example {
        started: false,
        count: 0,
    }
}

#[test]
fn test_example_machine() {
    let mut machine = example();

    // The first action is irrelevant: it only brings the process to its
    // first choice point.
    let initial_return = machine.resume(Action::Decrement);

    let expected_actions = [Action::Increment, Action::Decrement].as_slice();

    assert!(initial_return == (0, expected_actions.to_vec()));

    // The second action should actually increment the state.
    let second_return = machine.resume(Action::Increment);

    println!("{:?}", &second_return);

    assert!(second_return == (1, expected_actions.to_vec()));
}
