// Time is counted in milliseconds: a tick of 0.1 s brings 100.

use behaviortree::behavior_nodes::invert_node::InvertState;
use behaviortree::behavior_nodes::wait_node::WaitState;
use behaviortree::{ActionType, Behavior, Child, ImmediateAction, Status, SyncAction};

#[derive(Default)]
pub struct TestShared;

struct GenericTestImmediateAction {
    name: &'static str,
    status: bool,
}

impl<S> ImmediateAction<S> for GenericTestImmediateAction {
    fn run(&mut self, _delta: u64, _shared: &mut S) -> bool {
        self.status
    }

    fn reset(&mut self, _shared: &mut S) {}

    fn name(&self) -> &'static str {
        self.name
    }
}

struct GenericTestSyncAction {
    name: &'static str,
    status: bool,
    times: usize,
    elapsed: usize,
}

impl GenericTestSyncAction {
    fn new(name: String, status: bool, times: usize) -> Self {
        Self {
            name: Box::new(name).leak(),
            status,
            times,
            elapsed: 0,
        }
    }
}

impl<S> SyncAction<S> for GenericTestSyncAction {
    fn tick(&mut self, _dt: u64, _shared: &mut S) -> Status {
        let mut status = if self.status {
            Status::Success
        } else {
            Status::Failure
        };
        self.elapsed += 1;
        if self.elapsed < self.times {
            status = Status::Running;
        }
        status
    }

    fn reset(&mut self, _shared: &mut S) {
        self.elapsed = 0;
    }

    fn name(&self) -> &'static str {
        self.name
    }
}

#[derive(Clone, Copy)]
pub enum TestAction {
    Success,
    Failure,
    SuccessAfter { times: usize },
    FailureAfter { times: usize },
}

impl Into<ActionType<TestShared>> for TestAction {
    fn into(self) -> ActionType<TestShared> {
        match self {
            TestAction::Success => {
                let action = Box::new(GenericTestImmediateAction {
                    name: "Success",
                    status: true,
                });
                ActionType::Immediate(action)
            }
            TestAction::Failure => {
                let action = Box::new(GenericTestImmediateAction {
                    name: "Failure",
                    status: false,
                });
                ActionType::Immediate(action)
            }
            TestAction::SuccessAfter { times } => {
                assert!(times >= 1);
                let action = Box::new(GenericTestSyncAction::new(
                    format!("SuccessAfter{}", times),
                    true,
                    times + 1,
                ));
                ActionType::Sync(action)
            }
            TestAction::FailureAfter { times } => {
                assert!(times >= 1);
                let action = Box::new(GenericTestSyncAction::new(
                    format!("FailureAfter{}", times),
                    false,
                    times + 1,
                ));
                ActionType::Sync(action)
            }
        }
    }
}

fn child(behavior: Behavior<TestAction>) -> Child<TestShared> {
    assert!(behavior.is_well_formed());
    Child::from_behavior(behavior)
}

// Invert

#[test]
fn invert_node_test_invert_success() {
    let mut shared = TestShared::default();

    let behavior = Behavior::Invert(Box::new(Behavior::Action(TestAction::Success)));
    let mut child = child(behavior);

    let status = child.tick(100, &mut shared);
    assert_eq!(status, Status::Failure);
}

#[test]
fn invert_node_test_invert_failure() {
    let mut shared = TestShared::default();

    let behavior = Behavior::Action(TestAction::Failure);
    let child = child(behavior);
    let mut invert = InvertState::new(child);

    let status = invert.tick(100, &mut shared);
    assert_eq!(status, Status::Success);
}

#[test]
fn test_invert_running_status() {
    let mut shared = TestShared::default();

    let behavior = Behavior::Action(TestAction::FailureAfter { times: 1 });
    let child = child(behavior);
    let mut invert = InvertState::new(child);

    let status = invert.tick(100, &mut shared);
    assert_eq!(status, Status::Running);

    let status = invert.tick(100, &mut shared);
    assert_eq!(status, Status::Success);
}

#[test]
fn test_invert_reset() {
    let mut shared = TestShared::default();

    let behavior = Behavior::Action(TestAction::Success);
    let child = child(behavior);
    let mut invert = InvertState::new(child);

    let status = invert.tick(100, &mut shared);
    assert_eq!(status, Status::Failure);

    invert.reset(&mut shared);

    let status = invert.tick(100, &mut shared);
    assert_eq!(status, Status::Failure);
}

// Loop

#[test]
fn loop_node_test_loop_all_success() {
    let behavior = Behavior::Sequence(vec![
        Behavior::Action(TestAction::Success),
        Behavior::Action(TestAction::Success),
        Behavior::Action(TestAction::Success),
    ]);
    let behavior = Behavior::Loop(behavior.into());
    assert!(behavior.is_well_formed());
    let (mut child, _state) = Child::from_behavior_with_state(behavior);

    let mut shared = TestShared;
    for i in 0..6 {
        let status = child.tick(100, &mut shared);
        assert_eq!(status, Status::Running);
        println!("{i} : {:?}", child.state());
    }
}

#[test]
fn loop_node_test_loop_with_failure() {
    let behavior = Behavior::Sequence(vec![
        Behavior::Action(TestAction::Success),
        Behavior::Action(TestAction::Failure),
        Behavior::Action(TestAction::Success),
    ]);
    let behavior = Behavior::Loop(behavior.into());
    assert!(behavior.is_well_formed());
    let (mut child, _state) = Child::from_behavior_with_state(behavior);

    let mut shared = TestShared;
    for i in 0..6 {
        let status = child.tick(100, &mut shared);
        assert_eq!(status, Status::Running);
        println!("{i} : {:?}", child.state());
    }
}

// Select

#[test]
fn select_node_test_select_success() {
    let select = Behavior::Select(vec![Behavior::Action(TestAction::Success)]);
    let mut select = child(select);

    let mut shared = TestShared::default();

    let status = select.tick(100, &mut shared);
    assert_eq!(status, Status::Success);
}

#[test]
fn select_node_test_select_failure() {
    let select = Behavior::Select(vec![Behavior::Action(TestAction::Failure)]);
    let mut select = child(select);

    let mut shared = TestShared::default();
    let status = select.tick(100, &mut shared);
    assert_eq!(status, Status::Failure);
}

#[test]
fn test_select_run_then_status() {
    let select = Behavior::Select(vec![Behavior::Action(TestAction::FailureAfter {
        times: 2,
    })]);
    let mut select = child(select);

    let mut shared = TestShared::default();
    let status = select.tick(100, &mut shared);
    assert_eq!(status, Status::Running);

    let status = select.tick(100, &mut shared);
    assert_eq!(status, Status::Running);

    let status = select.tick(100, &mut shared);
    assert_eq!(status, Status::Failure);
}

#[test]
fn select_node_test_select_multiple_children() {
    let select = Behavior::Select(vec![
        Behavior::Action(TestAction::Failure),
        Behavior::Action(TestAction::Failure),
    ]);
    let mut select = child(select);

    let mut shared = TestShared::default();
    let status = select.tick(100, &mut shared);
    assert_eq!(status, Status::Running);

    let status = select.tick(100, &mut shared);
    assert_eq!(status, Status::Failure);
}

#[test]
fn test_select_multiple_children_early_reset() {
    let select = Behavior::Select(vec![
        Behavior::Action(TestAction::Failure),
        Behavior::Action(TestAction::Failure),
    ]);
    let mut select = child(select);

    let mut shared = TestShared::default();

    let status = select.tick(100, &mut shared);
    assert_eq!(status, Status::Running);

    select.reset(&mut shared);

    let status = select.tick(100, &mut shared);
    assert_eq!(status, Status::Running);

    let status = select.tick(100, &mut shared);
    assert_eq!(status, Status::Failure);
}

#[test]
fn test_select_multiple_children_early_success() {
    let select = Behavior::Select(vec![
        Behavior::Action(TestAction::Failure),
        Behavior::Action(TestAction::Success),
        Behavior::Action(TestAction::Failure),
    ]);
    let mut select = child(select);

    let mut shared = TestShared::default();
    let status = select.tick(100, &mut shared);
    assert_eq!(status, Status::Running);

    let status = select.tick(100, &mut shared);
    assert_eq!(status, Status::Success);
}

// Sequence

#[test]
fn sequence_node_test_sequence_success() {
    let mut shared = TestShared::default();
    let mut sequence = child(Behavior::Sequence(vec![Behavior::Action(
        TestAction::Success,
    )]));

    let status = sequence.tick(100, &mut shared);
    assert_eq!(status, Status::Success);
}

#[test]
fn sequence_node_test_sequence_failure() {
    let mut shared = TestShared::default();
    let mut sequence = child(Behavior::Sequence(vec![Behavior::Action(
        TestAction::Failure,
    )]));

    let status = sequence.tick(100, &mut shared);
    assert_eq!(status, Status::Failure);
}

#[test]
fn sequence_node_test_sequence_run_then_status() {
    let mut shared = TestShared::default();
    let mut sequence = child(Behavior::Sequence(vec![Behavior::Action(
        TestAction::FailureAfter { times: 2 },
    )]));

    let status = sequence.tick(100, &mut shared);
    assert_eq!(status, Status::Running);

    let status = sequence.tick(100, &mut shared);
    assert_eq!(status, Status::Running);

    let status = sequence.tick(100, &mut shared);
    assert_eq!(status, Status::Failure);
}

#[test]
fn sequence_node_test_sequence_multiple_children() {
    let mut shared = TestShared::default();
    let mut sequence = child(Behavior::Sequence(vec![
        Behavior::Action(TestAction::Success),
        Behavior::Action(TestAction::Success),
    ]));

    let status = sequence.tick(100, &mut shared);
    assert_eq!(status, Status::Running);

    let status = sequence.tick(100, &mut shared);
    assert_eq!(status, Status::Success);
}

#[test]
fn sequence_node_test_sequence_multiple_children_early_failure() {
    let mut shared = TestShared::default();
    let mut sequence = child(Behavior::Sequence(vec![
        Behavior::Action(TestAction::Success),
        Behavior::Action(TestAction::Failure),
        Behavior::Action(TestAction::Success), // This never executes
    ]));

    let status = sequence.tick(100, &mut shared);
    assert_eq!(status, Status::Running);

    let status = sequence.tick(100, &mut shared);
    assert_eq!(status, Status::Failure);
}

// Wait

#[test]
fn test_wait() {
    let mut shared = TestShared::default();

    let mut wait = WaitState::new(2000);

    let status = wait.tick(1000, &mut shared);
    assert_eq!(status, Status::Running);

    let status = wait.tick(1000, &mut shared);
    assert_eq!(status, Status::Success);

    // Reset
    wait.reset(&mut shared);

    let status = wait.tick(1000, &mut shared);
    assert_eq!(status, Status::Running);

    let status = wait.tick(1000, &mut shared);
    assert_eq!(status, Status::Success);
}

#[test]
fn test_wait_from_behavior() {
    let mut shared = TestShared::default();

    let mut wait = child(Behavior::Wait(2000));

    let status = wait.tick(1000, &mut shared);
    assert_eq!(status, Status::Running);

    let status = wait.tick(1000, &mut shared);
    assert_eq!(status, Status::Success);

    // Reset
    wait.reset(&mut shared);

    let status = wait.tick(1000, &mut shared);
    assert_eq!(status, Status::Running);

    let status = wait.tick(1000, &mut shared);
    assert_eq!(status, Status::Success);
}

// Child

#[test]
fn child_test_basic_behavior() {
    let behavior = Behavior::Sequence(vec![
        Behavior::Action(TestAction::Success),
        Behavior::Wait(10_000),
        Behavior::Action(TestAction::Success),
        Behavior::Invert(Behavior::Action(TestAction::Failure).into()),
        Behavior::Action(TestAction::Success),
    ]);
    assert!(behavior.is_well_formed());

    let (mut child, _state) = Child::from_behavior_with_state(behavior);
    let mut shared = TestShared;

    let mut ticks = 0;
    loop {
        let status = child.tick(1000, &mut shared);
        ticks += 1;
        println!("State:\n{:#?}", child.state());
        if status != Status::Running {
            assert_eq!(status, Status::Success);
            break;
        }
    }
    // one tick for each action, ten for the wait
    assert_eq!(ticks, 14);
}
