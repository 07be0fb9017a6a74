// Time is counted in milliseconds: a tick of 0.1 s brings 100.

use std::cell::RefCell;
use std::rc::Rc;

use behaviortree::{
    ActionType, Behavior, BehaviorTree, BehaviorTreePolicy, ImmediateAction, State, Status,
    SyncAction,
};

#[derive(Default)]
pub struct TestShared;

struct GenericTestImmediateAction {
    name: &'static str,
    status: bool,
}

impl<S> ImmediateAction<S> for GenericTestImmediateAction {
    fn run(&mut self, _delta: u64, _shared: &mut S) -> bool {
        self.status
    }

    fn reset(&mut self, _shared: &mut S) {}

    fn name(&self) -> &'static str {
        self.name
    }
}

#[derive(Clone, Copy)]
pub enum TestAction {
    Success,
    Failure,
}

impl Into<ActionType<TestShared>> for TestAction {
    fn into(self) -> ActionType<TestShared> {
        match self {
            TestAction::Success => ActionType::Immediate(Box::new(GenericTestImmediateAction {
                name: "Success",
                status: true,
            })),
            TestAction::Failure => ActionType::Immediate(Box::new(GenericTestImmediateAction {
                name: "Failure",
                status: false,
            })),
        }
    }
}

/// Succeeds on the tick with the given number and counts how often it is
/// ticked and reset.
struct Counting {
    ticks_needed: usize,
    ticked: usize,
    record: Rc<RefCell<Record>>,
}

#[derive(Default)]
struct Record {
    ticks: usize,
    resets: usize,
}

impl Counting {
    fn new(ticks_needed: usize) -> (Self, Rc<RefCell<Record>>) {
        let record = Rc::new(RefCell::new(Record::default()));
        (
            Self {
                ticks_needed,
                ticked: 0,
                record: record.clone(),
            },
            record,
        )
    }
}

impl SyncAction<TestShared> for Counting {
    fn tick(&mut self, _delta: u64, _shared: &mut TestShared) -> Status {
        self.ticked += 1;
        self.record.borrow_mut().ticks += 1;
        if self.ticked < self.ticks_needed {
            Status::Running
        } else {
            Status::Success
        }
    }

    fn reset(&mut self, _shared: &mut TestShared) {
        self.ticked = 0;
        self.record.borrow_mut().resets += 1;
    }

    fn name(&self) -> &'static str {
        "Counting"
    }
}

impl Into<ActionType<TestShared>> for Counting {
    fn into(self) -> ActionType<TestShared> {
        ActionType::Sync(Box::new(self))
    }
}

#[test]
fn behaviortree_behavior_tree_with_reset() {
    let behavior = Behavior::Sequence(vec![
        Behavior::Action(TestAction::Success),
        Behavior::Action(TestAction::Success),
    ]);
    assert!(behavior.is_well_formed());
    let mut tree = BehaviorTree::new(
        behavior,
        BehaviorTreePolicy::from_should_loop(false),
        TestShared,
    );
    let state = tree.state();

    // For unit tests
    let _state = tree.state();
    assert_eq!(tree.status(), None);
    println!("State: {state:?}");

    let status = tree.tick(100);
    assert_eq!(status, Status::Running);
    println!("State: {:?}", tree.state());

    let status = tree.tick(100);
    assert_eq!(status, Status::Success);
    println!("State: {:?}", tree.state());

    // Ticking again returns the same status
    let status = tree.tick(100);
    assert_eq!(status, Status::Success);
    println!("State: {:?}", tree.state());

    tree.reset();

    let status = tree.tick(100);
    assert_eq!(status, Status::Running);

    let status = tree.tick(100);
    assert_eq!(status, Status::Success);
}

#[test]
fn behaviortree_behavior_tree_with_auto_reset() {
    let behavior = Behavior::Sequence(vec![
        Behavior::Action(TestAction::Success),
        Behavior::Action(TestAction::Success),
    ]);
    assert!(behavior.is_well_formed());
    let mut tree = BehaviorTree::new(
        behavior,
        BehaviorTreePolicy::from_should_loop(true),
        TestShared,
    );

    let status = tree.tick(100);
    assert_eq!(status, Status::Running);

    let status = tree.tick(100);
    assert_eq!(status, Status::Success);

    // Automatically resets after success (Reload on Completion)

    let status = tree.tick(100);
    assert_eq!(status, Status::Running);

    let status = tree.tick(100);
    assert_eq!(status, Status::Success);
}

#[test]
fn behavior_tree_behavior_tree_with_reset() {
    let (first, first_record) = Counting::new(1);
    let (second, second_record) = Counting::new(1);
    let behavior = Behavior::Sequence(vec![Behavior::Action(first), Behavior::Action(second)]);
    assert!(behavior.is_well_formed());
    let mut tree = BehaviorTree::new(
        behavior,
        BehaviorTreePolicy::RetainOnCompletion,
        TestShared,
    );

    assert_eq!(tree.status(), None);

    let status = tree.tick(100);
    assert_eq!(status, Status::Running);

    let status = tree.tick(100);
    assert_eq!(status, Status::Success);

    tree.reset();
    assert_eq!(first_record.borrow().resets, 1);
    assert_eq!(second_record.borrow().resets, 1);

    let status = tree.tick(100);
    assert_eq!(status, Status::Running);

    let status = tree.tick(100);
    assert_eq!(status, Status::Success);
}

#[test]
fn behavior_tree_behavior_tree_with_auto_reset() {
    let (first, first_record) = Counting::new(1);
    let (second, second_record) = Counting::new(1);
    let behavior = Behavior::Sequence(vec![Behavior::Action(first), Behavior::Action(second)]);
    assert!(behavior.is_well_formed());
    let mut tree = BehaviorTree::new(
        behavior,
        BehaviorTreePolicy::ReloadOnCompletion,
        TestShared,
    );

    let status = tree.tick(100);
    assert_eq!(status, Status::Running);

    let status = tree.tick(100);
    assert_eq!(status, Status::Success);

    // Automatically resets after success (Reload on Completion)

    let status = tree.tick(100);
    assert_eq!(status, Status::Running);
    assert_eq!(first_record.borrow().resets, 1);
    assert_eq!(second_record.borrow().resets, 1);

    let status = tree.tick(100);
    assert_eq!(status, Status::Success);
}

#[test]
fn behavior_tree_with_observer() {
    let behavior = Behavior::Sequence(vec![
        Behavior::Action(TestAction::Success),
        Behavior::Action(TestAction::Success),
        Behavior::Action(TestAction::Success),
        Behavior::Action(TestAction::Success),
    ]);
    assert!(behavior.is_well_formed());
    let mut tree = BehaviorTree::new(
        behavior,
        BehaviorTreePolicy::RetainOnCompletion,
        TestShared,
    );

    let mut seen: Vec<Status> = Vec::new();
    let mut observer = |state: State, status: Status| {
        println!("Status: {:?}, State: {:?}", status, state);
        seen.push(status);
    };

    let status = tree.tick_with_observer(100, &mut observer);
    assert_eq!(status, Status::Running);

    let status = tree.tick_with_observer(100, &mut observer);
    assert_eq!(status, Status::Running);

    let status = tree.tick_with_observer(100, &mut observer);
    assert_eq!(status, Status::Running);

    let status = tree.tick_with_observer(100, &mut observer);
    assert_eq!(status, Status::Success);

    let status = tree.tick_with_observer(100, &mut observer);
    assert_eq!(status, Status::Success);

    assert_eq!(
        seen,
        vec![
            Status::Running,
            Status::Running,
            Status::Running,
            Status::Success,
            Status::Success
        ]
    );
}

#[derive(Debug, Clone, Copy)]
enum Operation {
    Add,
    Subtract,
    Multiply,
    Divide,
}

struct OperationAction(Operation);

impl ImmediateAction<TestShared> for OperationAction {
    fn run(&mut self, _delta: u64, _shared: &mut TestShared) -> bool {
        println!("Action: {:?}", self.0);
        true
    }

    fn reset(&mut self, _shared: &mut TestShared) {
        println!("{:?} has been reset", self.0);
    }

    fn name(&self) -> &'static str {
        match self.0 {
            Operation::Add => "Add",
            Operation::Subtract => "Subtract",
            Operation::Multiply => "Multiply",
            Operation::Divide => "Divide",
        }
    }
}

impl Into<ActionType<TestShared>> for Operation {
    fn into(self) -> ActionType<TestShared> {
        ActionType::Immediate(Box::new(OperationAction(self)))
    }
}

#[test]
fn test_simple_sequence_retain_policy() {
    let behavior = Behavior::Sequence(vec![
        Behavior::Action(Operation::Add),
        Behavior::Action(Operation::Subtract),
        Behavior::Action(Operation::Multiply),
        Behavior::Action(Operation::Divide),
    ]);
    assert!(behavior.is_well_formed());

    let mut bt = BehaviorTree::new(behavior, BehaviorTreePolicy::RetainOnCompletion, TestShared);

    assert!(bt.status().is_none());

    bt.tick(100);
    assert!(bt.status().is_some());
    assert!(bt.status().unwrap() == Status::Running);

    bt.tick(100);
    assert!(bt.status().is_some());
    assert!(bt.status().unwrap() == Status::Running);

    bt.tick(100);
    assert!(bt.status().is_some());
    assert!(bt.status().unwrap() == Status::Running);

    bt.tick(100);
    assert!(bt.status().is_some());
    assert_eq!(bt.status().unwrap(), Status::Success);

    // Retains after completion
    bt.tick(100);
    assert!(bt.status().is_some());
    assert_eq!(bt.status().unwrap(), Status::Success);

    bt.tick(100);
    assert!(bt.status().is_some());
    assert_eq!(bt.status().unwrap(), Status::Success);

    bt.tick(100);
    assert!(bt.status().is_some());
    assert_eq!(bt.status().unwrap(), Status::Success);

    bt.tick(100);
    assert!(bt.status().is_some());
    assert_eq!(bt.status().unwrap(), Status::Success);

    // Manually reset
    bt.reset();

    bt.tick(100);
    assert!(bt.status().is_some());
    assert_eq!(bt.status().unwrap(), Status::Running);

    // Test
    bt.reset();

    bt.tick(100);
    assert!(bt.status().is_some());
    assert_eq!(bt.status().unwrap(), Status::Running);

    bt.tick(100);
    assert!(bt.status().is_some());
    assert_eq!(bt.status().unwrap(), Status::Running);

    bt.tick(100);
    assert!(bt.status().is_some());
    assert_eq!(bt.status().unwrap(), Status::Running);

    bt.tick(100);
    assert!(bt.status().is_some());
    assert_eq!(bt.status().unwrap(), Status::Success);
}

#[test]
fn test_simple_sequence_reload_policy() {
    let behavior = Behavior::Sequence(vec![
        Behavior::Action(Operation::Add),
        Behavior::Action(Operation::Subtract),
        Behavior::Action(Operation::Multiply),
        Behavior::Action(Operation::Divide),
    ]);
    assert!(behavior.is_well_formed());
    let mut bt = BehaviorTree::new(behavior, BehaviorTreePolicy::ReloadOnCompletion, TestShared);

    assert!(bt.status().is_none());

    bt.tick(100);
    assert!(bt.status().is_some());
    assert!(bt.status().unwrap() == Status::Running);

    bt.tick(100);
    assert!(bt.status().is_some());
    assert!(bt.status().unwrap() == Status::Running);

    bt.tick(100);
    assert!(bt.status().is_some());
    assert!(bt.status().unwrap() == Status::Running);

    bt.tick(100);
    assert!(bt.status().is_some());
    assert_eq!(bt.status().unwrap(), Status::Success);

    // Reload after completion
    // Starts from Add again
    bt.tick(100);
    assert!(bt.status().is_some());
    assert_eq!(bt.status().unwrap(), Status::Running);

    bt.tick(100);
    assert!(bt.status().is_some());
    assert_eq!(bt.status().unwrap(), Status::Running);

    bt.tick(100);
    assert!(bt.status().is_some());
    assert_eq!(bt.status().unwrap(), Status::Running);

    bt.tick(100);
    assert!(bt.status().is_some());
    assert_eq!(bt.status().unwrap(), Status::Success);
}

// A sequence driven through a tree that retains its status: what is asked of
// a sequence that is ticked again after it has finished.

fn retained(behavior: Behavior<TestAction>) -> BehaviorTree<TestShared> {
    assert!(behavior.is_well_formed());
    BehaviorTree::new(behavior, BehaviorTreePolicy::RetainOnCompletion, TestShared)
}

#[test]
fn sequence_test_sequence_success() {
    let mut sequence = retained(Behavior::Sequence(vec![Behavior::Action(
        TestAction::Success,
    )]));
    assert_eq!(sequence.status(), None);

    let status = sequence.tick(100);
    assert_eq!(status, Status::Success);

    let status = sequence.tick(100);
    assert_eq!(status, Status::Success);
}

#[test]
fn sequence_test_sequence_failure() {
    let mut sequence = retained(Behavior::Sequence(vec![Behavior::Action(
        TestAction::Failure,
    )]));
    assert_eq!(sequence.status(), None);

    let status = sequence.tick(100);
    assert_eq!(status, Status::Failure);

    let status = sequence.tick(100);
    assert_eq!(status, Status::Failure);
}

#[test]
fn sequence_test_sequence_multiple_children() {
    let mut sequence = retained(Behavior::Sequence(vec![
        Behavior::Action(TestAction::Success),
        Behavior::Action(TestAction::Success),
    ]));
    assert_eq!(sequence.status(), None);

    let status = sequence.tick(100);
    assert_eq!(status, Status::Running);

    let status = sequence.tick(100);
    assert_eq!(status, Status::Success);
}

#[test]
fn sequence_test_sequence_multiple_children_early_failure() {
    let mut sequence = retained(Behavior::Sequence(vec![
        Behavior::Action(TestAction::Success),
        Behavior::Action(TestAction::Failure),
        Behavior::Action(TestAction::Success),
    ]));
    assert_eq!(sequence.status(), None);

    let status = sequence.tick(100);
    assert_eq!(status, Status::Running);

    let status = sequence.tick(100);
    assert_eq!(status, Status::Failure);
}

/// Fails on its third tick.
struct FailsOnThird {
    ticked: usize,
}

impl SyncAction<TestShared> for FailsOnThird {
    fn tick(&mut self, _delta: u64, _shared: &mut TestShared) -> Status {
        self.ticked += 1;
        if self.ticked < 3 {
            Status::Running
        } else {
            Status::Failure
        }
    }

    fn reset(&mut self, _shared: &mut TestShared) {
        self.ticked = 0;
    }

    fn name(&self) -> &'static str {
        "FailsOnThird"
    }
}

impl Into<ActionType<TestShared>> for FailsOnThird {
    fn into(self) -> ActionType<TestShared> {
        ActionType::Sync(Box::new(self))
    }
}

#[test]
fn sequence_test_sequence_run_then_status() {
    let behavior = Behavior::Sequence(vec![Behavior::Action(FailsOnThird { ticked: 0 })]);
    assert!(behavior.is_well_formed());
    let mut sequence =
        BehaviorTree::new(behavior, BehaviorTreePolicy::RetainOnCompletion, TestShared);
    assert_eq!(sequence.status(), None);

    let status = sequence.tick(100);
    assert_eq!(status, Status::Running);

    let status = sequence.tick(100);
    assert_eq!(status, Status::Running);

    let status = sequence.tick(100);
    assert_eq!(status, Status::Failure);
}

#[test]
fn test_sequence_run_then_halt() {
    // ticked once while running, then halted once
    let (action, record) = Counting::new(2);
    let behavior = Behavior::Sequence(vec![Behavior::Action(action)]);
    assert!(behavior.is_well_formed());
    let mut sequence =
        BehaviorTree::new(behavior, BehaviorTreePolicy::RetainOnCompletion, TestShared);
    assert_eq!(sequence.status(), None);

    let status = sequence.tick(100);
    assert_eq!(status, Status::Running);

    sequence.reset();
    assert_eq!(sequence.status(), None);
    assert_eq!(record.borrow().ticks, 1);
    assert_eq!(record.borrow().resets, 1);
}
