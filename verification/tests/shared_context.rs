// The shared context as the leaves see it: every leaf that is reached is
// handed the context as the leaf before it left it. Time is counted in
// milliseconds.

use behaviortree::blackboard::Blackboard;
use behaviortree::{
    ActionType, Behavior, BehaviorTree, BehaviorTreePolicy, Child, ImmediateAction, State, Status,
    SyncAction,
};

use Status::{Failure, Running, Success};

/// What the leaves have written, in order.
type Journal = Vec<String>;

/// An action that follows a script and writes into the shared context what
/// it was handed: its name, the call, the delta and the number of entries
/// that the context held before.
struct Writer {
    name: &'static str,
    script: Vec<Status>,
    position: usize,
}

impl SyncAction<Journal> for Writer {
    fn tick(&mut self, delta: u64, shared: &mut Journal) -> Status {
        let status = self.script[self.position];
        self.position += 1;
        shared.push(format!("{} tick {} after {}", self.name, delta, shared.len()));
        status
    }

    fn reset(&mut self, shared: &mut Journal) {
        self.position = 0;
        shared.push(format!("{} reset after {}", self.name, shared.len()));
    }

    fn name(&self) -> &'static str {
        self.name
    }
}

impl Into<ActionType<Journal>> for Writer {
    fn into(self) -> ActionType<Journal> {
        ActionType::Sync(Box::new(self))
    }
}

fn writer(name: &'static str, script: &[Status]) -> Behavior<Writer> {
    Behavior::Action(Writer {
        name,
        script: script.to_vec(),
        position: 0,
    })
}

fn build(behavior: Behavior<Writer>) -> Child<Journal> {
    assert!(behavior.is_well_formed());
    Child::from_behavior(behavior)
}

#[test]
fn sequence_hands_the_context_to_the_child_under_the_cursor() {
    let mut sequence = build(Behavior::Sequence(vec![
        writer("a", &[Running, Success]),
        writer("b", &[Success]),
        writer("c", &[Success]),
    ]));
    let mut journal = Journal::new();
    assert_eq!(sequence.tick(10, &mut journal), Running);
    assert_eq!(journal, vec!["a tick 10 after 0"]);
    assert_eq!(sequence.tick(20, &mut journal), Running);
    assert_eq!(sequence.tick(30, &mut journal), Running);
    assert_eq!(
        journal,
        vec!["a tick 10 after 0", "a tick 20 after 1", "b tick 30 after 2"]
    );
}

#[test]
fn reset_reaches_the_advanced_children_in_order() {
    let mut sequence = build(Behavior::Sequence(vec![
        writer("a", &[Success]),
        Behavior::Wait(5),
        Behavior::Invert(Box::new(writer("b", &[Running, Running]))),
        writer("c", &[Success]),
    ]));
    let mut journal = Journal::new();
    assert_eq!(sequence.tick(10, &mut journal), Running);
    assert_eq!(sequence.tick(10, &mut journal), Running);
    assert_eq!(sequence.tick(10, &mut journal), Running);
    journal.clear();
    sequence.reset(&mut journal);
    // the wait leaves the context alone, the child behind the cursor is
    // not reached
    assert_eq!(journal, vec!["a reset after 0", "b reset after 1"]);
}

#[test]
fn loop_resets_with_the_context_that_the_tick_left() {
    let mut repeated = build(Behavior::Loop(Box::new(writer("a", &[Running, Failure]))));
    let mut journal = Journal::new();
    assert_eq!(repeated.tick(1, &mut journal), Running);
    assert_eq!(repeated.tick(2, &mut journal), Running);
    assert_eq!(repeated.tick(3, &mut journal), Running);
    assert_eq!(
        journal,
        vec![
            "a tick 1 after 0",
            "a tick 2 after 1",
            "a reset after 2",
            "a tick 3 after 3",
        ]
    );
}

#[test]
fn guarded_loop_ticks_the_guards_and_then_cancels_in_order() {
    let mut guarded = build(Behavior::WhileAll(
        vec![
            writer("first", &[Running, Running]),
            writer("passes", &[Success, Success]),
            writer("breaks", &[Running, Failure]),
            writer("last", &[Running, Running]),
        ],
        Box::new(writer("work", &[Running, Running])),
    ));
    let mut journal = Journal::new();
    assert_eq!(guarded.tick(5, &mut journal), Running);
    assert_eq!(
        journal,
        vec![
            "first tick 5 after 0",
            "passes tick 5 after 1",
            "passes reset after 2",
            "breaks tick 5 after 3",
            "last tick 5 after 4",
            "work tick 5 after 5",
        ]
    );
    journal.clear();
    assert_eq!(guarded.tick(7, &mut journal), Failure);
    // first round: the guards up to the one that fails; second round: the
    // guards that are running are reset, then the child
    assert_eq!(
        journal,
        vec![
            "first tick 7 after 0",
            "passes tick 7 after 1",
            "passes reset after 2",
            "breaks tick 7 after 3",
            "first reset after 4",
            "last reset after 5",
            "work reset after 6",
        ]
    );
    journal.clear();
    guarded.reset(&mut journal);
    assert_eq!(
        journal,
        vec![
            "first reset after 0",
            "passes reset after 1",
            "breaks reset after 2",
            "last reset after 3",
            "work reset after 4",
        ]
    );
}

/// An immediate action that counts in the shared context how often it ran.
struct Counts(bool);

impl ImmediateAction<u32> for Counts {
    fn run(&mut self, _delta: u64, shared: &mut u32) -> bool {
        *shared += 1;
        self.0
    }

    fn reset(&mut self, shared: &mut u32) {
        *shared += 100;
    }

    fn name(&self) -> &'static str {
        "Counts"
    }
}

impl Into<ActionType<u32>> for Counts {
    fn into(self) -> ActionType<u32> {
        ActionType::Immediate(Box::new(self))
    }
}

/// An action that shows what it finds in the shared context.
struct Shows;

impl SyncAction<u32> for Shows {
    fn tick(&mut self, _delta: u64, shared: &mut u32) -> Status {
        if *shared == 1 || *shared == 102 {
            Success
        } else {
            Failure
        }
    }

    fn reset(&mut self, _shared: &mut u32) {}

    fn name(&self) -> &'static str {
        "Shows"
    }
}

enum Step {
    Count,
    Show,
}

impl Into<ActionType<u32>> for Step {
    fn into(self) -> ActionType<u32> {
        match self {
            Step::Count => Counts(true).into(),
            Step::Show => ActionType::Sync(Box::new(Shows)),
        }
    }
}

#[test]
fn tree_hands_its_own_context_to_the_leaves() {
    let behavior = Behavior::Sequence(vec![
        Behavior::Action(Step::Count),
        Behavior::Action(Step::Show),
    ]);
    let mut tree = BehaviorTree::new(behavior, BehaviorTreePolicy::ReloadOnCompletion, 0);
    assert_eq!(tree.tick(1), Running);
    // the second leaf finds the 1 that the first has left
    assert_eq!(tree.tick(1), Success);
    // the reload resets the first leaf, which adds 100, and ticks it again
    assert_eq!(tree.tick(1), Running);
    // the second leaf finds 102: one reset and two runs
    assert_eq!(tree.tick(1), Success);
}

#[test]
fn retained_tree_calls_no_leaf_after_it_has_finished() {
    let behavior = Behavior::Sequence(vec![
        Behavior::Action(Step::Count),
        Behavior::Action(Step::Show),
    ]);
    let mut tree = BehaviorTree::new(behavior, BehaviorTreePolicy::RetainOnCompletion, 0);
    assert_eq!(tree.tick(1), Running);
    assert_eq!(tree.tick(1), Success);
    let before = format!("{:?}", tree.state());
    for _ in 0..5 {
        // a third run of the first leaf would make the second fail
        assert_eq!(tree.tick(1), Success);
        assert_eq!(format!("{:?}", tree.state()), before);
    }
}

#[test]
fn default_blackboard_is_empty() {
    let mut blackboard = Blackboard::default();
    assert_eq!(blackboard.read::<u32>(&"any".to_string()), None);
    blackboard.write("any".to_string(), 5u32);
    assert_eq!(blackboard.read::<u32>(&"any".to_string()), Some(5));
    assert_eq!(blackboard.read::<u64>(&"any".to_string()), None);
    assert_eq!(blackboard.read::<u32>(&"other".to_string()), None);
}

#[test]
fn blackboard_shows_what_was_changed_in_place() {
    let mut blackboard = Blackboard::new();
    blackboard.write("count".to_string(), 7u32);
    *blackboard.read_ref_mut::<u32>(&"count".to_string()).unwrap() += 1;
    assert_eq!(blackboard.read_ref::<u32>(&"count".to_string()), Some(&8));
    blackboard.write("count".to_string(), "eight".to_string());
    assert_eq!(blackboard.read::<u32>(&"count".to_string()), None);
    assert_eq!(
        blackboard.read::<String>(&"count".to_string()),
        Some("eight".to_string())
    );
}

#[test]
fn cloned_state_shows_the_same() {
    let mut sequence = build(Behavior::Sequence(vec![
        writer("a", &[Running]),
        Behavior::Wait(5),
    ]));
    let mut journal = Journal::new();
    assert_eq!(sequence.tick(10, &mut journal), Running);
    let state = sequence.state();
    let copy = state.clone();
    assert_eq!(format!("{copy:?}"), format!("{state:?}"));
    match copy {
        State::MultipleChildren(name, status, children) => {
            assert_eq!(name, "Sequence");
            assert_eq!(status, Some(Running));
            assert_eq!(children.len(), 2);
            assert!(matches!(children[0], State::NoChild("a", Some(Running))));
            assert!(matches!(children[1], State::NoChild("Wait", None)));
        }
        other => panic!("unexpected state {other:?}"),
    }
}
