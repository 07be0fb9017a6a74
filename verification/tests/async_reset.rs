// Resetting and cancelling cooperatively run nodes, without a scheduler: the
// nodes are started and finished by hand, as a host would do it.

use behaviortree::{
    AsyncActionName, AsyncActionRunner, AsyncBehaviorTree, AsyncChild, AsyncNode, Behavior, State,
    Status,
};

#[derive(Debug, Clone, Copy, PartialEq)]
enum Job {
    Check,
    Watch,
    Fetch,
    Store,
}

impl AsyncActionName for Job {
    fn name(&self) -> &'static str {
        match self {
            Job::Check => "Check",
            Job::Watch => "Watch",
            Job::Fetch => "Fetch",
            Job::Store => "Store",
        }
    }
}

/// A runner that writes down for which actions it was reset, in order.
#[derive(Default)]
struct Recorder {
    resets: Vec<Job>,
}

impl AsyncActionRunner<Job> for Recorder {
    fn reset(&mut self, action: &Job) {
        self.resets.push(*action);
    }
}

fn statuses(state: &State, into: &mut Vec<(&'static str, Option<Status>)>) {
    match state {
        State::NoChild(name, status) => into.push((*name, *status)),
        State::SingleChild(name, status, child) => {
            into.push((*name, *status));
            statuses(child, into);
        }
        State::MultipleChildren(name, status, children) => {
            into.push((*name, *status));
            for child in children {
                statuses(child, into);
            }
        }
    }
}

fn shown(node: &AsyncChild<Job>) -> Vec<(&'static str, Option<Status>)> {
    let mut all = Vec::new();
    statuses(&node.state(), &mut all);
    all
}

fn fetch_then_store() -> Behavior<Job> {
    Behavior::Sequence(vec![
        Behavior::Action(Job::Fetch),
        Behavior::Wait(10),
        Behavior::Invert(Box::new(Behavior::Action(Job::Store))),
        Behavior::Action(Job::Check),
    ])
}

/// Runs the sequence by hand up to the middle of its third child.
fn abandon_in_third_child(sequence: &mut AsyncChild<Job>) {
    match sequence.start() {
        AsyncNode::Sequence(state) => {
            let first = state.current();
            first.start();
            first.finish(true);
            state.child_done(true);
            let second = state.current();
            second.start();
            second.finish(true);
            state.child_done(true);
            let third = state.current();
            match third.start() {
                AsyncNode::Invert(invert) => {
                    invert.child_mut().start();
                }
                _ => panic!("the third child is an inverter"),
            }
        }
        _ => panic!("the root is a sequence"),
    }
}

#[test]
fn reset_reaches_the_started_leaves_in_order() {
    let mut sequence = AsyncChild::from_behavior(fetch_then_store());
    abandon_in_third_child(&mut sequence);
    assert_eq!(
        shown(&sequence),
        vec![
            ("Sequence", Some(Status::Running)),
            ("Fetch", Some(Status::Success)),
            ("Wait", Some(Status::Success)),
            ("Invert", Some(Status::Running)),
            ("Store", Some(Status::Running)),
            ("Check", None),
        ]
    );
    let mut runner = Recorder::default();
    sequence.reset(&mut runner);
    // the wait asks nothing of the runner, the last child was never started
    assert_eq!(runner.resets, vec![Job::Fetch, Job::Store]);
    assert!(shown(&sequence).iter().all(|(_, status)| status.is_none()));
}

#[test]
fn second_reset_changes_nothing_in_the_tree() {
    let mut sequence = AsyncChild::from_behavior(fetch_then_store());
    let fresh = format!("{:?}", sequence.state());
    abandon_in_third_child(&mut sequence);
    let mut runner = Recorder::default();
    sequence.reset(&mut runner);
    assert_eq!(format!("{:?}", sequence.state()), fresh);
    sequence.reset(&mut runner);
    assert_eq!(format!("{:?}", sequence.state()), fresh);
    // it can be run again as at first
    abandon_in_third_child(&mut sequence);
    assert_eq!(sequence.status(), Some(Status::Running));
}

#[test]
fn cancel_resets_a_running_node_only() {
    let mut runner = Recorder::default();

    let mut idle = AsyncChild::from_behavior(Behavior::Action(Job::Fetch));
    idle.cancel(&mut runner);
    assert_eq!(idle.status(), None);

    let mut done = AsyncChild::from_behavior(Behavior::Action(Job::Store));
    done.start();
    done.finish(false);
    done.cancel(&mut runner);
    assert_eq!(done.status(), Some(Status::Failure));
    assert!(runner.resets.is_empty());

    let mut running = AsyncChild::from_behavior(Behavior::Action(Job::Check));
    running.start();
    running.cancel(&mut runner);
    assert_eq!(running.status(), None);
    assert_eq!(runner.resets, vec![Job::Check]);
}

#[test]
fn settling_cancels_the_guards_in_order_and_then_the_child() {
    let mut guarded = AsyncChild::from_behavior(Behavior::WhileAll(
        vec![
            Behavior::Action(Job::Check),
            Behavior::Action(Job::Watch),
            Behavior::Action(Job::Fetch),
        ],
        Box::new(Behavior::Action(Job::Store)),
    ));
    let mut runner = Recorder::default();
    let outcome = match guarded.start() {
        AsyncNode::WhileAll(state) => {
            {
                let (guards, child) = state.branches();
                // the first guard is running, the second has failed, the
                // third was never started, the child is running
                guards[0].start();
                guards[1].start();
                guards[1].finish(false);
                child.start();
            }
            state.settle(&mut runner)
        }
        _ => panic!("the root is a guarded loop"),
    };
    assert!(!outcome);
    guarded.finish(outcome);
    assert_eq!(runner.resets, vec![Job::Check, Job::Store]);
    assert_eq!(
        shown(&guarded),
        vec![
            ("WhileAll", Some(Status::Failure)),
            ("Check", None),
            ("Watch", Some(Status::Failure)),
            ("Fetch", None),
            ("Store", None),
        ]
    );

    // a reset reaches every guard and the child
    runner.resets.clear();
    guarded.reset(&mut runner);
    assert_eq!(
        runner.resets,
        vec![Job::Check, Job::Watch, Job::Fetch, Job::Store]
    );
    assert!(shown(&guarded).iter().all(|(_, status)| status.is_none()));
}

#[test]
fn abandoned_tree_shows_nothing_after_its_reset() {
    let (mut tree, state) = AsyncBehaviorTree::new(fetch_then_store(), true);
    let fresh = format!("{state:?}");
    abandon_in_third_child(tree.root());
    let mut runner = Recorder::default();
    tree.reset(&mut runner);
    assert_eq!(runner.resets, vec![Job::Fetch, Job::Store]);
    assert_eq!(format!("{:?}", tree.state()), fresh);
    let mut all = Vec::new();
    statuses(&tree.state(), &mut all);
    assert_eq!(all.len(), 6);
    assert!(all.iter().all(|(_, status)| status.is_none()));
}
