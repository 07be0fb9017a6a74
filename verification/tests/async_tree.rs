// Trees run cooperatively. The host of these tests is a small executor that
// publishes the elapsed time and then polls every task once per tick. Time is
// counted in microseconds: DELTA is a sixtieth of a second.

use std::collections::VecDeque;
use std::future::Future;
use std::pin::Pin;
use std::rc::Rc;
use std::task::{Context, Poll, Waker};

use behaviortree::async_nodes::composite::AsyncStep;
use behaviortree::async_nodes::wait_node::AsyncWaitState;
use behaviortree::async_nodes::while_all_node::{AsyncWhileAll, BranchStep};
use behaviortree::behavior_nodes::wait_node::WaitState;
use behaviortree::{
    yield_now, AsyncActionName, AsyncActionRunner, AsyncBehaviorTree, AsyncChild, AsyncNode,
    Behavior, DriverStep, State, Status, Yield, YieldPoll,
};
use tokio::sync::watch::{channel, Receiver, Sender};
use tokio_util::sync::CancellationToken;

pub const DELTA: u64 = 16_667;

// The executor

type Task = Pin<Box<dyn Future<Output = ()>>>;

struct TickedExecutor {
    tasks: Vec<Task>,
    delta: Sender<u64>,
}

impl Default for TickedExecutor {
    fn default() -> Self {
        let (delta, _) = channel(0);
        Self {
            tasks: Vec::new(),
            delta,
        }
    }
}

impl TickedExecutor {
    fn tick_channel(&self) -> Receiver<u64> {
        self.delta.subscribe()
    }

    fn spawn_local(&mut self, _name: &str, future: impl Future<Output = ()> + 'static) {
        self.tasks.push(Box::pin(future));
    }

    fn num_tasks(&self) -> usize {
        self.tasks.len()
    }

    fn tick(&mut self, delta: u64) {
        self.delta.send_replace(delta);
        let mut context = Context::from_waker(Waker::noop());
        let mut pending = Vec::new();
        for mut task in std::mem::take(&mut self.tasks) {
            if task.as_mut().poll(&mut context).is_pending() {
                pending.push(task);
            }
        }
        self.tasks = pending;
    }

    fn wait_till_completed(&mut self, delta: u64) {
        while self.num_tasks() != 0 {
            self.tick(delta);
        }
    }
}

// The host: it awaits where the engine decides.

struct YieldFuture(Yield);

fn yield_to_executor() -> YieldFuture {
    YieldFuture(yield_now())
}

impl Future for YieldFuture {
    type Output = ();

    fn poll(mut self: Pin<&mut Self>, cx: &mut Context<'_>) -> Poll<()> {
        match self.0.poll() {
            YieldPoll::Ready => Poll::Ready(()),
            YieldPoll::Pending => {
                cx.waker().wake_by_ref();
                Poll::Pending
            }
        }
    }
}

type Run<'a> = Pin<Box<dyn Future<Output = bool> + 'a>>;

trait Runner<A>: AsyncActionRunner<A> {
    fn run<'a>(&'a mut self, delta: Receiver<u64>, action: &'a A) -> Run<'a>;

    fn wait<'a>(&'a mut self, mut delta: Receiver<u64>, target: u64) -> Run<'a> {
        Box::pin(async move {
            let mut wait = WaitState::new(target);
            loop {
                let answer = match delta.changed().await {
                    Ok(()) => Some(*delta.borrow_and_update()),
                    Err(_) => None,
                };
                match AsyncWaitState::progress(&mut wait, answer) {
                    AsyncStep::Done(outcome) => break outcome,
                    AsyncStep::Yield => yield_to_executor().await,
                }
            }
        })
    }
}

fn run_child<'a, A, R>(child: &'a mut AsyncChild<A>, delta: Receiver<u64>, runner: &'a mut R) -> Run<'a>
where
    A: AsyncActionName + 'static,
    R: Runner<A>,
{
    Box::pin(async move {
        assert!(!matches!(
            child.status(),
            Some(Status::Success) | Some(Status::Failure)
        ));
        let node = child.start();
        let success = run_node(node, delta, runner).await;
        child.finish(success)
    })
}

async fn run_node<A, R>(node: &mut AsyncNode<A>, delta: Receiver<u64>, runner: &mut R) -> bool
where
    A: AsyncActionName + 'static,
    R: Runner<A>,
{
    match node {
        AsyncNode::Action(action) => runner.run(delta, action.action()).await,
        AsyncNode::Wait(wait) => runner.wait(delta, wait.target()).await,
        AsyncNode::Invert(invert) => {
            assert!(!invert.is_completed());
            let success = run_child(invert.child_mut(), delta, runner).await;
            invert.child_done(success)
        }
        AsyncNode::Sequence(sequence) => {
            assert!(!sequence.is_completed() && sequence.has_current());
            loop {
                let success = run_child(sequence.current(), delta.clone(), runner).await;
                match sequence.child_done(success) {
                    AsyncStep::Yield => yield_to_executor().await,
                    AsyncStep::Done(outcome) => break outcome,
                }
            }
        }
        AsyncNode::Select(select) => {
            assert!(!select.is_completed() && select.has_current());
            loop {
                let success = run_child(select.current(), delta.clone(), runner).await;
                match select.child_done(success) {
                    AsyncStep::Yield => yield_to_executor().await,
                    AsyncStep::Done(outcome) => break outcome,
                }
            }
        }
        AsyncNode::Loop(repeat) => loop {
            let _outcome = run_child(repeat.child_mut(), delta.clone(), runner).await;
            yield_to_executor().await;
            repeat.child_mut().reset(runner);
        },
        AsyncNode::WhileAll(guarded) => {
            let failure_token = CancellationToken::new();
            let runner = Rc::new(tokio::sync::Mutex::new(runner));
            {
                let (conditions, child) = guarded.branches();
                let mut branches: Vec<Pin<Box<dyn Future<Output = ()> + '_>>> = conditions
                    .iter_mut()
                    .map(|condition| {
                        run_branch(
                            condition,
                            delta.clone(),
                            runner.clone(),
                            failure_token.clone(),
                            AsyncWhileAll::<A>::guard_done,
                        )
                    })
                    .collect();
                branches.push(run_branch(
                    child,
                    delta,
                    runner.clone(),
                    failure_token,
                    AsyncWhileAll::<A>::payload_done,
                ));
                futures::future::join_all(branches).await;
            }
            let mut runner_lock = runner.lock().await;
            guarded.settle(&mut **runner_lock)
        }
    }
}

fn run_branch<'c, 'r: 'c, A, R>(
    child: &'c mut AsyncChild<A>,
    delta: Receiver<u64>,
    runner: Rc<tokio::sync::Mutex<&'r mut R>>,
    failure_token: CancellationToken,
    done: fn(bool) -> BranchStep,
) -> Pin<Box<dyn Future<Output = ()> + 'c>>
where
    A: AsyncActionName + 'static,
    R: Runner<A>,
{
    Box::pin(async move {
        let branch = async {
            loop {
                let success = {
                    let mut runner_lock = runner.lock().await;
                    run_child(child, delta.clone(), &mut **runner_lock).await
                };
                match done(success) {
                    BranchStep::Fail => break,
                    BranchStep::Restart => {}
                }
                yield_to_executor().await;
                {
                    let mut runner_lock = runner.lock().await;
                    child.reset(&mut **runner_lock);
                }
            }
            failure_token.cancel();
        };
        failure_token.run_until_cancelled(branch).await;
    })
}

struct Controller {
    state: Receiver<String>,
    cancellation: CancellationToken,
}

impl Controller {
    fn cancel_token(&self) -> CancellationToken {
        self.cancellation.clone()
    }

    fn state(&self) -> Receiver<String> {
        self.state.clone()
    }
}

impl Drop for Controller {
    fn drop(&mut self) {
        self.cancellation.cancel();
    }
}

fn show(state: State) -> String {
    format!("{state:?}")
}

fn async_tree<A, R>(
    behavior: Behavior<A>,
    should_loop: bool,
    delta: Receiver<u64>,
    mut runner: R,
) -> (impl Future<Output = ()>, Controller)
where
    A: AsyncActionName + 'static,
    R: Runner<A> + 'static,
{
    let cancellation = CancellationToken::new();
    let cancellation_clone = cancellation.clone();
    assert!(behavior.is_well_formed());
    let (mut tree, state) = AsyncBehaviorTree::new(behavior, should_loop);
    let (published, state) = channel(show(state));
    let future = async move {
        cancellation_clone
            .run_until_cancelled_owned(async {
                loop {
                    let _status = run_child(tree.root(), delta.clone(), &mut runner).await;
                    published.send_replace(show(tree.state()));
                    yield_to_executor().await;
                    match tree.run_done() {
                        DriverStep::Restart => tree.reset(&mut runner),
                        DriverStep::Stop => break,
                    }
                }
            })
            .await;
        tree.reset(&mut runner);
        published.send_replace(show(tree.state()));
    };
    (
        future,
        Controller {
            state,
            cancellation,
        },
    )
}

// The actions of the tests

#[derive(Debug, Clone, Copy)]
pub enum TestAction {
    Success,
    Failure,
    SuccessAfter { times: usize },
}

impl AsyncActionName for TestAction {
    fn name(&self) -> &'static str {
        match self {
            TestAction::Success => "Success",
            TestAction::Failure => "Failure",
            TestAction::SuccessAfter { .. } => "SuccessAfter",
        }
    }
}

#[derive(Debug, Default)]
pub struct TestRunner;

impl AsyncActionRunner<TestAction> for TestRunner {
    fn reset(&mut self, _action: &TestAction) {}
}

impl Runner<TestAction> for TestRunner {
    fn run<'a>(&'a mut self, mut delta: Receiver<u64>, action: &'a TestAction) -> Run<'a> {
        Box::pin(async move {
            match action {
                TestAction::Success => true,
                TestAction::Failure => false,
                TestAction::SuccessAfter { times } => {
                    let mut current_times = *times;
                    loop {
                        let _ignore = delta.changed().await;
                        let _ignore = delta.borrow_and_update();
                        current_times -= 1;
                        if current_times == 0 {
                            break;
                        }
                    }
                    true
                }
            }
        })
    }
}

fn child(behavior: Behavior<TestAction>) -> AsyncChild<TestAction> {
    assert!(behavior.is_well_formed());
    AsyncChild::from_behavior(behavior)
}

fn wait_node(target: u64) -> AsyncChild<TestAction> {
    AsyncChild::new(AsyncNode::Wait(AsyncWaitState::new(target)))
}

// Driver

#[test]
fn test_async_behaviortree() {
    let behavior = Behavior::Sequence(vec![
        Behavior::Action(TestAction::Success),
        Behavior::Action(TestAction::Success),
    ]);

    let mut executor = TickedExecutor::default();
    let runner = TestRunner;

    let (behaviortree_future, controller) =
        async_tree(behavior, false, executor.tick_channel(), runner);

    let mut state = controller.state();
    let cancel = controller.cancel_token();
    executor.spawn_local("AsyncObserver", async move {
        let mut pending_queue = VecDeque::from_iter([state.borrow().clone()]);
        let fut = async {
            loop {
                if state.changed().await.is_err() {
                    break;
                }
                pending_queue.push_back(state.borrow_and_update().clone());
            }
        };
        let _r = cancel.run_until_cancelled(fut).await;
        println!("States: {pending_queue:?}");
    });
    executor.tick(DELTA);

    executor.spawn_local("AsyncBehaviorTreeFuture", behaviortree_future);

    executor.tick(DELTA);
    assert_eq!(executor.num_tasks(), 2);

    executor.tick(DELTA);
    assert_eq!(executor.num_tasks(), 2);

    executor.tick(DELTA);
    assert_eq!(executor.num_tasks(), 1);

    executor.tick(DELTA);
    assert_eq!(executor.num_tasks(), 0);
}

#[test]
fn test_async_behaviortree_shutdown() {
    let behavior = Behavior::Sequence(vec![
        Behavior::Invert(Box::new(Behavior::Action(TestAction::Failure))),
        Behavior::Action(TestAction::Success),
        Behavior::Action(TestAction::Success),
    ]);

    let mut executor = TickedExecutor::default();
    let runner = TestRunner;

    let (behaviortree_future, controller) =
        async_tree(behavior, true, executor.tick_channel(), runner);

    executor.spawn_local("AsyncBehaviorTreeFuture", behaviortree_future);

    let state = controller.state();
    for _ in 0..10 {
        executor.tick(DELTA);
        println!("Observer: {}", *state.borrow());
    }
    assert_eq!(executor.num_tasks(), 1);
    drop(controller);

    while executor.num_tasks() != 0 {
        executor.tick(DELTA);
    }
    assert_eq!(executor.num_tasks(), 0);
    // the tree was reset when it was stopped
    assert!(!state.borrow().contains("Some("));
}

// Child

#[test]
fn async_child_test_basic_behavior() {
    let behavior = Behavior::Sequence(vec![
        Behavior::Action(TestAction::Success),
        Behavior::Wait(10_000),
        Behavior::Action(TestAction::Success),
        Behavior::Invert(Behavior::Action(TestAction::Failure).into()),
        Behavior::Action(TestAction::Success),
    ]);

    let mut child = child(behavior);
    let mut executor = TickedExecutor::default();

    let mut runner = TestRunner;
    let delta = executor.tick_channel();
    executor.spawn_local("WaitFuture", async move {
        let success = run_child(&mut child, delta, &mut runner).await;
        assert!(success);
        assert_eq!(child.status(), Some(Status::Success));
    });

    executor.wait_till_completed(DELTA);
    assert_eq!(executor.num_tasks(), 0);
}

// Invert

#[test]
fn async_invert_node_test_invert_success() {
    let behavior = Behavior::Invert(Behavior::Action(TestAction::Success).into());
    let mut invert = child(behavior);

    let mut executor = TickedExecutor::default();

    let delta = executor.tick_channel();
    let mut runner = TestRunner;

    executor.spawn_local("InvertFuture", async move {
        let status = run_child(&mut invert, delta, &mut runner).await;
        assert!(!status);
    });

    assert_eq!(executor.num_tasks(), 1);
    executor.tick(DELTA);
    assert_eq!(executor.num_tasks(), 0);
}

#[test]
fn async_invert_node_test_invert_failure() {
    let behavior = Behavior::Invert(Behavior::Action(TestAction::Failure).into());
    let mut invert = child(behavior);

    let mut executor = TickedExecutor::default();

    let delta = executor.tick_channel();
    let mut runner = TestRunner;

    executor.spawn_local("InvertFuture", async move {
        let status = run_child(&mut invert, delta, &mut runner).await;
        assert!(status);
    });

    assert_eq!(executor.num_tasks(), 1);
    executor.tick(DELTA);
    assert_eq!(executor.num_tasks(), 0);
}

#[test]
fn test_invert_running_with_reset() {
    let mut runner = TestRunner;

    let behavior = Behavior::Invert(Behavior::Action(TestAction::SuccessAfter { times: 2 }).into());
    let mut invert = child(behavior);

    let mut executor = TickedExecutor::default();

    let delta = executor.tick_channel();
    executor.spawn_local("InvertFuture", async move {
        let status = run_child(&mut invert, delta.clone(), &mut runner).await;
        assert!(!status);
        invert.reset(&mut runner);
        let status = run_child(&mut invert, delta, &mut runner).await;
        assert!(!status);
    });

    assert_eq!(executor.num_tasks(), 1);
    executor.tick(DELTA);
    executor.tick(DELTA);
    executor.tick(DELTA);

    // Reset here

    executor.tick(DELTA);
    executor.tick(DELTA);
    executor.tick(DELTA);
    assert_eq!(executor.num_tasks(), 0);
}

// Loop

#[test]
fn async_loop_node_test_loop_all_success() {
    let behavior = Behavior::Sequence(vec![
        Behavior::Action(TestAction::Success),
        Behavior::Action(TestAction::Success),
        Behavior::Action(TestAction::Success),
    ]);
    let behavior = Behavior::Loop(behavior.into());
    assert!(behavior.is_well_formed());
    let (mut async_loop, _state) = AsyncChild::from_behavior_with_state(behavior);

    let mut executor = TickedExecutor::default();
    let delta_rx = executor.tick_channel();
    executor.spawn_local("_", async move {
        run_child(&mut async_loop, delta_rx, &mut TestRunner).await;
    });

    for _ in 0..6 {
        executor.tick(100);
        assert_eq!(executor.num_tasks(), 1);
    }
}

#[test]
fn async_loop_node_test_loop_with_failure() {
    let behavior = Behavior::Sequence(vec![
        Behavior::Action(TestAction::Success),
        Behavior::Action(TestAction::Failure),
        Behavior::Action(TestAction::Success),
    ]);
    let behavior = Behavior::Loop(behavior.into());
    assert!(behavior.is_well_formed());
    let (mut async_loop, _state) = AsyncChild::from_behavior_with_state(behavior);

    let mut executor = TickedExecutor::default();
    let delta_rx = executor.tick_channel();

    let cancel = CancellationToken::new();
    let cancel_clone = cancel.clone();
    executor.spawn_local("_", async move {
        cancel_clone
            .run_until_cancelled_owned(async {
                run_child(&mut async_loop, delta_rx, &mut TestRunner).await;
            })
            .await;
    });

    for _ in 0..6 {
        executor.tick(100);
        assert_eq!(executor.num_tasks(), 1);
    }
    cancel.cancel();

    executor.tick(100);
    assert_eq!(executor.num_tasks(), 0);
}

// Select

#[test]
fn async_select_node_test_select_success() {
    let behavior = Behavior::Select(vec![Behavior::Action(TestAction::Success)]);
    let mut select = child(behavior);

    let mut executor = TickedExecutor::default();

    let delta = executor.tick_channel();
    let mut runner = TestRunner;

    executor.spawn_local("SelectFuture", async move {
        let status = run_child(&mut select, delta, &mut runner).await;
        assert!(status);
    });

    assert_eq!(executor.num_tasks(), 1);
    executor.tick(DELTA);
    assert_eq!(executor.num_tasks(), 0);
}

#[test]
fn async_select_node_test_select_failure() {
    let behavior = Behavior::Select(vec![Behavior::Action(TestAction::Failure)]);
    let mut select = child(behavior);

    let mut executor = TickedExecutor::default();

    let delta = executor.tick_channel();
    let mut runner = TestRunner;

    executor.spawn_local("SelectFuture", async move {
        let status = run_child(&mut select, delta, &mut runner).await;
        assert!(!status);
    });

    assert_eq!(executor.num_tasks(), 1);
    executor.tick(DELTA);
    assert_eq!(executor.num_tasks(), 0);
}

#[test]
fn test_select_running() {
    let behavior = Behavior::Select(vec![Behavior::Action(TestAction::SuccessAfter {
        times: 1,
    })]);
    let mut select = child(behavior);

    let mut executor = TickedExecutor::default();

    let delta = executor.tick_channel();
    let mut runner = TestRunner;

    executor.spawn_local("SelectFuture", async move {
        let status = run_child(&mut select, delta, &mut runner).await;
        assert!(status);
    });

    assert_eq!(executor.num_tasks(), 1);
    executor.tick(DELTA);
    executor.tick(DELTA);
    assert_eq!(executor.num_tasks(), 0);
}

#[test]
fn async_select_node_test_select_multiple_children() {
    let behavior = Behavior::Select(vec![
        Behavior::Action(TestAction::Failure),
        Behavior::Action(TestAction::Failure),
    ]);
    let mut select = child(behavior);

    let mut executor = TickedExecutor::default();

    let delta = executor.tick_channel();
    let mut runner = TestRunner;

    executor.spawn_local("SelectFuture", async move {
        let status = run_child(&mut select, delta, &mut runner).await;
        assert!(!status);
    });

    assert_eq!(executor.num_tasks(), 1);
    executor.tick(DELTA);
    assert_eq!(executor.num_tasks(), 1);
    executor.tick(DELTA);
    assert_eq!(executor.num_tasks(), 0);
}

#[test]
fn test_select_multiple_children_early_failure() {
    let behavior = Behavior::Select(vec![
        Behavior::Action(TestAction::Failure),
        Behavior::Action(TestAction::Success),
        Behavior::Action(TestAction::Success),
    ]);
    let mut select = child(behavior);

    let mut executor = TickedExecutor::default();

    let delta = executor.tick_channel();
    let mut runner = TestRunner;

    executor.spawn_local("SelectFuture", async move {
        let status = run_child(&mut select, delta.clone(), &mut runner).await;
        assert!(status);
        select.reset(&mut runner);
        let status = run_child(&mut select, delta, &mut runner).await;
        assert!(status);
    });

    assert_eq!(executor.num_tasks(), 1);
    executor.tick(DELTA);
    executor.tick(DELTA);
    // reset

    executor.tick(DELTA);
    executor.tick(DELTA);
    assert_eq!(executor.num_tasks(), 0);
}

// Sequence

#[test]
fn async_sequence_node_test_sequence_success() {
    let behavior = Behavior::Sequence(vec![Behavior::Action(TestAction::Success)]);
    let mut sequence = child(behavior);

    let mut executor = TickedExecutor::default();

    let delta = executor.tick_channel();
    let mut runner = TestRunner;

    executor.spawn_local("SequenceFuture", async move {
        let status = run_child(&mut sequence, delta, &mut runner).await;
        assert!(status);
    });

    assert_eq!(executor.num_tasks(), 1);
    executor.tick(DELTA);
    assert_eq!(executor.num_tasks(), 0);
}

#[test]
fn async_sequence_node_test_sequence_failure() {
    let behavior = Behavior::Sequence(vec![Behavior::Action(TestAction::Failure)]);
    let mut sequence = child(behavior);

    let mut executor = TickedExecutor::default();

    let delta = executor.tick_channel();
    let mut runner = TestRunner;

    executor.spawn_local("SequenceFuture", async move {
        let status = run_child(&mut sequence, delta, &mut runner).await;
        assert!(!status);
    });

    assert_eq!(executor.num_tasks(), 1);
    executor.tick(DELTA);
    assert_eq!(executor.num_tasks(), 0);
}

#[test]
fn test_sequence_running() {
    let behavior = Behavior::Sequence(vec![Behavior::Action(TestAction::SuccessAfter {
        times: 1,
    })]);
    let mut sequence = child(behavior);

    let mut executor = TickedExecutor::default();

    let delta = executor.tick_channel();
    let mut runner = TestRunner;

    executor.spawn_local("SequenceFuture", async move {
        let status = run_child(&mut sequence, delta, &mut runner).await;
        assert!(status);
    });

    assert_eq!(executor.num_tasks(), 1);
    executor.tick(DELTA);
    executor.tick(DELTA);
    assert_eq!(executor.num_tasks(), 0);
}

#[test]
fn async_sequence_node_test_sequence_multiple_children() {
    let behavior = Behavior::Sequence(vec![
        Behavior::Action(TestAction::Success),
        Behavior::Action(TestAction::Success),
    ]);
    let mut sequence = child(behavior);

    let mut executor = TickedExecutor::default();

    let delta = executor.tick_channel();
    let mut runner = TestRunner;

    executor.spawn_local("SequenceFuture", async move {
        let status = run_child(&mut sequence, delta, &mut runner).await;
        assert!(status);
    });

    assert_eq!(executor.num_tasks(), 1);
    executor.tick(DELTA);
    assert_eq!(executor.num_tasks(), 1);
    executor.tick(DELTA);
    assert_eq!(executor.num_tasks(), 0);
}

#[test]
fn async_sequence_node_test_sequence_multiple_children_early_failure() {
    let behavior = Behavior::Sequence(vec![
        Behavior::Action(TestAction::Success),
        Behavior::Action(TestAction::Failure),
        Behavior::Action(TestAction::Success),
    ]);
    let mut sequence = child(behavior);

    let mut executor = TickedExecutor::default();

    let delta = executor.tick_channel();
    let mut runner = TestRunner;

    executor.spawn_local("SequenceFuture", async move {
        let status = run_child(&mut sequence, delta.clone(), &mut runner).await;
        assert!(!status);
        sequence.reset(&mut runner);
        let status = run_child(&mut sequence, delta, &mut runner).await;
        assert!(!status);
    });

    assert_eq!(executor.num_tasks(), 1);
    executor.tick(DELTA);
    executor.tick(DELTA);
    // reset

    executor.tick(DELTA);
    executor.tick(DELTA);
    assert_eq!(executor.num_tasks(), 0);
}

// Wait

#[test]
fn test_wait_success() {
    let mut executor = TickedExecutor::default();

    let mut wait = wait_node(0);

    let delta = executor.tick_channel();
    let mut runner = TestRunner;

    executor.spawn_local("WaitFuture", async move {
        run_child(&mut wait, delta, &mut runner).await;
    });

    assert_eq!(executor.num_tasks(), 1);
    executor.tick(DELTA);
    assert_eq!(executor.num_tasks(), 0);
}

#[test]
fn test_wait_success_with_time() {
    let mut executor = TickedExecutor::default();

    // one millisecond, in two ticks of half a millisecond
    let mut wait = wait_node(1000);

    let delta = executor.tick_channel();
    let mut runner = TestRunner;

    executor.spawn_local("WaitFuture", async move {
        run_child(&mut wait, delta, &mut runner).await;
    });

    assert_eq!(executor.num_tasks(), 1);

    executor.tick(500);
    assert_eq!(executor.num_tasks(), 1);

    executor.tick(500);
    assert_eq!(executor.num_tasks(), 0);
}

#[test]
fn test_wait_running() {
    let mut executor = TickedExecutor::default();

    let mut wait = wait_node(49_000);

    let delta = executor.tick_channel();
    let mut runner = TestRunner;

    executor.spawn_local("WaitFuture", async move {
        run_child(&mut wait, delta.clone(), &mut runner).await;
        wait.reset(&mut runner);
        run_child(&mut wait, delta, &mut runner).await;
    });

    executor.tick(DELTA);
    executor.tick(DELTA);
    executor.tick(DELTA);

    // reset

    executor.tick(DELTA);
    executor.tick(DELTA);
    executor.tick(DELTA);
    assert_eq!(executor.num_tasks(), 0);
}

#[test]
fn test_executor_drop() {
    let mut executor = TickedExecutor::default();

    let mut wait = wait_node(50_000);

    let delta = executor.tick_channel();
    let mut runner = TestRunner;

    executor.spawn_local("WaitFuture", async move {
        run_child(&mut wait, delta, &mut runner).await;
    });

    executor.tick(DELTA);
    drop(executor);
}

#[test]
fn wait_stops_when_the_delta_source_closes() {
    let (delta_tx, delta) = channel(0u64);
    let mut wait = wait_node(50_000);
    let mut task: Task = Box::pin(async move {
        let success = run_child(&mut wait, delta, &mut TestRunner).await;
        assert!(success);
        assert_eq!(wait.status(), Some(Status::Success));
    });
    let mut context = Context::from_waker(Waker::noop());
    delta_tx.send_replace(DELTA);
    assert!(task.as_mut().poll(&mut context).is_pending());
    drop(delta_tx);
    assert!(task.as_mut().poll(&mut context).is_ready());
}

// WhileAll

#[test]
fn while_all_node_test_sequence_success() {
    let behavior = Behavior::WhileAll(
        vec![
            Behavior::Action(TestAction::Success),
            Behavior::Action(TestAction::Failure),
        ],
        Behavior::Sequence(vec![
            Behavior::Action(TestAction::Success),
            Behavior::Action(TestAction::Success),
        ])
        .into(),
    );
    let mut child = child(behavior);

    let mut executor = TickedExecutor::default();

    let delta = executor.tick_channel();
    let mut runner = TestRunner;

    executor.spawn_local("", async move {
        let status = run_child(&mut child, delta, &mut runner).await;
        assert!(!status);
        // the guard that failed shows its failure; every branch that was
        // stopped in the middle of a run has been reset
        assert_eq!(
            show(child.state()),
            "MultipleChildren(\"WhileAll\", Some(Failure), [NoChild(\"Success\", \
             Some(Success)), NoChild(\"Failure\", Some(Failure)), \
             MultipleChildren(\"Sequence\", None, [NoChild(\"Success\", None), \
             NoChild(\"Success\", None)])])"
        );
    });

    assert_eq!(executor.num_tasks(), 1);

    executor.tick(DELTA);
    assert_eq!(executor.num_tasks(), 1);

    executor.tick(DELTA);
    assert_eq!(executor.num_tasks(), 0);
}

// Yield

#[test]
fn test_yield_now() {
    let mut executor = TickedExecutor::default();

    executor.spawn_local("", async {
        yield_to_executor().await;
    });

    assert_eq!(executor.num_tasks(), 1);

    executor.tick(100);
    assert_eq!(executor.num_tasks(), 1);

    executor.tick(100);
    assert_eq!(executor.num_tasks(), 0);
}

// What the engine keeps of a cooperatively run tree

#[test]
fn built_tree_shows_names_and_no_status() {
    let behavior = Behavior::WhileAll(
        vec![Behavior::Action(TestAction::Success)],
        Box::new(Behavior::Select(vec![
            Behavior::Wait(5),
            Behavior::Invert(Box::new(Behavior::Action(TestAction::Failure))),
        ])),
    );
    assert!(behavior.is_well_formed());
    let (_child, state) = AsyncChild::from_behavior_with_state(behavior);
    assert_eq!(
        show(state),
        "MultipleChildren(\"WhileAll\", None, [NoChild(\"Success\", None), \
         MultipleChildren(\"Select\", None, [NoChild(\"Wait\", None), \
         SingleChild(\"Invert\", None, NoChild(\"Failure\", None))])])"
    );
}

/// A runner that keeps the names of the actions it is asked to reset.
struct Counting {
    resets: Vec<&'static str>,
}

/// An action with a name and a fixed outcome.
#[derive(Debug)]
struct Named(&'static str, bool);

impl AsyncActionName for Named {
    fn name(&self) -> &'static str {
        self.0
    }
}

impl AsyncActionRunner<Named> for Counting {
    fn reset(&mut self, action: &Named) {
        self.resets.push(action.0);
    }
}

impl Runner<Named> for Counting {
    fn run<'a>(&'a mut self, _delta: Receiver<u64>, action: &'a Named) -> Run<'a> {
        Box::pin(async move { action.1 })
    }
}

#[test]
fn reset_reaches_started_children_only() {
    let behavior = Behavior::Sequence(vec![
        Behavior::Action(Named("one", true)),
        Behavior::Action(Named("two", false)),
        Behavior::Action(Named("three", true)),
    ]);
    assert!(behavior.is_well_formed());
    let mut sequence = AsyncChild::from_behavior(behavior);
    let mut runner = Counting { resets: Vec::new() };
    let (_delta_tx, delta) = channel(0u64);

    let mut context = Context::from_waker(Waker::noop());
    {
        let mut run = run_child(&mut sequence, delta, &mut runner);
        assert!(run.as_mut().poll(&mut context).is_pending());
        assert_eq!(run.as_mut().poll(&mut context), Poll::Ready(false));
    }
    assert_eq!(
        show(sequence.state()),
        "MultipleChildren(\"Sequence\", Some(Failure), [NoChild(\"one\", Some(Success)), \
         NoChild(\"two\", Some(Failure)), NoChild(\"three\", None)])"
    );
    sequence.reset(&mut runner);
    assert_eq!(runner.resets, vec!["one", "two"]);
    assert_eq!(
        show(sequence.state()),
        "MultipleChildren(\"Sequence\", None, [NoChild(\"one\", None), \
         NoChild(\"two\", None), NoChild(\"three\", None)])"
    );
}

// The channel through which the executor publishes the elapsed time

#[test]
fn test_watch_channel() {
    let (tx, mut rx) = channel(());
    let changed = rx.has_changed().unwrap();
    assert!(!changed);

    let _r = tx.send_replace(());
    let changed = rx.has_changed().unwrap();
    assert!(changed);
    rx.mark_unchanged();

    let changed = rx.has_changed().unwrap();
    assert!(!changed);
}

// One run of a sequence whose first child is an inverter

#[test]
fn inverted_failure_then_success_in_one_run() {
    let behavior = Behavior::Sequence(vec![
        Behavior::Invert(Box::new(Behavior::Action(TestAction::Failure))),
        Behavior::Action(TestAction::Success),
    ]);
    let mut sequence = child(behavior);

    let mut executor = TickedExecutor::default();
    let delta = executor.tick_channel();
    let mut runner = TestRunner;

    executor.spawn_local("SequenceFuture", async move {
        let status = run_child(&mut sequence, delta, &mut runner).await;
        assert!(status);
        assert_eq!(
            show(sequence.state()),
            "MultipleChildren(\"Sequence\", Some(Success), [SingleChild(\"Invert\", \
             Some(Success), NoChild(\"Failure\", Some(Failure))), \
             NoChild(\"Success\", Some(Success))])"
        );
    });

    // the inverter and its child take one place and one tick
    executor.tick(DELTA);
    assert_eq!(executor.num_tasks(), 1);
    executor.tick(DELTA);
    assert_eq!(executor.num_tasks(), 0);
}
