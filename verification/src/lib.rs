//! A behavior tree engine: a declarative tree of control nodes and leaf
//! actions is compiled into nodes that are advanced one tick at a time.
//!
//! `behavior` holds the schema, `child` and `behavior_nodes` the nodes that
//! are built from it, `shared_context` what the leaf actions are handed in
//! a tick or a reset, and `behaviortree` the driver that callers tick. The
//! modules whose names begin with `async` hold the control state and the
//! decisions of the same node kinds for a host that runs a tree
//! cooperatively.

pub mod action_type;
pub mod async_action_interface;
pub mod async_behaviortree;
pub mod async_child;
pub mod async_nodes;
pub mod behavior;
pub mod behavior_interface;
pub mod behavior_nodes;
pub mod behaviortree;
pub mod blackboard;
pub mod child;
pub mod restart;
pub mod shared_context;
pub mod state;
pub mod status;
pub mod util;

pub use action_type::ActionType;
pub use async_action_interface::{AsyncActionName, AsyncActionRunner};
pub use async_behaviortree::{AsyncBehaviorTree, DriverStep};
pub use async_child::{AsyncChild, AsyncNode};
pub use behavior::Behavior;
pub use behavior_interface::{ImmediateAction, SyncAction};
pub use behaviortree::{BehaviorTree, BehaviorTreePolicy};
pub use blackboard::{Blackboard, Input, Output};
pub use child::{Child, Node};
pub use state::State;
pub use status::Status;
pub use util::{yield_now, Yield, YieldPoll};
