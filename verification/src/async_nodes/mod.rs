pub mod action_node;
pub mod composite;
pub mod invert_node;
pub mod loop_node;
pub mod select_node;
pub mod sequence_node;
pub mod wait_node;
pub mod while_all_node;
