pub mod enumerable_loop_removal;
pub mod misused_boolean;
pub mod state_change_after_ext_call;
