pub mod uninitialized_local_variables;
pub mod uninitialized_state_variable;
