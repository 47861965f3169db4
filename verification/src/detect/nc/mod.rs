pub mod non_reentrant_before_others;
pub mod unindexed_events;
pub mod useless_modifier;
pub mod useless_public_function;
