pub mod different_storage_conditionals;
pub mod solmate_safe_transfer_lib;
