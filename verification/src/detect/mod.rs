pub mod detector;
pub mod experimental;
pub mod high;
pub mod low;
pub mod medium;
pub mod nc;
