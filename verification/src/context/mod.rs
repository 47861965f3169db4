pub mod browser;
pub mod callgraph;
pub mod flow;
pub mod workspace_context;
