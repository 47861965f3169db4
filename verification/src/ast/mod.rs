pub mod ast;
pub mod ast_nodes;
pub mod expressions;
pub mod node;
pub mod statements;
pub mod structures;
