//! Mathematical expression lexer, parser and evaluation context.
pub mod types;
pub mod lexer;
pub mod error;
pub mod engine;
pub mod maps;
pub mod context;
pub mod validation;
pub mod eval;
pub mod stack_ops;
pub mod arena_pool;
pub mod batch_eval;
pub mod batch;
pub mod c_api;
pub mod laws;
