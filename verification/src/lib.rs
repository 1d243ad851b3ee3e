//! A symbolic-expression engine for genetic programming: arithmetic
//! expression trees over two inputs, with random generation, mutation,
//! crossover and canonical rendering, each with a verified contract.
pub mod constant;
pub mod evolve;
pub mod funcs;
pub mod laws;
pub mod node;
pub mod render;
mod rng;

pub use evolve::{breed, mutate, random_tree};
pub use funcs::{BiVarFunc, Input, InputV, UniVarFunc};
pub use node::{Node, NodeV, Tree};
