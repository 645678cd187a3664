//! A small feed-forward neural-network library: a dense row-major matrix
//! container, and a chain of layers whose weights and biases are drawn at
//! random when the chain is built.
pub mod matrix;
pub mod network;
pub mod reader;
