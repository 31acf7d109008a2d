//! Mutant generation for Solidity programs.
pub mod text;
pub mod mutation;
pub mod literal;
pub mod solidity;
pub mod operators;
pub mod mutator;
pub mod filter;
pub mod paths;
pub mod util;
pub mod cli;
pub mod compile;
pub mod source;
pub mod config;
pub mod params;
pub mod summary;
pub mod mutant_writer;
pub mod pipeline;
pub mod test_util;
