//! An embedded graph database core: a step-by-step traversal interpreter
//! over a transactional key-value storage contract.

pub mod bytecode;
pub mod codec;
pub mod collector;
pub mod components;
pub mod error;
pub mod exec;
pub mod laws;
pub mod machine;
pub mod memory;
pub mod repository;
pub mod result;
pub mod roundtrip;
pub mod storage;
pub mod table;
pub mod text;
pub mod value;
pub mod vertex;
