//! Coordination core of a multi-back-end proof-of-work miner: job state shared
//! with solver workers, the worker state machine, the epoch dataset manager of
//! the memory-hard back-end, and the decisions of the controller loop.

pub mod boundary;
pub mod codec;
pub mod config;
pub mod controller;
pub mod cuckoo;
pub mod epoch;
pub mod header;
pub mod miner;
pub mod types;
pub mod worker;
