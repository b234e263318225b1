//! The verified core of a distributed load-test orchestrator: run keys and
//! the data layout, supervised tasks and their table, the garbage-collector
//! sweep and its single-loop guard, the decisions of the resilient store
//! connection, the subscription registry, and project locks.
pub mod collector;
pub mod commands;
pub mod connection;
pub mod guard;
pub mod information;
pub mod keys;
pub mod models;
pub mod node;
pub mod outcomes;
pub mod paths;
pub mod registry;
pub mod task;
