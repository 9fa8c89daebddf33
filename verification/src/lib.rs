//! Decision logic of a userspace thermal daemon.
//!
//! The crate holds everything the daemon computes: configuration parsing,
//! threshold evaluation, action planning, feature extraction, Q-learning and
//! the safety rules around it. Reading and writing device nodes is left to the
//! caller, which hands plain readings in and carries the returned writes out.

pub mod action;
pub mod ai;
pub mod algorithm;
pub mod arith;
pub mod config;
pub mod decrypt;
pub mod engine;
pub mod resolve;
pub mod sensor;
pub mod text;
pub mod thermal_profile;
pub mod types;
pub mod web;
