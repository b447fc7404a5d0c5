//! Verified core of the pidgeon Modbus gateway: register encoding, register
//! parsing and serialization, request batching, the registry of devices and
//! servers, the configuration with its defaults, and the decisions that the
//! gateway's request tasks and recurring processes take.

pub mod batch;
pub mod cloud;
pub mod config;
pub mod connection;
pub mod db;
pub mod decimal;
pub mod discovery;
pub mod encoding;
pub mod measure;
pub mod merge;
pub mod push;
pub mod record;
pub mod register;
pub mod registry;
pub mod span;
pub mod status;
pub mod task;
pub mod text;
pub mod time;
pub mod worker;
