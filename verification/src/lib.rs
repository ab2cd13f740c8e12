//! A deployment serialization queue: who may deploy to a cell, and when.

pub mod analytics;
pub mod blocking;
pub mod cli;
pub mod clock;
pub mod constants;
pub mod coordinator;
pub mod dispatch;
pub mod duration;
pub mod handler;
pub mod heartbeat;
pub mod model;
pub mod mutexbot;
pub mod order;
pub mod store;
pub mod text;
pub mod util;
