//! The race engine: from passings and operator intents to race events.

pub mod race_event;
pub mod model;
pub mod processor;
pub mod order;
pub mod state;
pub mod laws;
