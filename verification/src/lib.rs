//! Contextual scoring of chat messages, verified with Verus.
//!
//! A message is scored by the rules of [`config`]: [`scoring`] says which of them it meets and
//! what they add up to, and [`moderation`] turns the score into a query for the engine.
//! [`settings`] and [`store`] read and write the configuration file, [`prompt`] asks an operator
//! through the engine, and [`setup`] finds the configuration to run with. [`protocol`] holds the
//! messages, [`json`] the documents of `serde_json`, and [`text`] what is done with characters.

pub mod config;
pub mod json;
pub mod moderation;
pub mod prompt;
pub mod protocol;
pub mod scoring;
pub mod settings;
pub mod setup;
pub mod store;
pub mod text;
