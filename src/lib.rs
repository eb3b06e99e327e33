//! A webhook-driven version bumper: authenticates push events from the
//! hosting platform, keeps the app's installation tokens, and bumps the MINOR
//! number of a tracked file's version through a tree, commit and ref update.
//!
//! Every decision is verified. The parts that talk to the network, the file
//! system or the clock are driven from outside through the state machines in
//! `token_lifecycle` and `worker`.
pub mod app_apis;
pub mod app_config;
pub mod app_errors;
pub mod callback_validator;
pub mod installation_token_data;
pub mod text;
pub mod token_lifecycle;
pub mod version_bump;
pub mod webhook_data;
pub mod worker;
