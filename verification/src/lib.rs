//! Connection settings for a compute node of the proxy, built from a
//! client's startup message, and the plan by which the proxy connects.
pub mod compute;
pub mod startup;
pub mod text;
pub mod option_laws;
pub mod config_laws;
