//! Verified core of the TAPD command-line client: parameter maps, ID
//! normalisation, request planning and the checks around configuration,
//! responses and self-update.

pub mod text;
pub mod update;
pub mod cli;
pub mod client;
pub mod config;
pub mod dispatch;
pub mod ids;
pub mod laws;
pub mod params;
