//! Deployment planning for containerised services: turning app, service and
//! database configuration into deployable units, resolving environment
//! templates, picking the newest built image and summarising a plan.
pub mod text;
pub mod strmap;
pub mod config;
pub mod envvalue;
pub mod deployable;
pub mod docker;
pub mod error;
pub mod builds;
pub mod plan;
pub mod laws;
