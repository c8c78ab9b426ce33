//! Verified core of the agent sandbox control plane.

pub mod text;
pub mod error;
pub mod docker;
pub mod models;
pub mod db;
pub mod auth;
pub mod containers;
pub mod config;
pub mod setup;
pub mod skills;
pub mod archive;
