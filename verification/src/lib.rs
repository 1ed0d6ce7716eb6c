//! Bridges a user's AWS credentials to the Nix daemon, for binary caches on S3.
pub mod calendar;
pub mod check;
pub mod connection;
pub mod credentials;
pub mod exchange;
pub mod expiry;
pub mod fetch;
pub mod guide;
pub mod install;
pub mod paths;
pub mod profile;
pub mod profile_laws;
pub mod refresh;
pub mod serve;
pub mod setup;
pub mod text;
pub mod unit;
