//! Connection probing and task running for MaaCore.
pub mod args;
pub mod config;
pub mod connect;
pub mod decimal;
pub mod double;
pub mod json;
pub mod maacore;
pub mod path;
pub mod payload;
pub mod platform;
pub mod probe;
pub mod profile;
pub mod rounding;
pub mod run;
pub mod screenshot;
pub mod text;
pub mod window;
