//! Client-side core of a deployment tool for static sites and serverless
//! functions: it compiles discovered assets and command-line middleware flags
//! into a validated routing manifest, serializes the manifest together with
//! function and asset files into a compressed archive, and drives the upload
//! protocol and its binary status channel as a verified state machine.

pub mod archive;
pub mod codec;
pub mod configuration;
pub mod deploy;
pub mod digest;
pub mod discovery;
pub mod display;
pub mod environment;
pub mod json;
pub mod middleware;
pub mod pretty;
pub mod redact;
pub mod runner;
pub mod strutil;
