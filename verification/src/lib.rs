//! Core of a packaging tool that translates a crate's `Cargo.toml` manifest
//! into an npm `package.json` descriptor and decides, once per invocation,
//! whether the process should run as the ordinary command-line tool or as a
//! self-installer.
//!
//! The pipeline is: read the manifest text, parse it into a [`manifest::CargoManifest`],
//! resolve the author identity from the per-user npm configuration, build an
//! [`npm::NpmPackage`] descriptor, and encode it as compact JSON. The launcher
//! decisions (deprecation notice, installer-versus-CLI mode) live in
//! [`launcher`]. All file reading and writing stays with the caller; every
//! function here works on plain values.

pub mod error;
pub mod json;
pub mod launcher;
pub mod manifest;
pub mod npm;
