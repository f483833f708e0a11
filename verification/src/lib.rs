//! Discovers the boundary of a source-control repository, enumerates the
//! buildable projects inside it, extracts each project's same-organization
//! dependencies from its manifest, and reconciles the result into a service
//! catalog descriptor.
//!
//! The logic works over plain values: directory trees are passed in as a
//! [`fs_model::FsSnapshot`], remote URLs and manifest contents as strings.
//! Reading the filesystem, running the version-control tool and decoding an
//! existing descriptor file are left to the surrounding program.

pub mod backstage;
pub mod catalog_yaml;
pub mod fs_model;
pub mod git;
pub mod gomod;
pub mod languages;
pub mod project;
pub mod strutil;
