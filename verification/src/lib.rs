//! Nous: a small tool that keeps a project description (a `.nous` file)
//! listing the resources a project is made of, and knows how to fetch them.
//!
//! The library holds the decisions; reading the disk, the network and the
//! JSON encoding are left to the caller.

pub mod path;
pub mod address;
pub mod digest;
pub mod resource;
pub mod project;
pub mod repo;
pub mod add;
