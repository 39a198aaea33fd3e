//! Validation and routing of multipart image uploads.
//!
//! The crate holds the decisions of an upload service and none of its I/O:
//! reading the declared request length, classifying each multipart item,
//! naming what is stored, and driving one of three storage sinks through a
//! request. A driver performs each [`orchestrator::Action`] and hands back a
//! [`orchestrator::Reply`].

pub mod length;
pub mod naming;
pub mod policy;
pub mod classify;
pub mod outcome;
pub mod protocol;
pub mod sink;
pub mod orchestrator;
pub mod laws;
pub mod endpoints;
pub mod flows;
