//! Connection-level TCP observation: the records shared between the kernel
//! probes and userspace, the bounded connection table the probes maintain,
//! the probe state machine itself, and the userspace collection, aggregation
//! and export logic.

pub mod layout;
pub mod http_method;
pub mod table;
pub mod probe;
pub mod laws;
pub mod aggregate;
pub mod text;
pub mod metrics;
pub mod config;
