//! Supervision of a sidecar server process and discovery of the network
//! port it binds at runtime.
//!
//! The library holds the logic of the startup handshake: parsing the
//! child's readiness announcement out of its standard-output lines,
//! publishing the discovered port exactly once through a write-once cell,
//! stepping the supervision state machine over the child's event stream,
//! and issuing a one-time navigation directive to the UI layer.  The
//! process spawning, the event channel and the UI itself are I/O and live
//! outside this crate; they hand events in and carry directives out as
//! plain values.

pub mod cell;
pub mod notifier;
pub mod parser;
pub mod supervisor;
