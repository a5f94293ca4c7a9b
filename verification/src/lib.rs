//! A supervisor for one long-running external process: it keeps the process
//! running, snapshots its save file on a schedule, and restarts it
//! periodically or on remote command.
//!
//! The library holds the decision logic and the pure computations — the
//! per-tick state machine, backup artifact naming, payload chunking, and
//! remote-command recognition — each with a verified contract. The I/O
//! shell that carries the decisions out (process control, file copies, the
//! messaging transport) lives outside the library and hands it plain
//! values.

pub mod artifact;
pub mod chunk;
pub mod config;
pub mod notify;
pub mod remote;
pub mod supervisor;
