//! Cyclic process-data exchange for an EtherCAT master driving CiA 402
//! drives: the process-image layout, the mailbox and heartbeat liveness
//! checks, the cyclic engine's decisions, the CiA 402 driver, and the
//! command and state handling between the engine and remote clients.

/// Remote-client command buffer and state freshness.
pub mod client;
/// Command records: freshness, coalescing and the register writes they make.
pub mod command;
/// The configuration document and the bus check against it.
pub mod config;
/// Reading a slave's registers out of a published snapshot.
pub mod controller;
/// CiA 402 driver decisions: turn-on, setup, torque and mode changes.
pub mod drive;
/// The cyclic engine: liveness, snapshot, command drain and readiness.
pub mod engine;
/// The fixed process-data layout of the EPOS test bench.
pub mod epos;
/// Reading and writing byte ranges of the process image.
pub mod image;
/// The process-image layout found by the bus scan.
pub mod layout;
/// Mailbox-PDO freshness check.
pub mod mailboxes;
/// Poulpe register names and board status.
pub mod register;
/// Handling of received command batches.
pub mod server;
/// State records for subscribers.
pub mod state;
/// CiA 402 status and control words, states and error flags.
pub mod state_machine;
/// Heartbeat watchdog.
pub mod watchdog;
