//! A fan-out hub for persistent client connections: a registry of live
//! connections, the broadcast pass that relays a payload to every registered
//! connection but an optional excluded one, and the per-connection ingest
//! state machine. Sockets and tasks are driven by the caller; this crate
//! decides who is sent to and who is evicted.
/// Facts about filtering sequences that the proofs rest on.
pub mod seq_facts;
/// The registry of live connections.
pub mod registry;
/// Broadcast passes: who is sent to, and batch eviction of failed recipients.
pub mod broadcast;
/// The per-connection ingest state machine.
pub mod ingest;
/// The server hub: port, registry and broadcast entry points.
pub mod server;
/// Properties of broadcasting, eviction and removal, proved.
pub mod laws;
