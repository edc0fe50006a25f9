use vstd::prelude::*;

verus! {

/// Where a connection's ingest loop stands.
#[derive(PartialEq, Eq, Structural, Clone, Copy, Debug)]
pub enum IngestState {
    /// Waiting for the next inbound payload.
    Reading,
    /// The connection closed or failed; nothing more is read.
    Terminated,
}

/// What the read side of a connection produced.
#[derive(PartialEq, Eq, Structural, Clone, Copy, Debug)]
pub enum Inbound {
    /// A payload arrived.
    Payload,
    /// The peer closed the connection cleanly.
    Closed,
    /// Reading failed.
    Failed,
}

/// What the caller is to do after an inbound event.
#[derive(PartialEq, Eq, Structural, Clone, Copy, Debug)]
pub enum IngestAction {
    /// Broadcast the payload to every connection but `exclude`.
    Relay { exclude: u64 },
    /// Remove `id` from the registry and stop reading.
    Deregister { id: u64 },
    /// Nothing to do.
    Idle,
}

/// One step of the ingest loop of connection `id`: a payload read while
/// reading is relayed to everyone but its sender; a close or a read error
/// ends the loop and deregisters the connection; a terminated loop does
/// nothing more.
pub fn ingest_step(state: IngestState, id: u64, event: Inbound) -> (r: (IngestState, IngestAction))
    ensures
        state == IngestState::Terminated ==> r == (IngestState::Terminated, IngestAction::Idle),
        state == IngestState::Reading && event == Inbound::Payload ==> r == (
            IngestState::Reading,
            IngestAction::Relay { exclude: id },
        ),
        state == IngestState::Reading && event != Inbound::Payload ==> r == (
            IngestState::Terminated,
            IngestAction::Deregister { id },
        ),
{
    match state {
        IngestState::Terminated => (IngestState::Terminated, IngestAction::Idle),
        IngestState::Reading => match event {
            Inbound::Payload => (IngestState::Reading, IngestAction::Relay { exclude: id }),
            Inbound::Closed | Inbound::Failed => (
                IngestState::Terminated,
                IngestAction::Deregister { id },
            ),
        },
    }
}

} // verus!
