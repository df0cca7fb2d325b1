//! Data model of the draw protocol: identities, phases, session records,
//! storage keys, errors and emitted events.

use vstd::prelude::*;

verus! {

/// Most entrants a single session will accept.
pub const MAX_PARTICIPANTS: u32 = 1024;

/// An authenticated account identity.
///
/// The host environment is responsible for authenticating callers; the core
/// receives the already-authenticated identity as a plain value and compares
/// identities only for equality.
#[derive(Clone, Copy, PartialEq, Eq, Structural, Debug)]
pub struct Identity {
    pub id: u64,
}

/// Lifecycle phase of a draw session. The only legal transitions are
/// Open -> Closed (close_registrations) and Closed -> Revealed (reveal_winner).
#[derive(Clone, Copy, PartialEq, Eq, Structural, Debug)]
pub enum DrawPhase {
    /// Accepting participant registrations.
    Open,
    /// Registration frozen, waiting for the organizer to reveal the secret.
    Closed,
    /// Winner revealed; terminal.
    Revealed,
}

/// Order of the phases along the lifecycle: Open before Closed before Revealed.
pub open spec fn phase_rank(p: DrawPhase) -> int {
    match p {
        DrawPhase::Open => 0,
        DrawPhase::Closed => 1,
        DrawPhase::Revealed => 2,
    }
}

/// `a` comes no later than `b` in the lifecycle.
pub open spec fn phase_le(a: DrawPhase, b: DrawPhase) -> bool {
    phase_rank(a) <= phase_rank(b)
}

/// Kinds of durable records the registry keeps, namespaced per session.
#[derive(Clone, Copy, PartialEq, Eq, Structural, Debug)]
pub enum DataKey {
    /// Address of the external game-tracking service, stored at initialization.
    GameHub,
    /// The session record for the given session identifier.
    Session(u32),
    /// The participant list for the given session identifier.
    Participants(u32),
}

/// One draw session. Created by `commit_draw` with phase Open and no
/// participants; the commitment never changes afterwards.
#[derive(Clone, Copy, Debug)]
pub struct DrawSession {
    /// Organizer controlling this session.
    pub organizer: Identity,
    /// 32-byte digest of `secret` (8 bytes big-endian) followed by the salt,
    /// fixed at creation.
    pub commitment: [u8; 32],
    /// Number of registered participants; always the length of the list.
    pub num_participants: u32,
    /// Current lifecycle phase.
    pub phase: DrawPhase,
    /// Winning list index; meaningful only once `phase` is Revealed, zero before.
    pub winner_index: u32,
}

/// Everything that can make an operation fail. Every failure aborts the
/// operation with no mutation at all.
#[derive(Clone, Copy, PartialEq, Eq, Structural, Debug)]
pub enum DrawError {
    /// `initialize` was called a second time.
    AlreadyInitialized,
    /// `reveal_winner` needs the service address stored by `initialize`.
    NotInitialized,
    /// `commit_draw` found a session under the requested identifier.
    SessionAlreadyExists,
    /// No session exists under the given identifier.
    SessionNotFound,
    /// Registration attempted once the phase left Open.
    RegistrationClosed,
    /// Registration attempted with the participant list already full.
    MaxParticipantsReached,
    /// The participant is already on the list.
    DuplicateParticipant,
    /// The caller is not the session's organizer.
    NotOrganizer,
    /// `close_registrations` needs the phase to be Open.
    SessionNotOpen,
    /// Closing needs at least two participants.
    InsufficientParticipants,
    /// `reveal_winner` needs the phase to be Closed.
    SessionNotClosed,
    /// The revealed secret must be nonzero.
    InvalidSecret,
    /// The recomputed digest does not match the stored commitment.
    CommitmentMismatch,
    /// Internal invariant violation: the winner index missed the list. The
    /// core proves this unreachable; the variant exists so a caller that
    /// sees it knows it faces a fatal defect, not a recoverable error.
    WinnerIndexOutOfBounds,
    /// The external game-tracking service failed; the reveal rolled back.
    ExternalServiceFailed,
}

/// Failure of the external game-tracking service, as reported by the host's
/// transport. The core promises nothing about when it occurs.
#[derive(Clone, Copy, PartialEq, Eq, Structural, Debug)]
pub struct HubError {
    /// Transport- or service-defined code, passed through for diagnosis.
    pub code: u32,
}

/// Notifications emitted by the core, one per completed phase transition,
/// in order, onto the registry's event log.
#[derive(Clone, Copy, Debug)]
pub enum DrawEvent {
    /// A session was created with the given commitment.
    Committed { session_id: u32, commitment: [u8; 32] },
    /// A participant registered; `count` is the new list length.
    Registered { session_id: u32, count: u32 },
    /// Registration closed with `count` participants frozen.
    Closed { session_id: u32, count: u32 },
    /// The draw concluded.
    Winner {
        session_id: u32,
        winner_index: u32,
        winner: Identity,
        secret: u64,
        count: u32,
    },
}

} // verus!
