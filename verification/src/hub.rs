//! The external game-tracking service, as the core sees it.

use vstd::prelude::*;
use crate::types::HubError;
use crate::types::Identity;

verus! {

/// Remote-call abstraction over the external game-tracking service. The host
/// implements it on top of whatever transport reaches the service; the core
/// promises nothing about either call's outcome and treats any error as
/// grounds for rolling back the whole reveal operation.
pub trait GameHub {
    /// Reports the start of a concluded draw: the game identity (this
    /// system), the session, the organizer and the winner, with the
    /// organizer-side score carrying the participant count and the
    /// winner-side score carrying the winner index.
    fn start_game(
        &mut self,
        game_id: Identity,
        session_id: u32,
        organizer: Identity,
        winner: Identity,
        organizer_points: i128,
        winner_points: i128,
    ) -> Result<(), HubError>;

    /// Reports the session end; `winner_won` set means the second reported
    /// party of `start_game` — the winner — is the winning side.
    fn end_game(&mut self, session_id: u32, winner_won: bool) -> Result<(), HubError>;
}

} // verus!
