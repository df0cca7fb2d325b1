use zk_roulette::contract::ZkRouletteContract;
use zk_roulette::crypto::make_commitment;
use zk_roulette::hub::GameHub;
use zk_roulette::types::DataKey;
use zk_roulette::types::DrawError;
use zk_roulette::types::DrawEvent;
use zk_roulette::types::DrawPhase;
use zk_roulette::types::HubError;
use zk_roulette::types::Identity;
use zk_roulette::winner::compute_winner_index;

/// A game-hub transport that accepts every report and records it.
struct RecordingHub {
    started: Vec<(Identity, u32, Identity, Identity, i128, i128)>,
    ended: Vec<(u32, bool)>,
}

impl RecordingHub {
    fn new() -> RecordingHub {
        RecordingHub { started: Vec::new(), ended: Vec::new() }
    }
}

impl GameHub for RecordingHub {
    fn start_game(
        &mut self,
        game_id: Identity,
        session_id: u32,
        organizer: Identity,
        winner: Identity,
        organizer_points: i128,
        winner_points: i128,
    ) -> Result<(), HubError> {
        self.started.push((game_id, session_id, organizer, winner, organizer_points, winner_points));
        Ok(())
    }

    fn end_game(&mut self, session_id: u32, winner_won: bool) -> Result<(), HubError> {
        self.ended.push((session_id, winner_won));
        Ok(())
    }
}

/// A game-hub transport whose service is down.
struct FailingHub;

impl GameHub for FailingHub {
    fn start_game(
        &mut self,
        _game_id: Identity,
        _session_id: u32,
        _organizer: Identity,
        _winner: Identity,
        _organizer_points: i128,
        _winner_points: i128,
    ) -> Result<(), HubError> {
        Err(HubError { code: 503 })
    }

    fn end_game(&mut self, _session_id: u32, _winner_won: bool) -> Result<(), HubError> {
        Err(HubError { code: 503 })
    }
}

const CONTRACT_ADDR: Identity = Identity { id: 1 };
const HUB_ADDR: Identity = Identity { id: 2 };
const ORGANIZER: Identity = Identity { id: 100 };

fn setup() -> ZkRouletteContract {
    let mut c = ZkRouletteContract::new(CONTRACT_ADDR);
    c.initialize(HUB_ADDR).unwrap();
    c
}

/// Commit, register `n` participants with ids 101.., close.
fn closed_session(c: &mut ZkRouletteContract, session_id: u32, secret: u64, salt: &[u8; 32], n: u64) {
    let commitment = make_commitment(secret, salt);
    c.commit_draw(ORGANIZER, session_id, commitment).unwrap();
    for k in 0..n {
        c.register_participant(session_id, Identity { id: 101 + k }).unwrap();
    }
    c.close_registrations(ORGANIZER, session_id).unwrap();
}

#[test]
fn scenario_full_draw_selects_second_participant() {
    let mut c = setup();
    let salt: [u8; 32] = [0x1a; 32];
    closed_session(&mut c, 42, 13, &salt, 3);

    let mut hub = RecordingHub::new();
    let idx = c.reveal_winner(ORGANIZER, 42, 13, &salt, &mut hub).unwrap();
    assert_eq!(idx, 1); // 13 mod 3

    let s = c.get_session(42).unwrap();
    assert_eq!(s.phase, DrawPhase::Revealed);
    assert_eq!(s.winner_index, 1);
    assert_eq!(s.num_participants, 3);
    assert_eq!(s.organizer, ORGANIZER);

    let ps = c.get_participants(42).unwrap();
    assert_eq!(ps[1], Identity { id: 102 });

    // The hub saw the outcome exactly once, winner flagged as the winning side.
    assert_eq!(
        hub.started,
        vec![(CONTRACT_ADDR, 42, ORGANIZER, Identity { id: 102 }, 3i128, 1i128)]
    );
    assert_eq!(hub.ended, vec![(42, true)]);
}

#[test]
fn scenario_wrong_secret_leaves_session_closed() {
    let mut c = setup();
    let salt: [u8; 32] = [0xab; 32];
    closed_session(&mut c, 99, 5, &salt, 2);

    let mut hub = RecordingHub::new();
    assert_eq!(
        c.reveal_winner(ORGANIZER, 99, 999, &salt, &mut hub),
        Err(DrawError::CommitmentMismatch)
    );
    let s = c.get_session(99).unwrap();
    assert_eq!(s.phase, DrawPhase::Closed);
    assert_eq!(s.winner_index, 0);
    assert!(hub.started.is_empty());
}

#[test]
fn scenario_double_commit_leaves_first_session_untouched() {
    let mut c = setup();
    let salt: [u8; 32] = [0x07; 32];
    let commitment = make_commitment(3, &salt);
    c.commit_draw(ORGANIZER, 8, commitment).unwrap();
    c.register_participant(8, Identity { id: 55 }).unwrap();

    let other = make_commitment(4, &salt);
    assert_eq!(
        c.commit_draw(Identity { id: 77 }, 8, other),
        Err(DrawError::SessionAlreadyExists)
    );

    let s = c.get_session(8).unwrap();
    assert_eq!(s.organizer, ORGANIZER);
    assert_eq!(s.commitment, commitment);
    assert_eq!(s.num_participants, 1);
    assert_eq!(s.phase, DrawPhase::Open);
}

#[test]
fn scenario_close_with_one_participant_stays_open() {
    let mut c = setup();
    let salt: [u8; 32] = [0x00; 32];
    let commitment = make_commitment(1, &salt);
    c.commit_draw(ORGANIZER, 7, commitment).unwrap();
    c.register_participant(7, Identity { id: 101 }).unwrap();

    assert_eq!(
        c.close_registrations(ORGANIZER, 7),
        Err(DrawError::InsufficientParticipants)
    );
    assert_eq!(c.get_session(7).unwrap().phase, DrawPhase::Open);
}

#[test]
fn registration_rejected_once_closed() {
    let mut c = setup();
    let salt: [u8; 32] = [0x11; 32];
    closed_session(&mut c, 1, 6, &salt, 2);

    assert_eq!(
        c.register_participant(1, Identity { id: 200 }),
        Err(DrawError::RegistrationClosed)
    );
    assert_eq!(c.participant_count(1), Ok(2));
}

#[test]
fn registration_rejected_at_capacity() {
    let mut c = setup();
    let salt: [u8; 32] = [0x22; 32];
    let commitment = make_commitment(9, &salt);
    c.commit_draw(ORGANIZER, 5, commitment).unwrap();
    for k in 0..1024u64 {
        c.register_participant(5, Identity { id: 1000 + k }).unwrap();
    }
    assert_eq!(
        c.register_participant(5, Identity { id: 5000 }),
        Err(DrawError::MaxParticipantsReached)
    );
    assert_eq!(c.participant_count(5), Ok(1024));
}

#[test]
fn duplicate_identity_rejected() {
    let mut c = setup();
    let salt: [u8; 32] = [0x33; 32];
    let commitment = make_commitment(2, &salt);
    c.commit_draw(ORGANIZER, 3, commitment).unwrap();
    c.register_participant(3, Identity { id: 101 }).unwrap();
    c.register_participant(3, Identity { id: 102 }).unwrap();
    assert_eq!(
        c.register_participant(3, Identity { id: 101 }),
        Err(DrawError::DuplicateParticipant)
    );
    let ps = c.get_participants(3).unwrap();
    assert_eq!(ps, vec![Identity { id: 101 }, Identity { id: 102 }]);
}

#[test]
fn only_the_organizer_may_close_or_reveal() {
    let mut c = setup();
    let salt: [u8; 32] = [0x44; 32];
    let commitment = make_commitment(11, &salt);
    c.commit_draw(ORGANIZER, 4, commitment).unwrap();
    c.register_participant(4, Identity { id: 101 }).unwrap();
    c.register_participant(4, Identity { id: 102 }).unwrap();

    let stranger = Identity { id: 666 };
    assert_eq!(c.close_registrations(stranger, 4), Err(DrawError::NotOrganizer));
    c.close_registrations(ORGANIZER, 4).unwrap();

    let mut hub = RecordingHub::new();
    assert_eq!(
        c.reveal_winner(stranger, 4, 11, &salt, &mut hub),
        Err(DrawError::NotOrganizer)
    );
}

#[test]
fn phase_guards_reject_out_of_order_operations() {
    let mut c = setup();
    let salt: [u8; 32] = [0x55; 32];
    let commitment = make_commitment(21, &salt);
    c.commit_draw(ORGANIZER, 6, commitment).unwrap();
    c.register_participant(6, Identity { id: 101 }).unwrap();
    c.register_participant(6, Identity { id: 102 }).unwrap();

    // Reveal before closing: the phase is still Open.
    let mut hub = RecordingHub::new();
    assert_eq!(
        c.reveal_winner(ORGANIZER, 6, 21, &salt, &mut hub),
        Err(DrawError::SessionNotClosed)
    );

    c.close_registrations(ORGANIZER, 6).unwrap();
    // Closing twice: the phase has left Open.
    assert_eq!(c.close_registrations(ORGANIZER, 6), Err(DrawError::SessionNotOpen));

    // The draw concludes, and no further transition is possible.
    c.reveal_winner(ORGANIZER, 6, 21, &salt, &mut hub).unwrap();
    assert_eq!(c.close_registrations(ORGANIZER, 6), Err(DrawError::SessionNotOpen));
    assert_eq!(
        c.reveal_winner(ORGANIZER, 6, 21, &salt, &mut hub),
        Err(DrawError::SessionNotClosed)
    );
    assert_eq!(c.get_session(6).unwrap().phase, DrawPhase::Revealed);
}

#[test]
fn zero_secret_rejected_at_reveal() {
    let mut c = setup();
    let salt: [u8; 32] = [0x66; 32];
    closed_session(&mut c, 9, 1, &salt, 2);
    let mut hub = RecordingHub::new();
    assert_eq!(
        c.reveal_winner(ORGANIZER, 9, 0, &salt, &mut hub),
        Err(DrawError::InvalidSecret)
    );
}

#[test]
fn reveal_requires_initialization() {
    let mut c = ZkRouletteContract::new(CONTRACT_ADDR);
    let salt: [u8; 32] = [0x77; 32];
    closed_session(&mut c, 2, 8, &salt, 2);
    let mut hub = RecordingHub::new();
    assert_eq!(
        c.reveal_winner(ORGANIZER, 2, 8, &salt, &mut hub),
        Err(DrawError::NotInitialized)
    );
}

#[test]
fn initialize_only_once() {
    let mut c = ZkRouletteContract::new(CONTRACT_ADDR);
    assert_eq!(c.game_hub_address(), None);
    assert_eq!(c.initialize(HUB_ADDR), Ok(()));
    assert_eq!(c.game_hub_address(), Some(HUB_ADDR));
    assert_eq!(c.initialize(Identity { id: 9 }), Err(DrawError::AlreadyInitialized));
    assert_eq!(c.game_hub_address(), Some(HUB_ADDR));
}

#[test]
fn missing_sessions_are_reported() {
    let mut c = setup();
    let salt: [u8; 32] = [0x88; 32];
    let mut hub = RecordingHub::new();
    assert_eq!(
        c.register_participant(12, Identity { id: 101 }),
        Err(DrawError::SessionNotFound)
    );
    assert_eq!(c.close_registrations(ORGANIZER, 12), Err(DrawError::SessionNotFound));
    assert_eq!(
        c.reveal_winner(ORGANIZER, 12, 1, &salt, &mut hub),
        Err(DrawError::SessionNotFound)
    );
    assert_eq!(c.get_session(12).unwrap_err(), DrawError::SessionNotFound);
    assert_eq!(c.get_participants(12).unwrap_err(), DrawError::SessionNotFound);
    assert_eq!(c.participant_count(12).unwrap_err(), DrawError::SessionNotFound);
    assert!(!c.has(DataKey::Session(12)));
    assert!(!c.has(DataKey::Participants(12)));
    assert!(c.has(DataKey::GameHub));
}

#[test]
fn hub_failure_rolls_the_reveal_back() {
    let mut c = setup();
    let salt: [u8; 32] = [0x99; 32];
    closed_session(&mut c, 20, 7, &salt, 3);

    let events_before = c.event_log().len();
    let mut down = FailingHub;
    assert_eq!(
        c.reveal_winner(ORGANIZER, 20, 7, &salt, &mut down),
        Err(DrawError::ExternalServiceFailed)
    );
    let s = c.get_session(20).unwrap();
    assert_eq!(s.phase, DrawPhase::Closed);
    assert_eq!(s.winner_index, 0);
    assert_eq!(c.event_log().len(), events_before);

    // Once the service is back, the same reveal goes through.
    let mut up = RecordingHub::new();
    assert_eq!(c.reveal_winner(ORGANIZER, 20, 7, &salt, &mut up), Ok(1)); // 7 mod 3
    assert_eq!(c.get_session(20).unwrap().phase, DrawPhase::Revealed);
}

#[test]
fn commitment_binds_to_secret_and_salt() {
    let salt_a: [u8; 32] = [0x1a; 32];
    let salt_b: [u8; 32] = [0x1b; 32];

    // Deterministic: the same inputs always give the same commitment.
    assert_eq!(make_commitment(13, &salt_a), make_commitment(13, &salt_a));
    // Either input changing changes the commitment.
    assert_ne!(make_commitment(13, &salt_a), make_commitment(14, &salt_a));
    assert_ne!(make_commitment(13, &salt_a), make_commitment(13, &salt_b));
    // The digest is a real hash, not any 32 bytes of the preimage echoed back.
    assert_ne!(make_commitment(13, &salt_a), salt_a);

    // A reveal with the exact committed inputs is accepted.
    let mut c = setup();
    closed_session(&mut c, 30, 13, &salt_a, 2);
    let mut hub = RecordingHub::new();
    assert!(c.reveal_winner(ORGANIZER, 30, 13, &salt_a, &mut hub).is_ok());
}

#[test]
fn winner_is_reproducible_from_public_data() {
    let mut c = setup();
    let salt: [u8; 32] = [0xcd; 32];
    let secret: u64 = 123_456_789;
    closed_session(&mut c, 40, secret, &salt, 7);

    let mut hub = RecordingHub::new();
    let idx = c.reveal_winner(ORGANIZER, 40, secret, &salt, &mut hub).unwrap();

    // Anyone holding the revealed secret and the frozen count gets the same index.
    let count = c.get_session(40).unwrap().num_participants;
    assert_eq!(idx, compute_winner_index(secret, count));
    assert_eq!(idx as u64, secret % count as u64);
    let ps = c.get_participants(40).unwrap();
    assert_eq!(ps[idx as usize], Identity { id: 101 + idx as u64 });
}

#[test]
fn event_log_records_each_transition_in_order() {
    let mut c = setup();
    let salt: [u8; 32] = [0xee; 32];
    let commitment = make_commitment(5, &salt);
    c.commit_draw(ORGANIZER, 50, commitment).unwrap();
    c.register_participant(50, Identity { id: 101 }).unwrap();
    c.register_participant(50, Identity { id: 102 }).unwrap();
    c.close_registrations(ORGANIZER, 50).unwrap();
    let mut hub = RecordingHub::new();
    c.reveal_winner(ORGANIZER, 50, 5, &salt, &mut hub).unwrap();

    let log = c.event_log();
    assert_eq!(log.len(), 5);
    match log[0] {
        DrawEvent::Committed { session_id, commitment: cm } => {
            assert_eq!(session_id, 50);
            assert_eq!(cm, commitment);
        }
        _ => panic!("expected a committed event"),
    }
    match log[1] {
        DrawEvent::Registered { session_id, count } => {
            assert_eq!((session_id, count), (50, 1));
        }
        _ => panic!("expected a registered event"),
    }
    match log[2] {
        DrawEvent::Registered { session_id, count } => {
            assert_eq!((session_id, count), (50, 2));
        }
        _ => panic!("expected a registered event"),
    }
    match log[3] {
        DrawEvent::Closed { session_id, count } => {
            assert_eq!((session_id, count), (50, 2));
        }
        _ => panic!("expected a closed event"),
    }
    match log[4] {
        DrawEvent::Winner { session_id, winner_index, winner, secret, count } => {
            assert_eq!(session_id, 50);
            assert_eq!(winner_index, 1); // 5 mod 2
            assert_eq!(winner, Identity { id: 102 });
            assert_eq!(secret, 5);
            assert_eq!(count, 2);
        }
        _ => panic!("expected a winner event"),
    }
}

#[test]
fn sessions_are_independent() {
    let mut c = setup();
    let salt: [u8; 32] = [0xf0; 32];
    closed_session(&mut c, 60, 4, &salt, 2);
    let commitment = make_commitment(6, &salt);
    c.commit_draw(Identity { id: 300 }, 61, commitment).unwrap();

    // Operations on session 61 leave session 60 exactly as it was.
    c.register_participant(61, Identity { id: 101 }).unwrap();
    assert_eq!(c.participant_count(60), Ok(2));
    assert_eq!(c.get_session(60).unwrap().phase, DrawPhase::Closed);

    let mut hub = RecordingHub::new();
    c.reveal_winner(ORGANIZER, 60, 4, &salt, &mut hub).unwrap();
    assert_eq!(c.get_session(61).unwrap().phase, DrawPhase::Open);
    assert_eq!(c.participant_count(61), Ok(1));
}
