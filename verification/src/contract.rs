//! The session registry and the commit-reveal state machine: one record per
//! session identifier, mutated only by the four atomic operations
//! `commit_draw`, `register_participant`, `close_registrations` and
//! `reveal_winner`.

use vstd::prelude::*;
use crate::codec::preimage_of;
use crate::crypto::sha256_of;
use crate::crypto::verify_commitment;
use crate::hub::GameHub;
use crate::winner::compute_winner_index;
use crate::winner::winner_index_of;
use crate::types::DataKey;
use crate::types::DrawError;
use crate::types::DrawEvent;
use crate::types::DrawPhase;
use crate::types::DrawSession;
use crate::types::Identity;
use crate::types::MAX_PARTICIPANTS;
use crate::types::phase_le;
use crate::types::phase_rank;

verus! {

/// A session record together with its participant list, both living under
/// one session identifier — the registry's unit of storage.
pub struct SessionEntry {
    /// The session identifier, unique within the registry.
    pub id: u32,
    /// The session record.
    pub session: DrawSession,
    /// The ordered participant list; order decides who a winner index names.
    pub participants: Vec<Identity>,
}

/// No identity occurs twice in a participant list.
pub open spec fn distinct(s: Seq<Identity>) -> bool {
    forall|i: int, j: int| 0 <= i < s.len() && 0 <= j < s.len() && i != j ==> s[i] != s[j]
}

impl SessionEntry {
    /// Per-session invariant, holding at every observable point:
    /// the stored count is the list's length and stays within the ceiling;
    /// no participant registers twice; a session leaves Open only with at
    /// least two entrants; the winner index is zero until the reveal sets it,
    /// and then lies inside the list.
    pub open spec fn wf(self) -> bool {
        &&& self.session.num_participants == self.participants@.len()
        &&& self.session.num_participants <= MAX_PARTICIPANTS
        &&& distinct(self.participants@)
        &&& !(self.session.phase is Open) ==> self.session.num_participants >= 2
        &&& !(self.session.phase is Revealed) ==> self.session.winner_index == 0
        &&& self.session.phase is Revealed
            ==> self.session.winner_index < self.session.num_participants
    }
}

/// No session identifier occurs twice among the entries.
pub open spec fn unique_ids(s: Seq<SessionEntry>) -> bool {
    forall|i: int, j: int|
        0 <= i < s.len() && 0 <= j < s.len() && i != j ==> s[i].id != s[j].id
}

/// Some entry carries the given session identifier.
pub open spec fn has_id(s: Seq<SessionEntry>, id: u32) -> bool {
    exists|i: int| 0 <= i < s.len() && (#[trigger] s[i]).id == id
}

/// The position of the entry carrying the given identifier (meaningful only
/// when `has_id` holds; with `unique_ids` it is the only such position).
pub open spec fn index_of_id(s: Seq<SessionEntry>, id: u32) -> int {
    choose|i: int| 0 <= i < s.len() && (#[trigger] s[i]).id == id
}

/// The entry carrying the given identifier.
pub open spec fn entry_of(s: Seq<SessionEntry>, id: u32) -> SessionEntry {
    s[index_of_id(s, id)]
}

/// With unique identifiers, an entry found at position `i` is the one that
/// `entry_of` denotes.
pub proof fn lemma_index_of_id(s: Seq<SessionEntry>, id: u32, i: int)
    requires
        unique_ids(s),
        0 <= i < s.len(),
        s[i].id == id,
    ensures
        has_id(s, id),
        index_of_id(s, id) == i,
        entry_of(s, id) == s[i],
{
    assert(has_id(s, id));
    let j = index_of_id(s, id);
    assert(0 <= j < s.len() && s[j].id == id);
    if j != i {
        assert(s[i].id != s[j].id);
    }
}

/// Appending an entry under a fresh identifier keeps identifiers unique,
/// makes the new entry findable, and touches no other session.
pub proof fn lemma_entries_push(s: Seq<SessionEntry>, e: SessionEntry)
    requires
        unique_ids(s),
        !has_id(s, e.id),
    ensures
        unique_ids(s.push(e)),
        has_id(s.push(e), e.id),
        entry_of(s.push(e), e.id) == e,
        forall|id2: u32|
            id2 != e.id ==> #[trigger] has_id(s.push(e), id2) == has_id(s, id2),
        forall|id2: u32|
            id2 != e.id && has_id(s, id2) ==> #[trigger] entry_of(s.push(e), id2) == entry_of(
                s,
                id2,
            ),
{
    let t = s.push(e);
    assert forall|i: int| 0 <= i < s.len() implies s[i].id != e.id by {
        if s[i].id == e.id {
            assert(has_id(s, e.id));
        }
    }
    lemma_index_of_id(t, e.id, s.len() as int);
    assert forall|id2: u32| id2 != e.id implies #[trigger] has_id(t, id2) == has_id(s, id2) by {
        if has_id(s, id2) {
            let i = index_of_id(s, id2);
            assert(t[i].id == id2);
            assert(has_id(t, id2));
        }
        if has_id(t, id2) {
            let i = choose|i: int| 0 <= i < t.len() && (#[trigger] t[i]).id == id2;
            assert(i < s.len());
            assert(s[i].id == id2);
            assert(has_id(s, id2));
        }
    }
    assert forall|id2: u32| id2 != e.id && has_id(s, id2) implies #[trigger] entry_of(t, id2)
        == entry_of(s, id2) by {
        let i = index_of_id(s, id2);
        assert(0 <= i < s.len() && s[i].id == id2);
        assert(t[i].id == id2);
        lemma_index_of_id(t, id2, i);
    }
}

/// Replacing the entry at position `i` while keeping its identifier keeps
/// identifiers unique, and touches no other session.
pub proof fn lemma_entries_update(s: Seq<SessionEntry>, i: int, e: SessionEntry)
    requires
        unique_ids(s),
        0 <= i < s.len(),
        e.id == s[i].id,
    ensures
        unique_ids(s.update(i, e)),
        has_id(s.update(i, e), e.id),
        entry_of(s.update(i, e), e.id) == e,
        forall|id2: u32|
            id2 != e.id ==> #[trigger] has_id(s.update(i, e), id2) == has_id(s, id2),
        forall|id2: u32|
            id2 != e.id && has_id(s, id2) ==> #[trigger] entry_of(s.update(i, e), id2)
                == entry_of(s, id2),
{
    let t = s.update(i, e);
    lemma_index_of_id(t, e.id, i);
    assert forall|id2: u32| id2 != e.id implies #[trigger] has_id(t, id2) == has_id(s, id2) by {
        if has_id(s, id2) {
            let k = index_of_id(s, id2);
            assert(k != i);
            assert(t[k].id == id2);
            assert(has_id(t, id2));
        }
        if has_id(t, id2) {
            let k = choose|k: int| 0 <= k < t.len() && (#[trigger] t[k]).id == id2;
            assert(k != i);
            assert(s[k].id == id2);
            assert(has_id(s, id2));
        }
    }
    assert forall|id2: u32| id2 != e.id && has_id(s, id2) implies #[trigger] entry_of(t, id2)
        == entry_of(s, id2) by {
        let k = index_of_id(s, id2);
        assert(0 <= k < s.len() && s[k].id == id2);
        assert(k != i);
        assert(t[k].id == id2);
        lemma_index_of_id(t, id2, k);
    }
}

/// Linear scan for an identity, the duplicate check of registration.
fn contains_identity(v: &Vec<Identity>, x: Identity) -> (r: bool)
    ensures
        r == v@.contains(x),
{
    let n = v.len();
    let mut i: usize = 0;
    while i < n
        invariant
            n == v@.len(),
            i <= n,
            forall|k: int| 0 <= k < i ==> v@[k] != x,
        decreases n - i,
    {
        if v[i] == x {
            return true;
        }
        i = i + 1;
    }
    proof {
        if v@.contains(x) {
            let k = choose|k: int| 0 <= k < v@.len() && v@[k] == x;
            assert(v@[k] != x);
        }
    }
    false
}

/// How any operation may move the registry from one observable state to the
/// next: no session disappears, no session's organizer or commitment ever
/// changes after creation, and no phase moves backward or skips a step along
/// Open, Closed, Revealed.
pub open spec fn session_evolution(pre: ZkRouletteContract, post: ZkRouletteContract) -> bool {
    forall|id: u32|
        #[trigger] pre.has_session(id) ==> post.has_session(id) && post.session_of(id).organizer
            == pre.session_of(id).organizer && post.session_of(id).commitment == pre.session_of(
            id,
        ).commitment && phase_le(pre.session_of(id).phase, post.session_of(id).phase)
            && phase_rank(post.session_of(id).phase) <= phase_rank(pre.session_of(id).phase) + 1
}

/// The draw registry: the stored address of the external game-tracking
/// service, the session records with their participant lists, and the log of
/// emitted notifications.
pub struct ZkRouletteContract {
    /// This system's own identity, reported to the game service as the game.
    pub contract_address: Identity,
    /// Address of the external game-tracking service; `None` until
    /// `initialize` stores it, and at most once thereafter.
    pub game_hub: Option<Identity>,
    /// One entry per live session, identifiers unique.
    pub entries: Vec<SessionEntry>,
    /// Notifications emitted so far, oldest first.
    pub events: Vec<DrawEvent>,
}

impl ZkRouletteContract {
    /// Registry invariant: unique session identifiers, and every entry
    /// well-formed.
    pub open spec fn wf(self) -> bool {
        &&& unique_ids(self.entries@)
        &&& forall|i: int|
            0 <= i < self.entries@.len() ==> (#[trigger] self.entries@[i]).wf()
    }

    /// A session exists under this identifier.
    pub open spec fn has_session(self, session_id: u32) -> bool {
        has_id(self.entries@, session_id)
    }

    /// The session record stored under this identifier (meaningful only when
    /// `has_session` holds).
    pub open spec fn session_of(self, session_id: u32) -> DrawSession {
        entry_of(self.entries@, session_id).session
    }

    /// The participant list stored under this identifier (meaningful only
    /// when `has_session` holds).
    pub open spec fn participants_of(self, session_id: u32) -> Seq<Identity> {
        entry_of(self.entries@, session_id).participants@
    }

    /// The service address has been stored.
    pub open spec fn initialized(self) -> bool {
        self.game_hub is Some
    }

    /// A fresh registry for a deployment of this system under the given
    /// identity: uninitialized, no sessions, no events.
    pub fn new(contract_address: Identity) -> (r: ZkRouletteContract)
        ensures
            r.wf(),
            r.contract_address == contract_address,
            !r.initialized(),
            r.entries@ =~= Seq::<SessionEntry>::empty(),
            r.events@ =~= Seq::<DrawEvent>::empty(),
            forall|id: u32| !r.has_session(id),
    {
        ZkRouletteContract {
            contract_address,
            game_hub: None,
            entries: Vec::new(),
            events: Vec::new(),
        }
    }

    /// Position of the entry for this identifier, if one exists.
    fn find_entry_index(&self, session_id: u32) -> (r: Option<usize>)
        requires
            self.wf(),
        ensures
            match r {
                Some(i) => self.has_session(session_id) && i < self.entries@.len()
                    && self.entries@[i as int].id == session_id && index_of_id(
                    self.entries@,
                    session_id,
                ) == i,
                None => !self.has_session(session_id),
            },
    {
        let n = self.entries.len();
        let mut i: usize = 0;
        while i < n
            invariant
                self.wf(),
                n == self.entries@.len(),
                i <= n,
                forall|k: int| 0 <= k < i ==> (#[trigger] self.entries@[k]).id != session_id,
            decreases n - i,
        {
            if self.entries[i].id == session_id {
                proof {
                    lemma_index_of_id(self.entries@, session_id, i as int);
                }
                return Some(i);
            }
            i = i + 1;
        }
        proof {
            if self.has_session(session_id) {
                let k = choose|k: int|
                    0 <= k < self.entries@.len() && (#[trigger] self.entries@[k]).id
                        == session_id;
                assert(self.entries@[k].id != session_id);
            }
        }
        None
    }

    /// Whether a record exists under the given storage key.
    pub fn has(&self, key: DataKey) -> (r: bool)
        requires
            self.wf(),
        ensures
            r == match key {
                DataKey::GameHub => self.initialized(),
                DataKey::Session(id) => self.has_session(id),
                DataKey::Participants(id) => self.has_session(id),
            },
    {
        match key {
            DataKey::GameHub => self.game_hub.is_some(),
            DataKey::Session(id) => self.find_entry_index(id).is_some(),
            DataKey::Participants(id) => self.find_entry_index(id).is_some(),
        }
    }

    /// The session record under this identifier, for auditing and display.
    pub fn get_session(&self, session_id: u32) -> (r: Result<DrawSession, DrawError>)
        requires
            self.wf(),
        ensures
            match r {
                Ok(s) => self.has_session(session_id) && s == self.session_of(session_id),
                Err(e) => e == DrawError::SessionNotFound && !self.has_session(session_id),
            },
    {
        match self.find_entry_index(session_id) {
            Some(i) => Ok(self.entries[i].session),
            None => Err(DrawError::SessionNotFound),
        }
    }

    /// The participant list under this identifier, in registration order.
    pub fn get_participants(&self, session_id: u32) -> (r: Result<Vec<Identity>, DrawError>)
        requires
            self.wf(),
        ensures
            match r {
                Ok(ps) => self.has_session(session_id) && ps@ == self.participants_of(
                    session_id,
                ),
                Err(e) => e == DrawError::SessionNotFound && !self.has_session(session_id),
            },
    {
        let i = match self.find_entry_index(session_id) {
            Some(i) => i,
            None => { return Err(DrawError::SessionNotFound) },
        };
        let src = &self.entries[i].participants;
        let mut out: Vec<Identity> = Vec::new();
        let n = src.len();
        let mut k: usize = 0;
        while k < n
            invariant
                n == src@.len(),
                k <= n,
                out@ == src@.take(k as int),
            decreases n - k,
        {
            out.push(src[k]);
            proof {
                assert(src@.take(k + 1) =~= src@.take(k as int).push(src@[k as int]));
            }
            k = k + 1;
        }
        proof {
            assert(src@.take(n as int) =~= src@);
        }
        Ok(out)
    }

    /// The number of registered participants under this identifier.
    pub fn participant_count(&self, session_id: u32) -> (r: Result<u32, DrawError>)
        requires
            self.wf(),
        ensures
            match r {
                Ok(c) => self.has_session(session_id) && c == self.session_of(
                    session_id,
                ).num_participants && c == self.participants_of(session_id).len(),
                Err(e) => e == DrawError::SessionNotFound && !self.has_session(session_id),
            },
    {
        match self.find_entry_index(session_id) {
            Some(i) => Ok(self.entries[i].session.num_participants),
            None => Err(DrawError::SessionNotFound),
        }
    }

    /// Stores the address of the external game-tracking service. Must be
    /// called exactly once, before any reveal; a second call changes nothing.
    pub fn initialize(&mut self, game_hub: Identity) -> (r: Result<(), DrawError>)
        requires
            old(self).wf(),
        ensures
            final(self).wf(),
            final(self).contract_address == old(self).contract_address,
            final(self).entries@ == old(self).entries@,
            final(self).events@ == old(self).events@,
            session_evolution(*old(self), *final(self)),
            match r {
                Ok(()) => !old(self).initialized() && final(self).game_hub == Some(game_hub),
                Err(e) => e == DrawError::AlreadyInitialized && old(self).initialized()
                    && *final(self) == *old(self),
            },
    {
        if self.game_hub.is_some() {
            return Err(DrawError::AlreadyInitialized);
        }
        self.game_hub = Some(game_hub);
        Ok(())
    }

    /// Creates a session: the organizer binds itself to `commitment` before
    /// any participant exists. The new session starts Open and empty; the
    /// commitment never changes afterwards.
    pub fn commit_draw(
        &mut self,
        organizer: Identity,
        session_id: u32,
        commitment: [u8; 32],
    ) -> (r: Result<(), DrawError>)
        requires
            old(self).wf(),
        ensures
            final(self).wf(),
            final(self).contract_address == old(self).contract_address,
            final(self).game_hub == old(self).game_hub,
            session_evolution(*old(self), *final(self)),
            match r {
                Ok(()) => {
                    &&& !old(self).has_session(session_id)
                    &&& final(self).has_session(session_id)
                    &&& final(self).session_of(session_id) == (DrawSession {
                        organizer,
                        commitment,
                        num_participants: 0,
                        phase: DrawPhase::Open,
                        winner_index: 0,
                    })
                    &&& final(self).participants_of(session_id) == Seq::<Identity>::empty()
                    &&& forall|id2: u32|
                        id2 != session_id ==> #[trigger] final(self).has_session(id2) == old(
                            self,
                        ).has_session(id2)
                    &&& forall|id2: u32|
                        id2 != session_id && old(self).has_session(id2)
                            ==> #[trigger] final(self).session_of(id2) == old(self).session_of(
                            id2,
                        ) && final(self).participants_of(id2) == old(self).participants_of(id2)
                    &&& final(self).events@ == old(self).events@.push(
                        DrawEvent::Committed { session_id, commitment },
                    )
                },
                Err(e) => {
                    &&& e == DrawError::SessionAlreadyExists
                    &&& old(self).has_session(session_id)
                    &&& *final(self) == *old(self)
                },
            },
    {
        if self.find_entry_index(session_id).is_some() {
            return Err(DrawError::SessionAlreadyExists);
        }
        let entry = SessionEntry {
            id: session_id,
            session: DrawSession {
                organizer,
                commitment,
                num_participants: 0,
                phase: DrawPhase::Open,
                winner_index: 0,
            },
            participants: Vec::new(),
        };
        let ghost pre = self.entries@;
        let ghost ge = entry;
        proof {
            lemma_entries_push(pre, ge);
        }
        self.entries.push(entry);
        self.events.push(DrawEvent::Committed { session_id, commitment });
        proof {
            assert(self.entries@ == pre.push(ge));
            assert(ge.participants@ =~= Seq::<Identity>::empty());
            assert forall|id2: u32| #[trigger] old(self).has_session(id2) implies
                self.has_session(id2) && self.session_of(id2).organizer == old(
                self,
            ).session_of(id2).organizer && self.session_of(id2).commitment == old(
                self,
            ).session_of(id2).commitment && phase_le(
                old(self).session_of(id2).phase,
                self.session_of(id2).phase,
            ) by {
                assert(id2 != session_id);
            }
        }
        Ok(())
    }

    /// Registers a participant into an Open session that is not yet full and
    /// does not already hold that identity; appends it to the list and bumps
    /// the count.
    pub fn register_participant(
        &mut self,
        session_id: u32,
        participant: Identity,
    ) -> (r: Result<(), DrawError>)
        requires
            old(self).wf(),
        ensures
            final(self).wf(),
            final(self).contract_address == old(self).contract_address,
            final(self).game_hub == old(self).game_hub,
            session_evolution(*old(self), *final(self)),
            match r {
                Ok(()) => {
                    &&& old(self).has_session(session_id)
                    &&& old(self).session_of(session_id).phase is Open
                    &&& old(self).participants_of(session_id).len() < MAX_PARTICIPANTS
                    &&& !old(self).participants_of(session_id).contains(participant)
                    &&& final(self).has_session(session_id)
                    &&& final(self).session_of(session_id) == (DrawSession {
                        num_participants: (old(self).session_of(session_id).num_participants
                            + 1) as u32,
                        ..old(self).session_of(session_id)
                    })
                    &&& final(self).participants_of(session_id) == old(self).participants_of(
                        session_id,
                    ).push(participant)
                    &&& forall|id2: u32|
                        id2 != session_id ==> #[trigger] final(self).has_session(id2) == old(
                            self,
                        ).has_session(id2)
                    &&& forall|id2: u32|
                        id2 != session_id && old(self).has_session(id2)
                            ==> #[trigger] final(self).session_of(id2) == old(self).session_of(
                            id2,
                        ) && final(self).participants_of(id2) == old(self).participants_of(id2)
                    &&& final(self).events@ == old(self).events@.push(
                        DrawEvent::Registered {
                            session_id,
                            count: (old(self).session_of(session_id).num_participants
                                + 1) as u32,
                        },
                    )
                },
                Err(e) => {
                    &&& *final(self) == *old(self)
                    &&& match e {
                        DrawError::SessionNotFound => !old(self).has_session(session_id),
                        DrawError::RegistrationClosed => old(self).has_session(session_id)
                            && !(old(self).session_of(session_id).phase is Open),
                        DrawError::MaxParticipantsReached => old(self).has_session(session_id)
                            && old(self).session_of(session_id).phase is Open && old(
                            self,
                        ).participants_of(session_id).len() == MAX_PARTICIPANTS,
                        DrawError::DuplicateParticipant => old(self).has_session(session_id)
                            && old(self).session_of(session_id).phase is Open && old(
                            self,
                        ).participants_of(session_id).len() < MAX_PARTICIPANTS && old(
                            self,
                        ).participants_of(session_id).contains(participant),
                        _ => false,
                    }
                },
            },
    {
        let i = match self.find_entry_index(session_id) {
            Some(i) => i,
            None => { return Err(DrawError::SessionNotFound) },
        };
        if self.entries[i].session.phase != DrawPhase::Open {
            return Err(DrawError::RegistrationClosed);
        }
        let count = self.entries[i].session.num_participants;
        if count >= MAX_PARTICIPANTS {
            return Err(DrawError::MaxParticipantsReached);
        }
        if contains_identity(&self.entries[i].participants, participant) {
            return Err(DrawError::DuplicateParticipant);
        }
        let ghost pre = self.entries@;
        let ghost pre_entry = self.entries@[i as int];
        self.entries[i].participants.push(participant);
        self.entries[i].session.num_participants = count + 1;
        self.events.push(
            DrawEvent::Registered { session_id, count: count + 1 },
        );
        proof {
            let e2 = self.entries@[i as int];
            assert(self.entries@ =~= pre.update(i as int, e2));
            assert(e2.participants@ == pre_entry.participants@.push(participant));
            assert forall|a: int, b: int|
                0 <= a < e2.participants@.len() && 0 <= b < e2.participants@.len() && a
                    != b implies e2.participants@[a] != e2.participants@[b] by {
                if a < pre_entry.participants@.len() && b < pre_entry.participants@.len() {
                } else if a < pre_entry.participants@.len() {
                    assert(pre_entry.participants@[a] != participant);
                } else if b < pre_entry.participants@.len() {
                    assert(pre_entry.participants@[b] != participant);
                }
            }
            lemma_entries_update(pre, i as int, e2);
            assert forall|id2: u32| #[trigger] old(self).has_session(id2) implies
                self.has_session(id2) && self.session_of(id2).organizer == old(
                self,
            ).session_of(id2).organizer && self.session_of(id2).commitment == old(
                self,
            ).session_of(id2).commitment && phase_le(
                old(self).session_of(id2).phase,
                self.session_of(id2).phase,
            ) by {
                if id2 == session_id {
                    lemma_index_of_id(pre, session_id, i as int);
                }
            }
            lemma_index_of_id(pre, session_id, i as int);
        }
        Ok(())
    }

    /// Closes registration: only the organizer may, only while Open, and only
    /// with at least two entrants; the participant list and count freeze.
    pub fn close_registrations(&mut self, caller: Identity, session_id: u32) -> (r: Result<
        (),
        DrawError,
    >)
        requires
            old(self).wf(),
        ensures
            final(self).wf(),
            final(self).contract_address == old(self).contract_address,
            final(self).game_hub == old(self).game_hub,
            session_evolution(*old(self), *final(self)),
            match r {
                Ok(()) => {
                    &&& old(self).has_session(session_id)
                    &&& caller == old(self).session_of(session_id).organizer
                    &&& old(self).session_of(session_id).phase is Open
                    &&& old(self).session_of(session_id).num_participants >= 2
                    &&& final(self).has_session(session_id)
                    &&& final(self).session_of(session_id) == (DrawSession {
                        phase: DrawPhase::Closed,
                        ..old(self).session_of(session_id)
                    })
                    &&& final(self).participants_of(session_id) == old(self).participants_of(
                        session_id,
                    )
                    &&& forall|id2: u32|
                        id2 != session_id ==> #[trigger] final(self).has_session(id2) == old(
                            self,
                        ).has_session(id2)
                    &&& forall|id2: u32|
                        id2 != session_id && old(self).has_session(id2)
                            ==> #[trigger] final(self).session_of(id2) == old(self).session_of(
                            id2,
                        ) && final(self).participants_of(id2) == old(self).participants_of(id2)
                    &&& final(self).events@ == old(self).events@.push(
                        DrawEvent::Closed {
                            session_id,
                            count: old(self).session_of(session_id).num_participants,
                        },
                    )
                },
                Err(e) => {
                    &&& *final(self) == *old(self)
                    &&& match e {
                        DrawError::SessionNotFound => !old(self).has_session(session_id),
                        DrawError::NotOrganizer => old(self).has_session(session_id) && caller
                            != old(self).session_of(session_id).organizer,
                        DrawError::SessionNotOpen => old(self).has_session(session_id)
                            && caller == old(self).session_of(session_id).organizer && !(old(
                            self,
                        ).session_of(session_id).phase is Open),
                        DrawError::InsufficientParticipants => old(self).has_session(session_id)
                            && caller == old(self).session_of(session_id).organizer && old(
                            self,
                        ).session_of(session_id).phase is Open && old(self).session_of(
                            session_id,
                        ).num_participants < 2,
                        _ => false,
                    }
                },
            },
    {
        let i = match self.find_entry_index(session_id) {
            Some(i) => i,
            None => { return Err(DrawError::SessionNotFound) },
        };
        if caller != self.entries[i].session.organizer {
            return Err(DrawError::NotOrganizer);
        }
        if self.entries[i].session.phase != DrawPhase::Open {
            return Err(DrawError::SessionNotOpen);
        }
        let count = self.entries[i].session.num_participants;
        if count < 2 {
            return Err(DrawError::InsufficientParticipants);
        }
        let ghost pre = self.entries@;
        self.entries[i].session.phase = DrawPhase::Closed;
        self.events.push(DrawEvent::Closed { session_id, count });
        proof {
            let e2 = self.entries@[i as int];
            lemma_entries_update(pre, i as int, e2);
            assert forall|id2: u32| #[trigger] old(self).has_session(id2) implies
                self.has_session(id2) && self.session_of(id2).organizer == old(
                self,
            ).session_of(id2).organizer && self.session_of(id2).commitment == old(
                self,
            ).session_of(id2).commitment && phase_le(
                old(self).session_of(id2).phase,
                self.session_of(id2).phase,
            ) by {
                if id2 == session_id {
                    lemma_index_of_id(pre, session_id, i as int);
                }
            }
            lemma_index_of_id(pre, session_id, i as int);
        }
        Ok(())
    }

    /// The first guard a reveal of `(secret, salt)` by `caller` would fail
    /// on, in the order the operation checks them — or `None` when every
    /// guard passes and only the external service can still fail the reveal.
    pub open spec fn reveal_guard(
        self,
        caller: Identity,
        session_id: u32,
        secret: u64,
        salt: Seq<u8>,
    ) -> Option<DrawError> {
        if !self.has_session(session_id) {
            Some(DrawError::SessionNotFound)
        } else if caller != self.session_of(session_id).organizer {
            Some(DrawError::NotOrganizer)
        } else if !(self.session_of(session_id).phase is Closed) {
            Some(DrawError::SessionNotClosed)
        } else if secret == 0 {
            Some(DrawError::InvalidSecret)
        } else if sha256_of(preimage_of(secret, salt)) != self.session_of(
            session_id,
        ).commitment@ {
            Some(DrawError::CommitmentMismatch)
        } else if !self.initialized() {
            Some(DrawError::NotInitialized)
        } else {
            None
        }
    }

    /// Reveals the secret and concludes the draw. Recomputes the commitment
    /// digest from `(secret, salt)` and compares it byte for byte; on a match
    /// the winner is the participant at `secret mod count` in the frozen
    /// list. The external service is told about the outcome before anything
    /// is stored, so a service failure rolls the whole reveal back. The
    /// winner index is proved to land inside the list, so the out-of-bounds
    /// defect the error taxonomy reserves a variant for cannot arise here.
    pub fn reveal_winner<H: GameHub>(
        &mut self,
        caller: Identity,
        session_id: u32,
        secret: u64,
        salt: &[u8; 32],
        hub: &mut H,
    ) -> (r: Result<u32, DrawError>)
        requires
            old(self).wf(),
        ensures
            final(self).wf(),
            final(self).contract_address == old(self).contract_address,
            final(self).game_hub == old(self).game_hub,
            session_evolution(*old(self), *final(self)),
            match r {
                Ok(idx) => {
                    &&& old(self).reveal_guard(caller, session_id, secret, salt@) is None
                    &&& old(self).has_session(session_id)
                    &&& idx == winner_index_of(
                        secret,
                        old(self).session_of(session_id).num_participants,
                    )
                    &&& idx < old(self).session_of(session_id).num_participants
                    &&& final(self).has_session(session_id)
                    &&& final(self).session_of(session_id) == (DrawSession {
                        phase: DrawPhase::Revealed,
                        winner_index: idx,
                        ..old(self).session_of(session_id)
                    })
                    &&& final(self).participants_of(session_id) == old(self).participants_of(
                        session_id,
                    )
                    &&& forall|id2: u32|
                        id2 != session_id ==> #[trigger] final(self).has_session(id2) == old(
                            self,
                        ).has_session(id2)
                    &&& forall|id2: u32|
                        id2 != session_id && old(self).has_session(id2)
                            ==> #[trigger] final(self).session_of(id2) == old(self).session_of(
                            id2,
                        ) && final(self).participants_of(id2) == old(self).participants_of(id2)
                    &&& final(self).events@ == old(self).events@.push(
                        DrawEvent::Winner {
                            session_id,
                            winner_index: idx,
                            winner: old(self).participants_of(session_id)[idx as int],
                            secret,
                            count: old(self).session_of(session_id).num_participants,
                        },
                    )
                },
                Err(e) => {
                    &&& *final(self) == *old(self)
                    &&& match old(self).reveal_guard(caller, session_id, secret, salt@) {
                        Some(g) => e == g,
                        None => e == DrawError::ExternalServiceFailed,
                    }
                },
            },
    {
        let i = match self.find_entry_index(session_id) {
            Some(i) => i,
            None => { return Err(DrawError::SessionNotFound) },
        };
        proof {
            lemma_index_of_id(self.entries@, session_id, i as int);
        }
        if caller != self.entries[i].session.organizer {
            return Err(DrawError::NotOrganizer);
        }
        if self.entries[i].session.phase != DrawPhase::Closed {
            return Err(DrawError::SessionNotClosed);
        }
        if secret == 0 {
            return Err(DrawError::InvalidSecret);
        }
        let commitment = self.entries[i].session.commitment;
        if !verify_commitment(secret, salt, &commitment) {
            return Err(DrawError::CommitmentMismatch);
        }
        if self.game_hub.is_none() {
            return Err(DrawError::NotInitialized);
        }
        let count = self.entries[i].session.num_participants;
        let widx = compute_winner_index(secret, count);
        let winner = self.entries[i].participants[widx as usize];
        let organizer = self.entries[i].session.organizer;
        match hub.start_game(
            self.contract_address,
            session_id,
            organizer,
            winner,
            count as i128,
            widx as i128,
        ) {
            Ok(()) => {},
            Err(_) => { return Err(DrawError::ExternalServiceFailed) },
        }
        match hub.end_game(session_id, true) {
            Ok(()) => {},
            Err(_) => { return Err(DrawError::ExternalServiceFailed) },
        }
        let ghost pre = self.entries@;
        self.entries[i].session.phase = DrawPhase::Revealed;
        self.entries[i].session.winner_index = widx;
        self.events.push(
            DrawEvent::Winner { session_id, winner_index: widx, winner, secret, count },
        );
        proof {
            let e2 = self.entries@[i as int];
            assert(self.entries@ =~= pre.update(i as int, e2));
            lemma_entries_update(pre, i as int, e2);
            assert forall|id2: u32| #[trigger] old(self).has_session(id2) implies
                self.has_session(id2) && self.session_of(id2).organizer == old(
                self,
            ).session_of(id2).organizer && self.session_of(id2).commitment == old(
                self,
            ).session_of(id2).commitment && phase_le(
                old(self).session_of(id2).phase,
                self.session_of(id2).phase,
            ) by {
                if id2 == session_id {
                    lemma_index_of_id(pre, session_id, i as int);
                }
            }
            lemma_index_of_id(pre, session_id, i as int);
        }
        Ok(widx)
    }

    /// An honest reveal is never rejected by the protocol's own guards: when
    /// the organizer of a Closed session in an initialized registry reveals a
    /// nonzero secret whose stored commitment is the digest of exactly this
    /// `(secret, salt)` pair, `reveal_winner` can fail only if the external
    /// service does.
    pub proof fn lemma_honest_reveal_passes_guards(
        self,
        caller: Identity,
        session_id: u32,
        secret: u64,
        salt: Seq<u8>,
    )
        requires
            self.has_session(session_id),
            caller == self.session_of(session_id).organizer,
            self.session_of(session_id).phase is Closed,
            secret != 0,
            self.session_of(session_id).commitment@ == sha256_of(preimage_of(secret, salt)),
            self.initialized(),
        ensures
            self.reveal_guard(caller, session_id, secret, salt) is None,
    {
    }

    /// The stored address of the external game-tracking service, for the
    /// host to build its transport from.
    pub fn game_hub_address(&self) -> (r: Option<Identity>)
        ensures
            r == self.game_hub,
    {
        self.game_hub
    }

    /// The notifications emitted so far, oldest first.
    pub fn event_log(&self) -> (r: &Vec<DrawEvent>)
        ensures
            r@ == self.events@,
    {
        &self.events
    }
}

} // verus!
