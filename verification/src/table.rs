//! The sessions of a server: one engine for each session id.
//!
//! The table routes every request to the session that it names. A request
//! that names none opens a new session; a session that closes leaves the
//! table, and its id then names nothing.

use crate::engine::{
    fresh_session, lemma_accept_keeps_session, open_step, receive_step, Engine, EngineConfig,
    EngineError, Handshake, Responder, SessionState, SessionView, Sid,
};
use crate::packet::{bare, Packet, PacketType, PacketView};
use crate::payload::parse_payload;
use crate::transport::TransportType;
use vstd::prelude::*;

verus! {

/// The place of the first session with the given id, if there is one.
pub open spec fn first_named(sessions: Seq<SessionView>, sid: Seq<char>) -> Option<int>
    decreases sessions.len(),
{
    if sessions.len() == 0 {
        None
    } else {
        match first_named(sessions.drop_last(), sid) {
            Some(place) => Some(place),
            None => if sessions.last().sid == Some(sid) {
                Some(sessions.len() - 1)
            } else {
                None
            },
        }
    }
}

/// What holds of every table: its sessions are established, open and well
/// formed, and no two of them have the same id.
pub open spec fn table_wf(sessions: Seq<SessionView>) -> bool {
    &&& forall|i: int|
        0 <= i < sessions.len() ==> {
            &&& (#[trigger] sessions[i]).wf()
            &&& sessions[i].sid is Some
            &&& !sessions[i].closed
        }
    &&& forall|i: int, j: int|
        0 <= i < j < sessions.len() ==> (#[trigger] sessions[i]).sid != (#[trigger] sessions[j]).sid
}

/// The table after a session has moved on: a closed session is gone, any
/// other stands where it stood.
pub open spec fn settled(sessions: Seq<SessionView>, place: int, next: SessionView) -> Seq<
    SessionView,
> {
    if next.closed {
        sessions.remove(place)
    } else {
        sessions.update(place, next)
    }
}

/// A request that names no session, arriving on `via`: the new table, or
/// the refusal. The new session gets the id `fresh`, which no session of
/// the table may have.
pub open spec fn table_open_step(
    sessions: Seq<SessionView>,
    via: TransportType,
    fresh: Seq<char>,
) -> Result<Seq<SessionView>, EngineError> {
    match open_step(fresh_session(via), via, fresh) {
        Err(error) => Err(error),
        Ok(session) => if first_named(sessions, fresh) is Some {
            Err(EngineError::SIDMismatch)
        } else {
            Ok(sessions.push(session))
        },
    }
}

/// A request that names the session `sid`, arriving on `via` with the text
/// `body`: the new table, the packet to answer with and the packets handed
/// to the responder, or the refusal. An id that names no session of the
/// table is refused.
pub open spec fn table_receive_step(
    sessions: Seq<SessionView>,
    via: TransportType,
    sid: Seq<char>,
    body: Seq<char>,
) -> Result<(Seq<SessionView>, Option<PacketView>, Seq<PacketView>), EngineError> {
    match first_named(sessions, sid) {
        None => Err(EngineError::SIDMismatch),
        Some(place) => match receive_step(sessions[place], via, sid, body) {
            Err(error) => Err(error),
            Ok((next, reply, delivered)) => Ok((settled(sessions, place, next), reply, delivered)),
        },
    }
}

/// `first_named` finds the first session with the id, and finds none only
/// where none has it.
pub proof fn lemma_first_named(sessions: Seq<SessionView>, sid: Seq<char>)
    ensures
        match first_named(sessions, sid) {
            Some(place) => {
                &&& 0 <= place < sessions.len()
                &&& sessions[place].sid == Some(sid)
                &&& forall|i: int| 0 <= i < place ==> (#[trigger] sessions[i]).sid != Some(sid)
            },
            None => forall|i: int|
                0 <= i < sessions.len() ==> (#[trigger] sessions[i]).sid != Some(sid),
        },
    decreases sessions.len(),
{
    if sessions.len() > 0 {
        let front = sessions.drop_last();
        lemma_first_named(front, sid);
        match first_named(front, sid) {
            Some(place) => {
                assert(front[place] == sessions[place]);
                assert forall|i: int| 0 <= i < place implies (#[trigger] sessions[i]).sid != Some(
                    sid,
                ) by {
                    assert(front[i] == sessions[i]);
                }
            },
            None => {
                assert forall|i: int| 0 <= i < front.len() implies (#[trigger] sessions[i]).sid
                    != Some(sid) by {
                    assert(front[i] == sessions[i]);
                }
            },
        }
    }
}

/// In a table each id names at most one session: the session that
/// `first_named` finds is the only one with the id.
pub proof fn lemma_one_session_per_sid(sessions: Seq<SessionView>, sid: Seq<char>, place: int)
    requires
        table_wf(sessions),
        0 <= place < sessions.len(),
        sessions[place].sid == Some(sid),
    ensures
        first_named(sessions, sid) == Some(place),
{
    lemma_first_named(sessions, sid);
}

/// Every accepted request leaves a table a table: the handshake adds a
/// session under an id that was free, and a request for a session leaves
/// the ids of all sessions as they were, or removes the session that it
/// closed.
pub proof fn lemma_table_stays_wf(
    sessions: Seq<SessionView>,
    via: TransportType,
    sid: Seq<char>,
    body: Seq<char>,
)
    requires
        table_wf(sessions),
        sid.len() > 0,
    ensures
        table_open_step(sessions, via, sid) matches Ok(next) ==> table_wf(next),
        table_receive_step(sessions, via, sid, body) matches Ok((next, _, _)) ==> table_wf(next),
{
    lemma_first_named(sessions, sid);
    match first_named(sessions, sid) {
        Some(place) => {
            match parse_payload(body) {
                Ok(packets) => {
                    lemma_accept_keeps_session(sessions[place], via, packets);
                },
                Err(_) => {},
            }
        },
        None => {},
    }
}

/// The sessions of a server, each under its own id.
#[derive(Debug)]
pub struct SessionTable<R: Responder> {
    engines: Vec<Engine<R>>,
    config: EngineConfig,
}

impl<R: Responder> View for SessionTable<R> {
    type V = Seq<SessionView>;

    closed spec fn view(&self) -> Seq<SessionView> {
        self.engines@.map_values(|engine: Engine<R>| engine@)
    }
}

impl<R: Responder> SessionTable<R> {
    /// The policy values that the sessions of the table get.
    pub closed spec fn config_of(self) -> EngineConfig {
        self.config
    }

    /// Whether every engine of the table has the table's policy values.
    pub closed spec fn uniform(self) -> bool {
        forall|i: int|
            0 <= i < self.engines@.len() ==> (#[trigger] self.engines@[i]).config_of()
                == self.config
    }

    /// The table without sessions.
    pub fn new(config: EngineConfig) -> (table: SessionTable<R>)
        ensures
            table@ == Seq::<SessionView>::empty(),
            table_wf(table@),
            table.config_of() == config,
            table.uniform(),
    {
        let table = SessionTable { engines: Vec::new(), config };
        assert(table@ =~= Seq::<SessionView>::empty());
        table
    }

    /// Number of sessions in the table.
    pub fn len(&self) -> (len: usize)
        ensures
            len == self@.len(),
    {
        self.engines.len()
    }

    /// The place of the session with the given id.
    pub fn find(&self, sid: &Sid) -> (place: Option<usize>)
        ensures
            match place {
                Some(place) => first_named(self@, sid@) == Some(place as int) && place
                    < self@.len(),
                None => first_named(self@, sid@) is None,
            },
    {
        let mut i: usize = 0;
        proof {
            assert(self@.take(0) =~= Seq::<SessionView>::empty());
        }
        while i < self.engines.len()
            invariant
                i <= self.engines.len(),
                first_named(self@.take(i as int), sid@) is None,
            decreases self.engines.len() - i,
        {
            proof {
                assert(self@.take(i + 1).drop_last() =~= self@.take(i as int));
                assert(self@.take(i + 1).last() == self.engines@[i as int]@);
                lemma_first_named(self@, sid@);
                lemma_first_named(self@.take(i as int), sid@);
            }
            let named = match self.engines[i].sid() {
                Some(own) => own.same(sid),
                None => false,
            };
            if named {
                proof {
                    assert(self@[i as int].sid == Some(sid@));
                    assert forall|j: int| 0 <= j < i implies (#[trigger] self@[j]).sid != Some(
                        sid@,
                    ) by {
                        assert(self@.take(i as int)[j] == self@[j]);
                    }
                }
                return Some(i);
            }
            i += 1;
        }
        proof {
            assert(self@.take(i as int) =~= self@);
        }
        None
    }

    /// The engine of the session with the given id.
    pub fn get(&self, sid: &Sid) -> (engine: Option<&Engine<R>>)
        ensures
            match engine {
                Some(engine) => first_named(self@, sid@) matches Some(place) && self@[place]
                    == engine@,
                None => first_named(self@, sid@) is None,
            },
    {
        match self.find(sid) {
            Some(place) => Some(&self.engines[place]),
            None => None,
        }
    }

    /// Handles a request that names no session: opens a session under the
    /// id `fresh` with the given responder, where the transport allows it
    /// and the id is free. A refused request changes nothing.
    pub fn open(&mut self, via: TransportType, fresh: Sid, responder: R) -> (res: Result<
        Handshake,
        EngineError,
    >)
        ensures
            match res {
                Ok(handshake) => {
                    &&& table_open_step(old(self)@, via, fresh@) == Ok::<
                        Seq<SessionView>,
                        EngineError,
                    >(final(self)@)
                    &&& handshake.sid@ == fresh@
                    &&& handshake.config == old(self).config_of()
                },
                Err(error) => table_open_step(old(self)@, via, fresh@) == Err::<
                    Seq<SessionView>,
                    EngineError,
                >(error) && final(self)@ == old(self)@,
            },
            final(self).config_of() == old(self).config_of(),
            old(self).uniform() ==> final(self).uniform(),
            table_wf(old(self)@) ==> table_wf(final(self)@),
    {
        let ghost before = self@;
        let mut engine = Engine::new(via, responder).with_config(self.config);
        let taken = self.find(&fresh).is_some();
        let ghost name = fresh@;
        proof {
            use_type_invariant(&fresh);
        }
        let handshake = match engine.open(via, fresh) {
            Ok(handshake) => handshake,
            Err(error) => {
                return Err(error);
            },
        };
        if taken {
            return Err(EngineError::SIDMismatch);
        }
        self.engines.push(engine);
        proof {
            assert(self@ =~= before.push(engine@));
            lemma_first_named(before, name);
            if table_wf(before) {
                assert(table_wf(self@));
            }
        }
        Ok(handshake)
    }

    /// Handles a request that names the session `sid`: hands it to the
    /// engine of that session, which hands the accepted payload to its
    /// responder, and drops the session where the request closed it. What
    /// comes back is the packet to answer with, if any. A refused request
    /// changes nothing.
    pub fn handle(&mut self, via: TransportType, sid: &Sid, body: &str) -> (res: Result<
        Option<Packet>,
        EngineError,
    >)
        ensures
            match res {
                Ok(reply) => table_receive_step(old(self)@, via, sid@, body@) matches Ok(
                    (next, answer, _),
                ) && next == final(self)@ && answer == (match reply {
                    Some(packet) => Some(packet@),
                    None => None,
                }),
                Err(error) => table_receive_step(old(self)@, via, sid@, body@) == Err::<
                    (Seq<SessionView>, Option<PacketView>, Seq<PacketView>),
                    EngineError,
                >(error) && final(self)@ == old(self)@,
            },
            final(self).config_of() == old(self).config_of(),
            old(self).uniform() ==> final(self).uniform(),
            table_wf(old(self)@) ==> table_wf(final(self)@),
    {
        let ghost before = self@;
        let ghost engines = self.engines@;
        let place = match self.find(sid) {
            Some(place) => place,
            None => {
                return Err(EngineError::SIDMismatch);
            },
        };
        let mut engine = self.engines.remove(place);
        let ghost session = engine@;
        let res = engine.handle(via, sid, body);
        let closed = res.is_ok() && engine.state() == SessionState::Closed;
        let ghost next = engine@;
        if !closed {
            self.engines.insert(place, engine);
        }
        proof {
            assert(session == before[place as int]);
            if closed {
                assert(self@ =~= before.remove(place as int));
                assert forall|i: int| 0 <= i < self.engines@.len() implies (
                #[trigger] self.engines@[i]).config_of() == engines[if i < place {
                    i
                } else {
                    i + 1
                }].config_of() by {}
            } else {
                assert(self@ =~= before.update(place as int, next));
                assert forall|i: int| 0 <= i < self.engines@.len() && i
                    != place implies #[trigger] self.engines@[i] == engines[i] by {}
            }
            if table_wf(before) {
                use_type_invariant(sid);
                lemma_table_stays_wf(before, via, sid@, body@);
            }
        }
        res
    }

    /// The heartbeat of the server for the session with the given id: the
    /// bare ping to send to the client. From now on the session awaits a
    /// pong. An id that names no open session gets none.
    pub fn ping(&mut self, sid: &Sid) -> (res: Option<Packet>)
        ensures
            match first_named(old(self)@, sid@) {
                Some(place) if !old(self)@[place].closed => {
                    &&& res matches Some(packet)
                    &&& packet@ == bare(PacketType::Ping)
                    &&& final(self)@ == old(self)@.update(
                        place,
                        SessionView { awaiting_pong: true, ..old(self)@[place] },
                    )
                },
                _ => res is None && final(self)@ == old(self)@,
            },
            final(self).config_of() == old(self).config_of(),
            old(self).uniform() ==> final(self).uniform(),
            table_wf(old(self)@) ==> table_wf(final(self)@),
    {
        let ghost before = self@;
        let ghost engines = self.engines@;
        let place = match self.find(sid) {
            Some(place) => place,
            None => {
                return None;
            },
        };
        let mut engine = self.engines.remove(place);
        proof {
            lemma_first_named(before, sid@);
            assert(engine@ == before[place as int]);
        }
        let res = engine.ping();
        let ghost next = engine@;
        self.engines.insert(place, engine);
        proof {
            assert(self@ =~= before.update(place as int, next));
            assert forall|i: int| 0 <= i < self.engines@.len() && i
                != place implies #[trigger] self.engines@[i] == engines[i] by {}
        }
        res
    }

    /// Drops the session with the given id after a failure of the
    /// persistent transport, and wraps the transport's error for the caller
    /// as it is.
    pub fn fail(&mut self, sid: &Sid, cause: tungstenite::Error) -> (error: EngineError)
        ensures
            error == EngineError::ConnWebsocketErr(cause),
            match first_named(old(self)@, sid@) {
                Some(place) => final(self)@ == old(self)@.remove(place),
                None => final(self)@ == old(self)@,
            },
            final(self).config_of() == old(self).config_of(),
            old(self).uniform() ==> final(self).uniform(),
            table_wf(old(self)@) ==> table_wf(final(self)@),
    {
        let _ = self.close(sid);
        EngineError::ConnWebsocketErr(cause)
    }

    /// Drops the session with the given id, as the transport boundary does
    /// when the connection times out or goes away. Says whether there was
    /// one.
    pub fn close(&mut self, sid: &Sid) -> (closed: bool)
        ensures
            closed == (first_named(old(self)@, sid@) is Some),
            match first_named(old(self)@, sid@) {
                Some(place) => final(self)@ == old(self)@.remove(place),
                None => final(self)@ == old(self)@,
            },
            final(self).config_of() == old(self).config_of(),
            old(self).uniform() ==> final(self).uniform(),
            table_wf(old(self)@) ==> table_wf(final(self)@),
    {
        let ghost before = self@;
        let ghost engines = self.engines@;
        match self.find(sid) {
            Some(place) => {
                let _ = self.engines.remove(place);
                proof {
                    assert(self@ =~= before.remove(place as int));
                    assert forall|i: int| 0 <= i < self.engines@.len() implies (
                    #[trigger] self.engines@[i]).config_of() == engines[if i < place {
                        i
                    } else {
                        i + 1
                    }].config_of() by {}
                }
                true
            },
            None => false,
        }
    }
}

} // verus!
