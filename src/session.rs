use vstd::prelude::*;
use crate::routing::{
    apply_event, discovery_state, is_known, lemma_state_after_discover, lemma_state_after_link, Discovery, MediaKind, RouteEvent, RouteState, RoutingController, RoutingTable,
};
use crate::segment::{
    drain_state, finalize_state, push_state, room_for_buffer, Finalize, RolloverPolicy, SegmentWriter,
};
use crate::supervisor::{next, Command, ControlEvent, Phase, Supervisor};

verus! {

/// Why a buffer was not taken by the writer.
#[derive(Clone, Copy, Debug, PartialEq, Eq, Structural)]
pub enum BufferError {
    /// The session is not running or draining.
    NotFlowing,
    /// No track with this id is `Routed`.
    NotRouted,
    /// The buffer's timestamp plus its duration does not fit in 64 bits.
    TimestampOverflow,
    /// Every sequence number has been used.
    SequenceExhausted,
}

/// One recording session: the supervisor, the routing controller and the
/// segment writer, driven by the events that the surrounding process feeds it.
pub struct Session {
    pub supervisor: Supervisor,
    pub router: RoutingController,
    pub writer: SegmentWriter,
}

/// The writer has no open segment and nothing waiting to be finalized.
pub open spec fn writer_settled(w: &SegmentWriter) -> bool {
    w.open is None && w.closing@.len() == 0
}

impl Session {
    pub open spec fn wf(&self) -> bool {
        self.router.wf() && self.writer.wf()
    }

    /// A session in `Idle` with the given routing table and writer settings.
    pub fn new(table: RoutingTable, policy: RolloverPolicy, start_index: u64, max_failures: u64) -> (r: Session)
        requires
            table.wf(),
            start_index < u64::MAX,
        ensures
            r.wf(),
            r.supervisor == Supervisor::new_spec(),
            r.router.table == table,
            r.router.tracks@.len() == 0,
            r.writer.policy == policy,
            r.writer.start_index == start_index,
            r.writer.max_failures == max_failures,
            r.writer@.open is None,
            r.writer@.closing.len() == 0,
            r.writer@.files.len() == 0,
    {
        Session {
            supervisor: Supervisor::new(),
            router: RoutingController::new(table),
            writer: SegmentWriter::new(policy, start_index, max_failures),
        }
    }

    /// Handles a discovery event; tracks are only routed while the session runs.
    pub fn on_discovery(&mut self, id: u64, kind: MediaKind) -> (d: Discovery)
        requires
            old(self).wf(),
        ensures
            final(self).wf(),
            final(self).supervisor == old(self).supervisor,
            final(self).writer == old(self).writer,
            final(self).router.table == old(self).router.table,
            final(self).router.tracks@ == apply_event(
                old(self).router.table.kinds(),
                old(self).router.tracks@,
                RouteEvent::Discovered { id, kind, accepting: old(self).supervisor.phase is Running },
            ),
            is_known(old(self).router.tracks@, id) ==> d is Duplicate,
            !is_known(old(self).router.tracks@, id) ==> match discovery_state(
                old(self).router.table.kinds(),
                old(self).router.tracks@,
                kind,
                old(self).supervisor.phase is Running,
            ) {
                RouteState::Failed(why) => d == Discovery::Rejected(why),
                _ => d matches Discovery::Link { blueprint } && blueprint < old(self).router.table.blueprints.len()
                    && old(self).router.table.blueprints@[blueprint as int].kind == kind,
            },
            forall|o: u64| o != id ==> #[trigger] final(self).router.state_spec(o) == old(self).router.state_spec(o)
                && final(self).router.kind_spec(o) == old(self).router.kind_spec(o),
            final(self).router.state_spec(id) == (match d {
                Discovery::Duplicate => old(self).router.state_spec(id),
                Discovery::Link { .. } => RouteState::Routing,
                Discovery::Rejected(why) => RouteState::Failed(why),
            }),
    {
        let accepting = self.supervisor.accepting();
        let d = self.router.discover(id, kind, accepting);
        proof {
            lemma_state_after_discover(old(self).router.table.kinds(), old(self).router.tracks@, id, kind, accepting);
        }
        d
    }

    /// Records the outcome of linking a track's chain.
    pub fn on_link(&mut self, id: u64, ok: bool) -> (r: Option<RouteState>)
        requires
            old(self).wf(),
        ensures
            final(self).wf(),
            final(self).supervisor == old(self).supervisor,
            final(self).writer == old(self).writer,
            final(self).router.table == old(self).router.table,
            final(self).router.tracks@ == apply_event(
                old(self).router.table.kinds(),
                old(self).router.tracks@,
                RouteEvent::Linked { id, ok },
            ),
            r is Some <==> old(self).router.state_spec(id) is Routing,
            forall|o: u64| o != id ==> #[trigger] final(self).router.state_spec(o) == old(self).router.state_spec(o)
                && final(self).router.kind_spec(o) == old(self).router.kind_spec(o),
            r matches Some(s) ==> s == crate::routing::link_state(ok) && final(self).router.state_spec(id) == s,
    {
        let r = self.router.link_result(id, ok);
        proof {
            lemma_state_after_link(old(self).router.table.kinds(), old(self).router.tracks@, id, ok);
        }
        r
    }

    /// Hands a buffer of a routed track to the writer. Buffers still flow
    /// while the session drains, so that data already in a chain is kept.
    /// Returns how many segments the buffer closed.
    pub fn on_buffer(&mut self, id: u64, pts: u64, dur: u64, size: u64) -> (r: Result<usize, BufferError>)
        requires
            old(self).wf(),
        ensures
            final(self).wf(),
            final(self).supervisor == old(self).supervisor,
            final(self).router == old(self).router,
            final(self).writer.policy == old(self).writer.policy,
            final(self).writer.start_index == old(self).writer.start_index,
            final(self).writer.max_failures == old(self).writer.max_failures,
            !(old(self).supervisor.phase is Running || old(self).supervisor.phase is Draining) ==> r == Err::<
                usize,
                BufferError,
            >(BufferError::NotFlowing),
            (old(self).supervisor.phase is Running || old(self).supervisor.phase is Draining) && !(old(
                self,
            ).router.state_spec(id) is Routed) ==> r == Err::<usize, BufferError>(BufferError::NotRouted),
            (old(self).supervisor.phase is Running || old(self).supervisor.phase is Draining) && old(
                self,
            ).router.state_spec(id) is Routed && pts + dur > u64::MAX ==> r == Err::<usize, BufferError>(
                BufferError::TimestampOverflow,
            ),
            (old(self).supervisor.phase is Running || old(self).supervisor.phase is Draining) && old(
                self,
            ).router.state_spec(id) is Routed && pts + dur <= u64::MAX && !room_for_buffer(
                old(self).writer.start_index,
                old(self).writer@,
            ) ==> r == Err::<usize, BufferError>(BufferError::SequenceExhausted),
            r is Err ==> final(self).writer == old(self).writer,
            r is Ok <==> ((old(self).supervisor.phase is Running || old(self).supervisor.phase is Draining)
                && old(self).router.state_spec(id) is Routed && pts + dur <= u64::MAX && room_for_buffer(
                old(self).writer.start_index,
                old(self).writer@,
            )),
            r matches Ok(closed) ==> closed == final(self).writer@.closing.len() - old(self).writer@.closing.len(),
            r is Ok ==> final(self).writer@ == push_state(
                old(self).writer.policy,
                old(self).writer@,
                old(self).router.kind_spec(id),
                pts,
                dur,
                size,
            ),
    {
        match self.supervisor.phase {
            Phase::Running | Phase::Draining => {},
            _ => {
                return Err(BufferError::NotFlowing);
            },
        }
        let kind = match self.router.routed_kind(id) {
            Some(k) => k,
            None => {
                return Err(BufferError::NotRouted);
            },
        };
        if pts > u64::MAX - dur {
            return Err(BufferError::TimestampOverflow);
        }
        if !self.writer.has_room() {
            return Err(BufferError::SequenceExhausted);
        }
        Ok(self.writer.push(kind, pts, dur, size))
    }

    /// The drain marker has reached the writer: the open segment is closed,
    /// however little it holds, so that it is finalized as a complete file.
    /// Only a draining session takes it. Returns whether a segment was closed.
    pub fn on_drain_reached(&mut self) -> (closed: bool)
        requires
            old(self).wf(),
        ensures
            final(self).wf(),
            final(self).supervisor == old(self).supervisor,
            final(self).router == old(self).router,
            final(self).writer.policy == old(self).writer.policy,
            final(self).writer.start_index == old(self).writer.start_index,
            final(self).writer.max_failures == old(self).writer.max_failures,
            old(self).supervisor.phase is Draining ==> final(self).writer@ == drain_state(old(self).writer@),
            !(old(self).supervisor.phase is Draining) ==> final(self).writer == old(self).writer,
            closed <==> (old(self).supervisor.phase is Draining && old(self).writer@.open is Some),
    {
        match self.supervisor.phase {
            Phase::Draining => self.writer.drain(),
            _ => false,
        }
    }

    /// Records how the oldest closed segment's finalize step ended. Once the
    /// run of failures passes the allowed count, the failure becomes a
    /// session-wide error, and the command that the supervisor gives for it
    /// is returned beside the outcome.
    pub fn on_finalized(&mut self, ok: bool) -> (r: (Option<Finalize>, Command))
        requires
            old(self).wf(),
        ensures
            final(self).wf(),
            final(self).router == old(self).router,
            final(self).writer.policy == old(self).writer.policy,
            final(self).writer.start_index == old(self).writer.start_index,
            final(self).writer.max_failures == old(self).writer.max_failures,
            final(self).writer@ == finalize_state(old(self).writer.start_index, old(self).writer@, ok),
            r.0 is None <==> old(self).writer@.closing.len() == 0,
            r.0 matches Some(f) ==> (if ok {
                f == Finalize::Finalized {
                    index: (old(self).writer.start_index + old(self).writer@.files.len()) as u64,
                }
            } else {
                f == Finalize::Failed { escalate: final(self).writer@.failures > old(self).writer.max_failures }
            }),
            (r.0 matches Some(Finalize::Failed { escalate: true })) ==> (final(self).supervisor, r.1) == next(
                old(self).supervisor,
                ControlEvent::SessionError,
            ),
            !(r.0 matches Some(Finalize::Failed { escalate: true })) ==> final(self).supervisor == old(
                self,
            ).supervisor && r.1 == Command::Nothing,
    {
        let f = self.writer.finalize_next(ok);
        match f {
            Some(Finalize::Failed { escalate: true }) => {
                let c = self.supervisor.handle(ControlEvent::SessionError);
                (f, c)
            },
            _ => (f, Command::Nothing),
        }
    }

    /// Handles a control event. A drain acknowledgement is taken only once
    /// the writer has no open segment and nothing left to finalize; before
    /// that it changes nothing.
    pub fn on_control(&mut self, ev: ControlEvent) -> (c: Command)
        requires
            old(self).wf(),
        ensures
            final(self).wf(),
            final(self).router == old(self).router,
            final(self).writer == old(self).writer,
            ev == ControlEvent::DrainAcknowledged && !writer_settled(&old(self).writer) ==> final(self).supervisor
                == old(self).supervisor && c == Command::Nothing,
            !(ev == ControlEvent::DrainAcknowledged && !writer_settled(&old(self).writer)) ==> (
            final(self).supervisor,
            c,
            ) == next(old(self).supervisor, ev),
    {
        if matches!(ev, ControlEvent::DrainAcknowledged) && !self.writer.is_settled() {
            return Command::Nothing;
        }
        self.supervisor.handle(ev)
    }
}

} // verus!
