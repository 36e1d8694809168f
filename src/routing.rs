use vstd::prelude::*;

verus! {

/// Kind of media carried by a discovered sub-stream.
#[derive(Clone, Copy, Debug, PartialEq, Eq, Structural)]
pub enum MediaKind {
    Audio,
    Video,
    Unknown,
}

/// Why a track ended in the `failed` routing state.
#[derive(Clone, Copy, Debug, PartialEq, Eq, Structural)]
pub enum FailReason {
    /// The routing table holds no blueprint for the track's kind.
    NoBlueprint,
    /// Another track of the same kind already holds that kind's output port
    /// (the policy for a second track of a kind is to reject it).
    KindTaken,
    /// The track was discovered after the session began draining.
    SessionDraining,
    /// Building or linking the track chain failed.
    LinkFailed,
}

/// The human-readable cause reported for a failed track.
pub open spec fn cause_text(why: FailReason) -> Seq<char> {
    match why {
        FailReason::NoBlueprint => "no route for this media kind"@,
        FailReason::KindTaken => "another track of this kind is already routed"@,
        FailReason::SessionDraining => "session draining"@,
        FailReason::LinkFailed => "track chain failed to link"@,
    }
}

impl FailReason {
    /// The cause as text, for the status stream.
    pub fn cause(&self) -> (r: String)
        ensures
            r@ == cause_text(*self),
    {
        match self {
            FailReason::NoBlueprint => "no route for this media kind".to_string(),
            FailReason::KindTaken => "another track of this kind is already routed".to_string(),
            FailReason::SessionDraining => "session draining".to_string(),
            FailReason::LinkFailed => "track chain failed to link".to_string(),
        }
    }
}

/// Routing state of one track. A track that was never discovered is `Unrouted`.
#[derive(Clone, Copy, Debug, PartialEq, Eq, Structural)]
pub enum RouteState {
    Unrouted,
    Routing,
    Routed,
    Failed(FailReason),
}

/// One discovered sub-stream and where it stands.
#[derive(Clone, Copy, Debug, PartialEq, Eq, Structural)]
pub struct Track {
    pub id: u64,
    pub kind: MediaKind,
    pub state: RouteState,
}

/// How a kind of media is processed: the stage names of its chain and the
/// name of the writer's port that the chain feeds.
#[derive(Clone, Debug)]
pub struct Blueprint {
    pub kind: MediaKind,
    pub stages: Vec<String>,
    pub port: String,
}

/// Errors in assembling a routing table.
#[derive(Clone, Copy, Debug, PartialEq, Eq, Structural)]
pub enum TableError {
    /// A blueprint for this kind is already in the table.
    DuplicateKind,
}

/// Mapping from media kind to blueprint: at most one blueprint per kind.
#[derive(Clone, Debug)]
pub struct RoutingTable {
    pub blueprints: Vec<Blueprint>,
}

/// What the controller decided on a discovery event.
#[derive(Clone, Copy, Debug, PartialEq, Eq, Structural)]
pub enum Discovery {
    /// The id was already discovered: the event is ignored.
    Duplicate,
    /// The track is now `Routing`: build the chain of this blueprint and
    /// report the outcome with `link_result`.
    Link { blueprint: usize },
    /// The track is now `Failed` for this reason.
    Rejected(FailReason),
}

/// One input of the routing state machine.
#[derive(Clone, Copy, Debug, PartialEq, Eq, Structural)]
pub enum RouteEvent {
    /// A sub-stream was discovered; `accepting` is false once the session drains.
    Discovered { id: u64, kind: MediaKind, accepting: bool },
    /// The chain of a `Routing` track was linked (`ok`) or failed to link.
    Linked { id: u64, ok: bool },
}

/// The kind named by a stream's `media` field.
pub open spec fn kind_of_media(media: Seq<char>) -> MediaKind {
    if media == "audio"@ {
        MediaKind::Audio
    } else if media == "video"@ {
        MediaKind::Video
    } else {
        MediaKind::Unknown
    }
}

/// Whether two strings hold the same characters.
fn same_text(a: &str, b: &str) -> (r: bool)
    ensures
        r == (a@ == b@),
{
    let n = a.unicode_len();
    if n != b.unicode_len() {
        return false;
    }
    let mut i: usize = 0;
    while i < n
        invariant
            n == a@.len(),
            n == b@.len(),
            i <= n,
            forall|k: int| 0 <= k < i ==> a@[k] == b@[k],
        decreases n - i,
    {
        if a.get_char(i) != b.get_char(i) {
            return false;
        }
        i += 1;
    }
    assert(a@ =~= b@);
    true
}

/// Classifies a stream by its `media` field: `audio`, `video`, or anything
/// else as unknown.
pub fn classify_media(media: &str) -> (k: MediaKind)
    ensures
        k == kind_of_media(media@),
{
    if same_text(media, "audio") {
        MediaKind::Audio
    } else if same_text(media, "video") {
        MediaKind::Video
    } else {
        MediaKind::Unknown
    }
}

pub open spec fn is_terminal(s: RouteState) -> bool {
    s is Routed || s is Failed
}

pub open spec fn holds_port(t: Track) -> bool {
    t.state is Routing || t.state is Routed
}

pub open spec fn is_known(tracks: Seq<Track>, id: u64) -> bool {
    exists|i: int| 0 <= i < tracks.len() && #[trigger] tracks[i].id == id
}

pub open spec fn kind_claimed(tracks: Seq<Track>, kind: MediaKind) -> bool {
    exists|i: int| 0 <= i < tracks.len() && #[trigger] tracks[i].kind == kind && holds_port(tracks[i])
}

pub open spec fn ids_unique(tracks: Seq<Track>) -> bool {
    forall|i: int, j: int|
        0 <= i < tracks.len() && 0 <= j < tracks.len() && i != j ==> #[trigger] tracks[i].id != #[trigger] tracks[j].id
}

/// At most one track of each kind holds that kind's port.
pub open spec fn one_port_per_kind(tracks: Seq<Track>) -> bool {
    forall|i: int, j: int|
        0 <= i < tracks.len() && 0 <= j < tracks.len() && i != j && holds_port(#[trigger] tracks[i])
            && holds_port(#[trigger] tracks[j]) ==> tracks[i].kind != tracks[j].kind
}

/// No stored track is `Unrouted`: discovery always moves a track on.
pub open spec fn all_discovered(tracks: Seq<Track>) -> bool {
    forall|i: int| 0 <= i < tracks.len() ==> !(#[trigger] tracks[i].state is Unrouted)
}

pub open spec fn tracks_wf(tracks: Seq<Track>) -> bool {
    ids_unique(tracks) && one_port_per_kind(tracks) && all_discovered(tracks)
}

/// The state a newly discovered track enters.
pub open spec fn discovery_state(
    kinds: Seq<MediaKind>,
    tracks: Seq<Track>,
    kind: MediaKind,
    accepting: bool,
) -> RouteState {
    if !accepting {
        RouteState::Failed(FailReason::SessionDraining)
    } else if !kinds.contains(kind) {
        RouteState::Failed(FailReason::NoBlueprint)
    } else if kind_claimed(tracks, kind) {
        RouteState::Failed(FailReason::KindTaken)
    } else {
        RouteState::Routing
    }
}

/// The state a `Routing` track enters once its chain is linked or not.
pub open spec fn link_state(ok: bool) -> RouteState {
    if ok {
        RouteState::Routed
    } else {
        RouteState::Failed(FailReason::LinkFailed)
    }
}

/// The tracks after one event.
pub open spec fn apply_event(kinds: Seq<MediaKind>, tracks: Seq<Track>, ev: RouteEvent) -> Seq<Track> {
    match ev {
        RouteEvent::Discovered { id, kind, accepting } => {
            if is_known(tracks, id) {
                tracks
            } else {
                tracks.push(Track { id, kind, state: discovery_state(kinds, tracks, kind, accepting) })
            }
        },
        RouteEvent::Linked { id, ok } => {
            if exists|i: int| 0 <= i < tracks.len() && tracks[i].id == id && #[trigger] tracks[i].state is Routing {
                let i = choose|i: int| 0 <= i < tracks.len() && tracks[i].id == id && #[trigger] tracks[i].state is Routing;
                tracks.update(i, Track { id, kind: tracks[i].kind, state: link_state(ok) })
            } else {
                tracks
            }
        },
    }
}

/// The tracks after a sequence of events.
pub open spec fn apply_events(kinds: Seq<MediaKind>, tracks: Seq<Track>, evs: Seq<RouteEvent>) -> Seq<Track>
    decreases evs.len(),
{
    if evs.len() == 0 {
        tracks
    } else {
        apply_events(kinds, apply_event(kinds, tracks, evs[0]), evs.subrange(1, evs.len() as int))
    }
}


/// One event keeps the track ids unique and at most one track per kind on a
/// port; it never drops, reorders or renames a track, and a track that has
/// reached `Routed` or `Failed` stays exactly as it was.
pub proof fn lemma_event_keeps_terminal(kinds: Seq<MediaKind>, tracks: Seq<Track>, ev: RouteEvent)
    requires
        tracks_wf(tracks),
    ensures
        tracks_wf(apply_event(kinds, tracks, ev)),
        apply_event(kinds, tracks, ev).len() >= tracks.len(),
        forall|i: int| 0 <= i < tracks.len() ==> (#[trigger] apply_event(kinds, tracks, ev)[i]).id == tracks[i].id
            && apply_event(kinds, tracks, ev)[i].kind == tracks[i].kind,
        forall|i: int|
            0 <= i < tracks.len() && is_terminal(#[trigger] tracks[i].state) ==> apply_event(kinds, tracks, ev)[i]
                == tracks[i],
{
    let after = apply_event(kinds, tracks, ev);
    match ev {
        RouteEvent::Discovered { id, kind, accepting } => {
            if !is_known(tracks, id) {
                let n = tracks.len() as int;
                assert forall|i: int, j: int|
                    0 <= i < after.len() && 0 <= j < after.len() && i != j implies #[trigger] after[i].id
                    != #[trigger] after[j].id by {
                    if i == n {
                        assert(tracks[j].id == after[j].id);
                    } else if j == n {
                        assert(tracks[i].id == after[i].id);
                    }
                }
                assert forall|i: int, j: int|
                    0 <= i < after.len() && 0 <= j < after.len() && i != j && holds_port(#[trigger] after[i])
                        && holds_port(#[trigger] after[j]) implies after[i].kind != after[j].kind by {
                    if i == n {
                        assert(after[j] == tracks[j]);
                    } else if j == n {
                        assert(after[i] == tracks[i]);
                    }
                }
            }
        },
        RouteEvent::Linked { id, ok } => {
            if exists|i: int| 0 <= i < tracks.len() && tracks[i].id == id && #[trigger] tracks[i].state is Routing {
                let p = choose|i: int| 0 <= i < tracks.len() && tracks[i].id == id && #[trigger] tracks[i].state is Routing;
                assert forall|i: int, j: int|
                    0 <= i < after.len() && 0 <= j < after.len() && i != j implies #[trigger] after[i].id
                    != #[trigger] after[j].id by {
                    assert(after[i].id == tracks[i].id && after[j].id == tracks[j].id);
                }
                assert forall|i: int, j: int|
                    0 <= i < after.len() && 0 <= j < after.len() && i != j && holds_port(#[trigger] after[i])
                        && holds_port(#[trigger] after[j]) implies after[i].kind != after[j].kind by {
                    assert(holds_port(tracks[i]) && holds_port(tracks[j]));
                }
                assert forall|i: int|
                    0 <= i < tracks.len() && is_terminal(#[trigger] tracks[i].state) implies after[i] == tracks[i] by {
                    if i == p {
                        assert(tracks[p].state is Routing);
                    }
                }
            }
        },
    }
}

/// Over any sequence of events, every track reaches at most one terminal
/// state: once `Routed` or `Failed` it never changes again, so no track is
/// routed twice; ids stay unique and each kind's port is held by at most one
/// track.
pub proof fn lemma_terminal_state_is_final(kinds: Seq<MediaKind>, tracks: Seq<Track>, evs: Seq<RouteEvent>)
    requires
        tracks_wf(tracks),
    ensures
        tracks_wf(apply_events(kinds, tracks, evs)),
        apply_events(kinds, tracks, evs).len() >= tracks.len(),
        forall|i: int| 0 <= i < tracks.len() ==> (#[trigger] apply_events(kinds, tracks, evs)[i]).id == tracks[i].id
            && apply_events(kinds, tracks, evs)[i].kind == tracks[i].kind,
        forall|i: int|
            0 <= i < tracks.len() && is_terminal(#[trigger] tracks[i].state) ==> apply_events(kinds, tracks, evs)[i]
                == tracks[i],
    decreases evs.len(),
{
    if evs.len() > 0 {
        let next = apply_event(kinds, tracks, evs[0]);
        lemma_event_keeps_terminal(kinds, tracks, evs[0]);
        lemma_terminal_state_is_final(kinds, next, evs.subrange(1, evs.len() as int));
        assert forall|i: int| 0 <= i < tracks.len() && is_terminal(#[trigger] tracks[i].state) implies
            apply_events(kinds, tracks, evs)[i] == tracks[i] by {
            assert(next[i] == tracks[i]);
        }
        assert forall|i: int| 0 <= i < tracks.len() implies (#[trigger] apply_events(kinds, tracks, evs)[i]).id
            == tracks[i].id && apply_events(kinds, tracks, evs)[i].kind == tracks[i].kind by {
            assert(next[i].id == tracks[i].id);
        }
    }
}

/// A new track reaches a terminal state once its discovery has been handled
/// and, where it went to `Routing`, its link outcome reported.
pub proof fn lemma_discovered_track_terminates(
    kinds: Seq<MediaKind>,
    tracks: Seq<Track>,
    id: u64,
    kind: MediaKind,
    accepting: bool,
    ok: bool,
)
    requires
        tracks_wf(tracks),
        !is_known(tracks, id),
    ensures
        ({
            let after = apply_events(
                kinds,
                tracks,
                seq![RouteEvent::Discovered { id, kind, accepting }, RouteEvent::Linked { id, ok }],
            );
            &&& after.len() == tracks.len() + 1
            &&& after[tracks.len() as int].id == id
            &&& after[tracks.len() as int].kind == kind
            &&& is_terminal(after[tracks.len() as int].state)
        }),
{
    let evs = seq![RouteEvent::Discovered { id, kind, accepting }, RouteEvent::Linked { id, ok }];
    let s1 = apply_event(kinds, tracks, evs[0]);
    let n = tracks.len() as int;
    lemma_event_keeps_terminal(kinds, tracks, evs[0]);
    let s2 = apply_event(kinds, s1, evs[1]);
    assert(s1[n].id == id);
    if s1[n].state is Routing {
        let p = choose|i: int| 0 <= i < s1.len() && s1[i].id == id && #[trigger] s1[i].state is Routing;
        assert(p == n);
    } else {
        assert forall|i: int| 0 <= i < s1.len() && s1[i].id == id implies !(#[trigger] s1[i].state is Routing) by {
            assert(i == n);
        }
    }
    let rest = evs.subrange(1, 2);
    assert(rest =~= seq![evs[1]]);
    assert(rest.subrange(1, 1) =~= Seq::<RouteEvent>::empty());
    assert(apply_events(kinds, s2, rest.subrange(1, 1)) == s2);
    assert(apply_events(kinds, s1, rest) == s2);
    assert(apply_events(kinds, tracks, evs) == s2);
    assert(s2.len() == s1.len());
    assert(s2[n].id == id);
    assert(is_terminal(s2[n].state));
}

/// A track whose kind the table does not route fails at discovery and never
/// holds an output port, whatever events follow.
pub proof fn lemma_unmatched_kind_never_routed(
    kinds: Seq<MediaKind>,
    tracks: Seq<Track>,
    id: u64,
    kind: MediaKind,
    accepting: bool,
    evs: Seq<RouteEvent>,
)
    requires
        tracks_wf(tracks),
        !is_known(tracks, id),
        !kinds.contains(kind),
    ensures
        ({
            let after = apply_events(kinds, apply_event(kinds, tracks, RouteEvent::Discovered { id, kind, accepting }), evs);
            &&& after.len() > tracks.len()
            &&& after[tracks.len() as int].id == id
            &&& after[tracks.len() as int].state is Failed
            &&& !holds_port(after[tracks.len() as int])
        }),
{
    let s1 = apply_event(kinds, tracks, RouteEvent::Discovered { id, kind, accepting });
    lemma_event_keeps_terminal(kinds, tracks, RouteEvent::Discovered { id, kind, accepting });
    lemma_terminal_state_is_final(kinds, s1, evs);
    assert(is_terminal(s1[tracks.len() as int].state));
}

/// Index of the track with this id (meaningful when it is known).
pub open spec fn index_of(tracks: Seq<Track>, id: u64) -> int {
    choose|i: int| 0 <= i < tracks.len() && #[trigger] tracks[i].id == id
}

/// Routing state of the track with this id; `Unrouted` if never discovered.
pub open spec fn state_in(tracks: Seq<Track>, id: u64) -> RouteState {
    if is_known(tracks, id) {
        tracks[index_of(tracks, id)].state
    } else {
        RouteState::Unrouted
    }
}

/// Media kind of the track with this id, if it was discovered.
pub open spec fn kind_in(tracks: Seq<Track>, id: u64) -> MediaKind {
    if is_known(tracks, id) {
        tracks[index_of(tracks, id)].kind
    } else {
        MediaKind::Unknown
    }
}

proof fn lemma_index_of_unique(tracks: Seq<Track>, id: u64, i: int)
    requires
        ids_unique(tracks),
        0 <= i < tracks.len(),
        tracks[i].id == id,
    ensures
        is_known(tracks, id),
        index_of(tracks, id) == i,
{
}

/// After a discovery event, the track with that id is where the event put it.
pub proof fn lemma_state_after_discover(
    kinds: Seq<MediaKind>,
    tracks: Seq<Track>,
    id: u64,
    kind: MediaKind,
    accepting: bool,
)
    requires
        tracks_wf(tracks),
    ensures
        ({
            let after = apply_event(kinds, tracks, RouteEvent::Discovered { id, kind, accepting });
            &&& is_known(tracks, id) ==> state_in(after, id) == state_in(tracks, id)
            &&& !is_known(tracks, id) ==> state_in(after, id) == discovery_state(kinds, tracks, kind, accepting)
                && kind_in(after, id) == kind
            &&& forall|o: u64| o != id ==> #[trigger] state_in(after, o) == state_in(tracks, o) && kind_in(after, o)
                == kind_in(tracks, o)
        }),
{
    let after = apply_event(kinds, tracks, RouteEvent::Discovered { id, kind, accepting });
    lemma_event_keeps_terminal(kinds, tracks, RouteEvent::Discovered { id, kind, accepting });
    if !is_known(tracks, id) {
        lemma_index_of_unique(after, id, tracks.len() as int);
    }
    lemma_others_unchanged(tracks, after, id);
}

/// Where an event left every track but `id` where it was, the other ids
/// keep their state and kind.
proof fn lemma_others_unchanged(tracks: Seq<Track>, after: Seq<Track>, id: u64)
    requires
        ids_unique(tracks),
        ids_unique(after),
        after.len() >= tracks.len(),
        forall|i: int| 0 <= i < tracks.len() && tracks[i].id != id ==> #[trigger] after[i] == tracks[i],
        forall|i: int| tracks.len() <= i < after.len() ==> #[trigger] after[i].id == id,
        forall|i: int| 0 <= i < tracks.len() ==> (#[trigger] after[i]).id == tracks[i].id,
    ensures
        forall|o: u64| o != id ==> #[trigger] state_in(after, o) == state_in(tracks, o) && kind_in(after, o)
            == kind_in(tracks, o),
{
    assert forall|o: u64| o != id implies #[trigger] state_in(after, o) == state_in(tracks, o) && kind_in(after, o)
        == kind_in(tracks, o) by {
        if is_known(tracks, o) {
            let p = index_of(tracks, o);
            assert(after[p] == tracks[p]);
            lemma_index_of_unique(after, o, p);
        } else if is_known(after, o) {
            let p = index_of(after, o);
            if p < tracks.len() {
                assert(tracks[p].id == o);
            }
        }
    }
}

/// After a link outcome, a `Routing` track with that id is `Routed` or
/// `Failed`; otherwise nothing changed.
pub proof fn lemma_state_after_link(kinds: Seq<MediaKind>, tracks: Seq<Track>, id: u64, ok: bool)
    requires
        tracks_wf(tracks),
    ensures
        ({
            let after = apply_event(kinds, tracks, RouteEvent::Linked { id, ok });
            &&& state_in(tracks, id) is Routing ==> state_in(after, id) == link_state(ok)
            &&& !(state_in(tracks, id) is Routing) ==> after == tracks
            &&& (state_in(tracks, id) is Routing) <==> (exists|i: int|
                0 <= i < tracks.len() && tracks[i].id == id && #[trigger] tracks[i].state is Routing)
            &&& forall|o: u64| o != id ==> #[trigger] state_in(after, o) == state_in(tracks, o) && kind_in(after, o)
                == kind_in(tracks, o)
        }),
{
    let after = apply_event(kinds, tracks, RouteEvent::Linked { id, ok });
    lemma_event_keeps_terminal(kinds, tracks, RouteEvent::Linked { id, ok });
    if exists|i: int| 0 <= i < tracks.len() && tracks[i].id == id && #[trigger] tracks[i].state is Routing {
        let p = choose|i: int| 0 <= i < tracks.len() && tracks[i].id == id && #[trigger] tracks[i].state is Routing;
        lemma_index_of_unique(tracks, id, p);
        lemma_index_of_unique(after, id, p);
    } else if is_known(tracks, id) {
        let p = index_of(tracks, id);
        assert(tracks[p].id == id);
    }
    lemma_others_unchanged(tracks, after, id);
}

impl RoutingTable {
    pub open spec fn kinds(&self) -> Seq<MediaKind> {
        self.blueprints@.map_values(|b: Blueprint| b.kind)
    }

    pub open spec fn wf(&self) -> bool {
        forall|i: int, j: int|
            0 <= i < self.blueprints.len() && 0 <= j < self.blueprints.len() && i != j
                ==> #[trigger] self.blueprints@[i].kind != #[trigger] self.blueprints@[j].kind
    }

    /// An empty table.
    pub fn new() -> (r: RoutingTable)
        ensures
            r.wf(),
            r.blueprints@.len() == 0,
            r.kinds() == Seq::<MediaKind>::empty(),
    {
        let r = RoutingTable { blueprints: Vec::new() };
        assert(r.kinds() =~= Seq::<MediaKind>::empty());
        r
    }

    /// Index of the blueprint for `kind`, if the table has one.
    pub fn lookup(&self, kind: MediaKind) -> (r: Option<usize>)
        ensures
            r is None <==> !self.kinds().contains(kind),
            r matches Some(b) ==> b < self.blueprints.len() && self.blueprints@[b as int].kind == kind,
    {
        let mut i: usize = 0;
        while i < self.blueprints.len()
            invariant
                i <= self.blueprints.len(),
                forall|k: int| 0 <= k < i ==> #[trigger] self.blueprints@[k].kind != kind,
            decreases self.blueprints.len() - i,
        {
            if self.blueprints[i].kind == kind {
                assert(self.kinds()[i as int] == kind);
                return Some(i);
            }
            i += 1;
        }
        assert forall|k: int| 0 <= k < self.kinds().len() implies #[trigger] self.kinds()[k] != kind by {
            assert(self.blueprints@[k].kind != kind);
        }
        None
    }

    /// Adds a blueprint; a second blueprint for one kind is refused.
    pub fn add(&mut self, bp: Blueprint) -> (r: Result<(), TableError>)
        requires
            old(self).wf(),
        ensures
            final(self).wf(),
            old(self).kinds().contains(bp.kind) ==> r == Err::<(), TableError>(TableError::DuplicateKind)
                && final(self).blueprints@ == old(self).blueprints@,
            !old(self).kinds().contains(bp.kind) ==> r is Ok && final(self).blueprints@ == old(
                self,
            ).blueprints@.push(bp),
            final(self).kinds() == if r is Ok {
                old(self).kinds().push(bp.kind)
            } else {
                old(self).kinds()
            },
    {
        match self.lookup(bp.kind) {
            Some(_) => Err(TableError::DuplicateKind),
            None => {
                let ghost before = self.blueprints@;
                let ghost k = bp.kind;
                self.blueprints.push(bp);
                assert(self.kinds() =~= old(self).kinds().push(k));
                assert forall|i: int, j: int|
                    0 <= i < self.blueprints.len() && 0 <= j < self.blueprints.len() && i != j
                        implies #[trigger] self.blueprints@[i].kind != #[trigger] self.blueprints@[j].kind by {
                    if i == before.len() {
                        assert(old(self).kinds()[j] == before[j].kind);
                    } else if j == before.len() {
                        assert(old(self).kinds()[i] == before[i].kind);
                    }
                }
                Ok(())
            },
        }
    }
}

/// The routing controller: a per-track state machine over a fixed table.
pub struct RoutingController {
    pub table: RoutingTable,
    pub tracks: Vec<Track>,
}

impl RoutingController {
    pub open spec fn wf(&self) -> bool {
        self.table.wf() && tracks_wf(self.tracks@)
    }

    pub open spec fn state_spec(&self, id: u64) -> RouteState {
        state_in(self.tracks@, id)
    }

    pub open spec fn kind_spec(&self, id: u64) -> MediaKind {
        kind_in(self.tracks@, id)
    }

    /// A controller with no discovered tracks.
    pub fn new(table: RoutingTable) -> (r: RoutingController)
        requires
            table.wf(),
        ensures
            r.wf(),
            r.table == table,
            r.tracks@.len() == 0,
    {
        RoutingController { table, tracks: Vec::new() }
    }

    /// Position of the track with this id.
    fn position(&self, id: u64) -> (r: Option<usize>)
        ensures
            r is None <==> !is_known(self.tracks@, id),
            r matches Some(p) ==> p < self.tracks.len() && self.tracks@[p as int].id == id,
    {
        let mut i: usize = 0;
        while i < self.tracks.len()
            invariant
                i <= self.tracks.len(),
                forall|k: int| 0 <= k < i ==> #[trigger] self.tracks@[k].id != id,
            decreases self.tracks.len() - i,
        {
            if self.tracks[i].id == id {
                return Some(i);
            }
            i += 1;
        }
        None
    }

    /// Whether some track of `kind` holds that kind's port.
    fn claimed(&self, kind: MediaKind) -> (r: bool)
        ensures
            r == kind_claimed(self.tracks@, kind),
    {
        let mut i: usize = 0;
        while i < self.tracks.len()
            invariant
                i <= self.tracks.len(),
                forall|k: int| 0 <= k < i ==> !(#[trigger] self.tracks@[k].kind == kind && holds_port(self.tracks@[k])),
            decreases self.tracks.len() - i,
        {
            let t = self.tracks[i];
            match t.state {
                RouteState::Routing | RouteState::Routed => {
                    if t.kind == kind {
                        return true;
                    }
                },
                _ => {},
            }
            i += 1;
        }
        false
    }

    /// Routing state of the track with this id (`Unrouted` if never discovered).
    pub fn state_of(&self, id: u64) -> (r: RouteState)
        requires
            self.wf(),
        ensures
            r == self.state_spec(id),
    {
        match self.position(id) {
            Some(p) => {
                proof {
                    lemma_index_of_unique(self.tracks@, id, p as int);
                }
                self.tracks[p].state
            },
            None => RouteState::Unrouted,
        }
    }

    /// Kind of the track with this id if it is `Routed`.
    pub fn routed_kind(&self, id: u64) -> (r: Option<MediaKind>)
        requires
            self.wf(),
        ensures
            r is Some <==> self.state_spec(id) is Routed,
            r matches Some(k) ==> k == self.kind_spec(id),
    {
        match self.position(id) {
            Some(p) => {
                proof {
                    lemma_index_of_unique(self.tracks@, id, p as int);
                }
                let t = self.tracks[p];
                match t.state {
                    RouteState::Routed => Some(t.kind),
                    _ => None,
                }
            },
            None => None,
        }
    }

    /// Handles a discovery event. A track of a kind that the table routes, and
    /// whose kind no other track holds, moves to `Routing`; any other new track
    /// moves to `Failed` with its reason. A known id changes nothing.
    pub fn discover(&mut self, id: u64, kind: MediaKind, accepting: bool) -> (d: Discovery)
        requires
            old(self).wf(),
        ensures
            final(self).wf(),
            final(self).table == old(self).table,
            final(self).tracks@ == apply_event(
                old(self).table.kinds(),
                old(self).tracks@,
                RouteEvent::Discovered { id, kind, accepting },
            ),
            is_known(old(self).tracks@, id) ==> d is Duplicate,
            !is_known(old(self).tracks@, id) ==> match discovery_state(
                old(self).table.kinds(),
                old(self).tracks@,
                kind,
                accepting,
            ) {
                RouteState::Failed(why) => d == Discovery::Rejected(why),
                _ => d matches Discovery::Link { blueprint } && blueprint < old(self).table.blueprints.len()
                    && old(self).table.blueprints@[blueprint as int].kind == kind,
            },
    {
        if self.position(id).is_some() {
            return Discovery::Duplicate;
        }
        let ghost before = self.tracks@;
        let (state, d) = if !accepting {
            (RouteState::Failed(FailReason::SessionDraining), Discovery::Rejected(FailReason::SessionDraining))
        } else {
            match self.table.lookup(kind) {
                None => (RouteState::Failed(FailReason::NoBlueprint), Discovery::Rejected(FailReason::NoBlueprint)),
                Some(b) => {
                    if self.claimed(kind) {
                        (RouteState::Failed(FailReason::KindTaken), Discovery::Rejected(FailReason::KindTaken))
                    } else {
                        (RouteState::Routing, Discovery::Link { blueprint: b })
                    }
                },
            }
        };
        self.tracks.push(Track { id, kind, state });
        proof {
            let n = before.len() as int;
            assert forall|i: int, j: int|
                0 <= i < self.tracks@.len() && 0 <= j < self.tracks@.len() && i != j && holds_port(
                    #[trigger] self.tracks@[i],
                ) && holds_port(#[trigger] self.tracks@[j]) implies self.tracks@[i].kind != self.tracks@[j].kind by {
                if i == n {
                    assert(before[j].kind == self.tracks@[j].kind);
                } else if j == n {
                    assert(before[i].kind == self.tracks@[i].kind);
                }
            }
            assert forall|i: int, j: int|
                0 <= i < self.tracks@.len() && 0 <= j < self.tracks@.len() && i != j
                    implies #[trigger] self.tracks@[i].id != #[trigger] self.tracks@[j].id by {
                if i == n {
                    assert(before[j].id == self.tracks@[j].id);
                } else if j == n {
                    assert(before[i].id == self.tracks@[i].id);
                }
            }
        }
        d
    }

    /// Records the outcome of linking a `Routing` track's chain: it becomes
    /// `Routed`, or `Failed` with `LinkFailed`. Returns the new state, or
    /// `None` (and changes nothing) when no track with this id is `Routing`.
    pub fn link_result(&mut self, id: u64, ok: bool) -> (r: Option<RouteState>)
        requires
            old(self).wf(),
        ensures
            final(self).wf(),
            final(self).table == old(self).table,
            final(self).tracks@ == apply_event(old(self).table.kinds(), old(self).tracks@, RouteEvent::Linked { id, ok }),
            r is Some <==> (exists|i: int|
                0 <= i < old(self).tracks@.len() && old(self).tracks@[i].id == id
                    && #[trigger] old(self).tracks@[i].state is Routing),
            r matches Some(s) ==> s == link_state(ok),
    {
        match self.position(id) {
            None => None,
            Some(p) => {
                let t = self.tracks[p];
                if matches!(t.state, RouteState::Routing) {
                    let state = if ok {
                        RouteState::Routed
                    } else {
                        RouteState::Failed(FailReason::LinkFailed)
                    };
                    let ghost before = self.tracks@;
                    proof {
                        let i = choose|i: int| 0 <= i < before.len() && before[i].id == id && #[trigger] before[i].state is Routing;
                        assert(i == p as int);
                    }
                    self.tracks.set(p, Track { id, kind: t.kind, state });
                    proof {
                        assert forall|i: int, j: int|
                            0 <= i < self.tracks@.len() && 0 <= j < self.tracks@.len() && i != j
                                implies #[trigger] self.tracks@[i].id != #[trigger] self.tracks@[j].id by {
                            assert(before[i].id == self.tracks@[i].id);
                            assert(before[j].id == self.tracks@[j].id);
                        }
                        assert forall|i: int, j: int|
                            0 <= i < self.tracks@.len() && 0 <= j < self.tracks@.len() && i != j && holds_port(
                                #[trigger] self.tracks@[i],
                            ) && holds_port(#[trigger] self.tracks@[j]) implies self.tracks@[i].kind
                            != self.tracks@[j].kind by {
                            assert(holds_port(before[i]) && holds_port(before[j]));
                        }
                    }
                    Some(state)
                } else {
                    proof {
                        assert forall|i: int|
                            0 <= i < self.tracks@.len() && self.tracks@[i].id == id implies !(
                            #[trigger] self.tracks@[i].state is Routing) by {
                            assert(i == p as int);
                        }
                    }
                    None
                }
            },
        }
    }
}

} // verus!
