use vstd::prelude::*;
use crate::routing::{Discovery, FailReason, MediaKind, RouteState};
use crate::segment::Finalize;
use crate::supervisor::Command;

verus! {

/// The component that an observable event comes from.
#[derive(Clone, Copy, Debug, PartialEq, Eq, Structural)]
pub enum Component {
    Router,
    Writer,
    Supervisor,
}

/// What an observable event reports.
#[derive(Clone, Copy, Debug, PartialEq, Eq, Structural)]
pub enum EventKind {
    TrackDiscovered,
    TrackRouted,
    TrackFailed,
    SegmentFinalized,
    FinalizeFailed,
    DrainStarted,
    Stopped,
}

/// One event of the status stream; the surrounding process adds the time.
#[derive(Clone, Copy, Debug, PartialEq, Eq, Structural)]
pub struct StatusEvent {
    pub component: Component,
    pub kind: EventKind,
    pub track: Option<u64>,
    pub media: Option<MediaKind>,
    pub segment: Option<u64>,
    pub cause: Option<FailReason>,
}

pub open spec fn track_event(kind: EventKind, id: u64, media: Option<MediaKind>, cause: Option<FailReason>) -> StatusEvent {
    StatusEvent { component: Component::Router, kind, track: Some(id), media, segment: None, cause }
}

/// Events for a discovery decision: the discovery itself, then a failure
/// with its cause when the track was rejected. A duplicate reports nothing.
pub open spec fn discovery_events_spec(id: u64, media: MediaKind, d: Discovery) -> Seq<StatusEvent> {
    match d {
        Discovery::Duplicate => seq![],
        Discovery::Link { .. } => seq![track_event(EventKind::TrackDiscovered, id, Some(media), None)],
        Discovery::Rejected(why) => seq![
            track_event(EventKind::TrackDiscovered, id, Some(media), None),
            track_event(EventKind::TrackFailed, id, Some(media), Some(why)),
        ],
    }
}

/// Events for a discovery decision.
pub fn discovery_events(id: u64, media: MediaKind, d: Discovery) -> (r: Vec<StatusEvent>)
    ensures
        r@ == discovery_events_spec(id, media, d),
{
    let mut r: Vec<StatusEvent> = Vec::new();
    match d {
        Discovery::Duplicate => {},
        Discovery::Link { .. } => {
            r.push(StatusEvent {
                component: Component::Router,
                kind: EventKind::TrackDiscovered,
                track: Some(id),
                media: Some(media),
                segment: None,
                cause: None,
            });
        },
        Discovery::Rejected(why) => {
            r.push(StatusEvent {
                component: Component::Router,
                kind: EventKind::TrackDiscovered,
                track: Some(id),
                media: Some(media),
                segment: None,
                cause: None,
            });
            r.push(StatusEvent {
                component: Component::Router,
                kind: EventKind::TrackFailed,
                track: Some(id),
                media: Some(media),
                segment: None,
                cause: Some(why),
            });
        },
    }
    assert(r@ =~= discovery_events_spec(id, media, d));
    r
}

/// The event for a link outcome: `TrackRouted`, or `TrackFailed` with its
/// cause; nothing when no routing track took the outcome.
pub fn link_event(id: u64, outcome: Option<RouteState>) -> (r: Option<StatusEvent>)
    ensures
        r == match outcome {
            Some(RouteState::Routed) => Some(track_event(EventKind::TrackRouted, id, None, None)),
            Some(RouteState::Failed(why)) => Some(track_event(EventKind::TrackFailed, id, None, Some(why))),
            _ => None::<StatusEvent>,
        },
{
    match outcome {
        Some(RouteState::Routed) => Some(
            StatusEvent {
                component: Component::Router,
                kind: EventKind::TrackRouted,
                track: Some(id),
                media: None,
                segment: None,
                cause: None,
            },
        ),
        Some(RouteState::Failed(why)) => Some(
            StatusEvent {
                component: Component::Router,
                kind: EventKind::TrackFailed,
                track: Some(id),
                media: None,
                segment: None,
                cause: Some(why),
            },
        ),
        _ => None,
    }
}

/// The event for a finalize outcome: `SegmentFinalized` with its sequence
/// number, or the distinct `FinalizeFailed`.
pub fn finalize_event(f: Finalize) -> (r: StatusEvent)
    ensures
        r.component == Component::Writer,
        r.track is None && r.media is None && r.cause is None,
        f matches Finalize::Finalized { index } ==> r.kind == EventKind::SegmentFinalized && r.segment == Some(index),
        f is Failed ==> r.kind == EventKind::FinalizeFailed && r.segment is None,
{
    match f {
        Finalize::Finalized { index } => StatusEvent {
            component: Component::Writer,
            kind: EventKind::SegmentFinalized,
            track: None,
            media: None,
            segment: Some(index),
            cause: None,
        },
        Finalize::Failed { .. } => StatusEvent {
            component: Component::Writer,
            kind: EventKind::FinalizeFailed,
            track: None,
            media: None,
            segment: None,
            cause: None,
        },
    }
}

/// The event for a supervisor command: `DrainStarted` or `Stopped`.
pub fn command_event(c: Command) -> (r: Option<StatusEvent>)
    ensures
        c == Command::Nothing ==> r is None,
        c == Command::Drain ==> r == Some(
            StatusEvent {
                component: Component::Supervisor,
                kind: EventKind::DrainStarted,
                track: None,
                media: None,
                segment: None,
                cause: None,
            },
        ),
        c == Command::Teardown ==> r == Some(
            StatusEvent {
                component: Component::Supervisor,
                kind: EventKind::Stopped,
                track: None,
                media: None,
                segment: None,
                cause: None,
            },
        ),
{
    let kind = match c {
        Command::Nothing => {
            return None;
        },
        Command::Drain => EventKind::DrainStarted,
        Command::Teardown => EventKind::Stopped,
    };
    Some(StatusEvent { component: Component::Supervisor, kind, track: None, media: None, segment: None, cause: None })
}

} // verus!
