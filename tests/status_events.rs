use rust_gstreamer_recording::routing::{Discovery, FailReason, MediaKind, RouteState};
use rust_gstreamer_recording::segment::Finalize;
use rust_gstreamer_recording::status::{
    command_event, discovery_events, finalize_event, link_event, Component, EventKind,
};
use rust_gstreamer_recording::supervisor::Command;

#[test]
fn rejected_discovery_reports_failure_with_cause() {
    let evs = discovery_events(4, MediaKind::Unknown, Discovery::Rejected(FailReason::NoBlueprint));
    assert_eq!(evs.len(), 2);
    assert_eq!(evs[0].kind, EventKind::TrackDiscovered);
    assert_eq!(evs[1].kind, EventKind::TrackFailed);
    assert_eq!(evs[1].track, Some(4));
    assert_eq!(evs[1].cause, Some(FailReason::NoBlueprint));
    assert_eq!(evs[1].component, Component::Router);
    assert!(discovery_events(4, MediaKind::Audio, Discovery::Duplicate).is_empty());
    let linked = discovery_events(5, MediaKind::Video, Discovery::Link { blueprint: 1 });
    assert_eq!(linked.len(), 1);
    assert_eq!(linked[0].media, Some(MediaKind::Video));
}

#[test]
fn link_failure_emits_one_failed_event() {
    let ev = link_event(2, Some(RouteState::Failed(FailReason::LinkFailed))).unwrap();
    assert_eq!(ev.kind, EventKind::TrackFailed);
    assert_eq!(ev.track, Some(2));
    assert_eq!(ev.cause.unwrap().cause(), "track chain failed to link");
    assert_eq!(link_event(2, None), None);
    assert_eq!(link_event(3, Some(RouteState::Routed)).unwrap().kind, EventKind::TrackRouted);
}

#[test]
fn writer_and_supervisor_events() {
    let ok = finalize_event(Finalize::Finalized { index: 3 });
    assert_eq!((ok.kind, ok.segment, ok.component), (EventKind::SegmentFinalized, Some(3), Component::Writer));
    let bad = finalize_event(Finalize::Failed { escalate: false });
    assert_eq!(bad.kind, EventKind::FinalizeFailed);
    assert_eq!(command_event(Command::Nothing), None);
    assert_eq!(command_event(Command::Drain).unwrap().kind, EventKind::DrainStarted);
    assert_eq!(command_event(Command::Teardown).unwrap().kind, EventKind::Stopped);
}
