use rust_gstreamer_recording::routing::{
    classify_media, Blueprint, Discovery, FailReason, MediaKind, RouteState, RoutingController, RoutingTable,
    TableError,
};
use rust_gstreamer_recording::segment::{Finalize, RolloverPolicy, SegmentWriter};
use rust_gstreamer_recording::session::{BufferError, Session};
use rust_gstreamer_recording::supervisor::{Command, Completion, ControlEvent, Phase, Supervisor};

const SECOND: u64 = 1_000_000_000;

fn blueprint(kind: MediaKind, stages: &[&str], port: &str) -> Blueprint {
    Blueprint { kind, stages: stages.iter().map(|s| s.to_string()).collect(), port: port.to_string() }
}

fn av_table() -> RoutingTable {
    let mut t = RoutingTable::new();
    t.add(blueprint(MediaKind::Audio, &["queue", "rtpopusdepay", "opusparse"], "audio_%u")).unwrap();
    t.add(blueprint(MediaKind::Video, &["queue", "rtph264depay", "h264parse"], "video")).unwrap();
    t
}

fn running_session(policy: RolloverPolicy) -> Session {
    let mut s = Session::new(av_table(), policy, 0, 3);
    assert_eq!(s.on_control(ControlEvent::Started), Command::Nothing);
    s
}

/// Drains the session and finalizes every closed segment successfully.
fn drain_and_finalize(s: &mut Session) -> Command {
    assert_eq!(s.on_control(ControlEvent::Interrupt), Command::Drain);
    s.on_drain_reached();
    while s.on_finalized(true).0.is_some() {}
    s.on_control(ControlEvent::DrainAcknowledged)
}

#[test]
fn classify_media_names() {
    assert_eq!(classify_media("audio"), MediaKind::Audio);
    assert_eq!(classify_media("video"), MediaKind::Video);
    assert_eq!(classify_media("application"), MediaKind::Unknown);
    assert_eq!(classify_media("Audio"), MediaKind::Unknown);
    assert_eq!(classify_media(""), MediaKind::Unknown);
    assert_eq!(classify_media("audio "), MediaKind::Unknown);
}

#[test]
fn table_refuses_second_blueprint_of_a_kind() {
    let mut t = av_table();
    let r = t.add(blueprint(MediaKind::Audio, &["queue"], "audio_aux"));
    assert_eq!(r, Err(TableError::DuplicateKind));
    assert_eq!(t.blueprints.len(), 2);
    assert_eq!(t.lookup(MediaKind::Video), Some(1));
    assert_eq!(t.lookup(MediaKind::Unknown), None);
}

#[test]
fn each_track_reaches_one_terminal_state() {
    let mut c = RoutingController::new(av_table());
    assert_eq!(c.state_of(1), RouteState::Unrouted);
    assert_eq!(c.discover(1, MediaKind::Video, true), Discovery::Link { blueprint: 1 });
    assert_eq!(c.state_of(1), RouteState::Routing);
    assert_eq!(c.discover(1, MediaKind::Video, true), Discovery::Duplicate);
    assert_eq!(c.link_result(1, true), Some(RouteState::Routed));
    assert_eq!(c.state_of(1), RouteState::Routed);
    // A routed track is never linked again.
    assert_eq!(c.link_result(1, false), None);
    assert_eq!(c.state_of(1), RouteState::Routed);
    // A second video track is rejected: the first one holds the port.
    assert_eq!(c.discover(2, MediaKind::Video, true), Discovery::Rejected(FailReason::KindTaken));
    assert_eq!(c.link_result(2, true), None);
    assert_eq!(c.state_of(2), RouteState::Failed(FailReason::KindTaken));
    assert_eq!(c.tracks.len(), 2);
}

#[test]
fn late_discovery_fails_while_draining() {
    let mut c = RoutingController::new(av_table());
    assert_eq!(c.discover(5, MediaKind::Audio, false), Discovery::Rejected(FailReason::SessionDraining));
    assert_eq!(c.state_of(5), RouteState::Failed(FailReason::SessionDraining));
}

#[test]
fn failed_link_frees_the_kind() {
    let mut c = RoutingController::new(av_table());
    assert_eq!(c.discover(1, MediaKind::Audio, true), Discovery::Link { blueprint: 0 });
    assert_eq!(c.link_result(1, false), Some(RouteState::Failed(FailReason::LinkFailed)));
    assert_eq!(c.discover(2, MediaKind::Audio, true), Discovery::Link { blueprint: 0 });
}

#[test]
fn rollover_on_size_threshold() {
    let mut w = SegmentWriter::new(RolloverPolicy { max_bytes: 100, max_duration: u64::MAX }, 0, 3);
    assert_eq!(w.push(MediaKind::Video, 0, 1, 60), 0);
    assert_eq!(w.push(MediaKind::Video, 1, 1, 40), 1);
    assert!(w.open.is_none());
    assert_eq!(w.closing.len(), 1);
    assert_eq!(w.closing[0].bytes, 100);
    assert_eq!(w.closing[0].start, 0);
    assert_eq!(w.closing[0].end, 2);
}

#[test]
fn rollover_on_duration_threshold() {
    let mut w = SegmentWriter::new(RolloverPolicy { max_bytes: u64::MAX, max_duration: 5 * SECOND }, 0, 3);
    assert_eq!(w.push(MediaKind::Audio, 0, 2 * SECOND, 10), 0);
    assert_eq!(w.push(MediaKind::Audio, 2 * SECOND, 3 * SECOND, 10), 0);
    assert_eq!(w.push(MediaKind::Audio, 5 * SECOND, SECOND, 10), 1);
    assert_eq!(w.closing.len(), 1);
    assert_eq!(w.closing[0].end - w.closing[0].start, 5 * SECOND);
    assert_eq!(w.closing[0].bytes, 20);
    assert_eq!(w.open.unwrap().start, 5 * SECOND);
}

#[test]
fn slow_first_segment_has_no_forced_rollover() {
    // Data arrives slowly: nothing closes the segment until data crosses a threshold.
    let mut w = SegmentWriter::new(RolloverPolicy { max_bytes: u64::MAX, max_duration: 10 * SECOND }, 0, 3);
    assert_eq!(w.push(MediaKind::Audio, 0, SECOND, 10), 0);
    assert_eq!(w.closing.len(), 0);
    assert_eq!(w.push(MediaKind::Audio, 180 * SECOND, SECOND, 10), 1);
    assert_eq!(w.closing[0].start, 0);
    assert_eq!(w.closing[0].end, SECOND);
    // The next segment starts at the late buffer and closes 10 s after it.
    for t in 1..10u64 {
        assert_eq!(w.push(MediaKind::Audio, (180 + t) * SECOND, SECOND, 10), 0);
    }
    assert_eq!(w.push(MediaKind::Audio, 190 * SECOND, SECOND, 10), 1);
    assert_eq!(w.closing[1].start, 180 * SECOND);
    assert_eq!(w.closing[1].end - w.closing[1].start, 10 * SECOND);
}

#[test]
fn drain_finalizes_short_segment() {
    let mut s = running_session(RolloverPolicy { max_bytes: u64::MAX, max_duration: 10 * SECOND });
    assert!(matches!(s.on_discovery(1, MediaKind::Audio), Discovery::Link { .. }));
    assert_eq!(s.on_link(1, true), Some(RouteState::Routed));
    assert_eq!(s.on_buffer(1, 0, SECOND, 500), Ok(0));
    assert_eq!(s.on_buffer(1, SECOND, SECOND, 500), Ok(0));
    assert_eq!(drain_and_finalize(&mut s), Command::Teardown);
    assert_eq!(s.writer.files.len(), 1);
    assert_eq!(s.writer.files[0].index, 0);
    assert_eq!(s.writer.files[0].span.bytes, 1000);
    assert_eq!(s.writer.files[0].span.end - s.writer.files[0].span.start, 2 * SECOND);
}

#[test]
fn sequence_numbers_contiguous() {
    let mut w = SegmentWriter::new(RolloverPolicy { max_bytes: 10, max_duration: u64::MAX }, 7, 5);
    for i in 0..4u64 {
        assert_eq!(w.push(MediaKind::Video, i, 1, 10), 1);
    }
    assert_eq!(w.finalize_next(true), Some(Finalize::Finalized { index: 7 }));
    assert_eq!(w.finalize_next(false), Some(Finalize::Failed { escalate: false }));
    assert_eq!(w.finalize_next(true), Some(Finalize::Finalized { index: 8 }));
    assert_eq!(w.finalize_next(true), Some(Finalize::Finalized { index: 9 }));
    assert_eq!(w.finalize_next(true), None);
    let idx: Vec<u64> = w.files.iter().map(|f| f.index).collect();
    assert_eq!(idx, vec![7, 8, 9]);
    assert_eq!(w.next_index(), 10);
}

#[test]
fn repeated_finalize_failures_escalate() {
    let mut s = running_session(RolloverPolicy { max_bytes: 1, max_duration: u64::MAX });
    s.on_discovery(1, MediaKind::Video);
    s.on_link(1, true);
    for i in 0..3u64 {
        assert_eq!(s.on_buffer(1, i, 1, 5), Ok(1));
    }
    let mut s2 = Session::new(av_table(), RolloverPolicy { max_bytes: 1, max_duration: u64::MAX }, 0, 1);
    s2.on_control(ControlEvent::Started);
    s2.on_discovery(1, MediaKind::Video);
    s2.on_link(1, true);
    for i in 0..3u64 {
        assert_eq!(s2.on_buffer(1, i, 1, 5), Ok(1));
    }
    assert_eq!(s2.on_finalized(false), (Some(Finalize::Failed { escalate: false }), Command::Nothing));
    assert_eq!(s2.on_finalized(false), (Some(Finalize::Failed { escalate: true }), Command::Drain));
    assert_eq!(s2.supervisor.phase, Phase::Draining);
    assert_eq!(s2.on_finalized(true), (Some(Finalize::Finalized { index: 0 }), Command::Nothing));
    assert_eq!(s2.on_control(ControlEvent::DrainAcknowledged), Command::Teardown);
    assert_eq!(s2.supervisor.completion(), Some(Completion::ErrorTerminated));
    // The first session allows three failures in a row.
    assert_eq!(s.on_finalized(false).0, Some(Finalize::Failed { escalate: false }));
    assert_eq!(s.on_finalized(false).0, Some(Finalize::Failed { escalate: false }));
    assert_eq!(s.on_finalized(false).0, Some(Finalize::Failed { escalate: false }));
}

#[test]
fn unmatched_kind_produces_no_output() {
    let mut s = running_session(RolloverPolicy { max_bytes: u64::MAX, max_duration: 5 * SECOND });
    assert_eq!(s.on_discovery(9, MediaKind::Unknown), Discovery::Rejected(FailReason::NoBlueprint));
    assert_eq!(s.on_link(9, true), None);
    assert_eq!(s.on_buffer(9, 0, SECOND, 100), Err(BufferError::NotRouted));
    assert_eq!(s.router.state_of(9), RouteState::Failed(FailReason::NoBlueprint));
    assert_eq!(drain_and_finalize(&mut s), Command::Teardown);
    assert_eq!(s.writer.files.len(), 0);
    assert_eq!(s.supervisor.completion(), Some(Completion::InterruptedClean));
}

fn av_session_with_data(seconds: u64) -> (Session, usize) {
    let mut s = running_session(RolloverPolicy { max_bytes: u64::MAX, max_duration: 5 * SECOND });
    assert_eq!(s.on_discovery(1, MediaKind::Audio), Discovery::Link { blueprint: 0 });
    assert_eq!(s.on_discovery(2, MediaKind::Video), Discovery::Link { blueprint: 1 });
    assert_eq!(s.on_link(1, true), Some(RouteState::Routed));
    assert_eq!(s.on_link(2, true), Some(RouteState::Routed));
    let mut rolled = 0;
    for t in 0..seconds {
        rolled += s.on_buffer(2, t * SECOND, SECOND, 1000).unwrap();
        rolled += s.on_buffer(1, t * SECOND, SECOND, 100).unwrap();
    }
    (s, rolled)
}

#[test]
fn two_tracks_ten_seconds_five_second_segments() {
    let (mut s, rolled) = av_session_with_data(10);
    // The first window closed when data of the second arrived; the drain closes the second.
    assert_eq!(rolled, 1);
    assert_eq!(drain_and_finalize(&mut s), Command::Teardown);
    assert_eq!(s.writer.files.len(), 2);
    for (i, f) in s.writer.files.iter().enumerate() {
        assert_eq!(f.index, i as u64);
        assert!(f.span.has_audio && f.span.has_video);
        assert_eq!(f.span.start, 5 * SECOND * i as u64);
        assert_eq!(f.span.end - f.span.start, 5 * SECOND);
        assert_eq!(f.span.bytes, 5500);
    }
}

#[test]
fn two_tracks_ending_mid_window() {
    let (mut s, rolled) = av_session_with_data(12);
    assert_eq!(rolled, 2);
    assert_eq!(s.writer.closing.len(), 2);
    for seg in s.writer.closing.iter() {
        assert!(seg.has_audio && seg.has_video);
        assert_eq!(seg.end - seg.start, 5 * SECOND);
        assert_eq!(seg.bytes, 5500);
    }
    // The drain finalizes the last two seconds as a third file.
    assert_eq!(drain_and_finalize(&mut s), Command::Teardown);
    let idx: Vec<u64> = s.writer.files.iter().map(|f| f.index).collect();
    assert_eq!(idx, vec![0, 1, 2]);
    assert_eq!(s.writer.files[2].span.start, 10 * SECOND);
    assert_eq!(s.writer.files[2].span.end - s.writer.files[2].span.start, 2 * SECOND);
    assert_eq!(s.writer.files[2].span.bytes, 2200);
}

#[test]
fn interrupt_mid_session_is_clean() {
    let mut s = running_session(RolloverPolicy { max_bytes: u64::MAX, max_duration: 5 * SECOND });
    s.on_discovery(1, MediaKind::Video);
    s.on_link(1, true);
    assert_eq!(s.on_buffer(1, 0, SECOND, 10), Ok(0));
    assert_eq!(s.on_control(ControlEvent::Interrupt), Command::Drain);
    assert_eq!(s.supervisor.phase, Phase::Draining);
    // A second interrupt issues no second drain.
    assert_eq!(s.on_control(ControlEvent::Interrupt), Command::Nothing);
    // Buffers already in flight still reach the writer.
    assert_eq!(s.on_buffer(1, SECOND, SECOND, 10), Ok(0));
    // No new track is routed once draining.
    assert_eq!(s.on_discovery(2, MediaKind::Audio), Discovery::Rejected(FailReason::SessionDraining));
    // The drain is not acknowledged while a segment is still open.
    assert_eq!(s.on_control(ControlEvent::DrainAcknowledged), Command::Nothing);
    assert!(s.on_drain_reached());
    assert_eq!(s.on_control(ControlEvent::DrainAcknowledged), Command::Nothing);
    assert_eq!(s.on_finalized(true).0, Some(Finalize::Finalized { index: 0 }));
    assert_eq!(s.on_control(ControlEvent::DrainAcknowledged), Command::Teardown);
    assert_eq!(s.supervisor.phase, Phase::Stopped);
    assert_eq!(s.supervisor.completion(), Some(Completion::InterruptedClean));
    assert_eq!(s.writer.files.len(), 1);
    assert_eq!(s.on_buffer(1, 2 * SECOND, SECOND, 10), Err(BufferError::NotFlowing));
}

#[test]
fn link_failure_leaves_other_track_recording() {
    let mut s = running_session(RolloverPolicy { max_bytes: u64::MAX, max_duration: 5 * SECOND });
    s.on_discovery(1, MediaKind::Audio);
    s.on_discovery(2, MediaKind::Video);
    let failed = s.on_link(1, false);
    assert_eq!(failed, Some(RouteState::Failed(FailReason::LinkFailed)));
    assert_eq!(FailReason::LinkFailed.cause(), "track chain failed to link");
    assert_eq!(s.on_link(2, true), Some(RouteState::Routed));
    assert_eq!(s.on_link(1, true), None);
    for t in 0..6u64 {
        assert_eq!(s.on_buffer(1, t * SECOND, SECOND, 100), Err(BufferError::NotRouted));
        s.on_buffer(2, t * SECOND, SECOND, 1000).unwrap();
    }
    assert_eq!(drain_and_finalize(&mut s), Command::Teardown);
    assert_eq!(s.writer.files.len(), 2);
    assert!(s.writer.files.iter().all(|f| f.span.has_video && !f.span.has_audio));
    assert_eq!(s.writer.files[0].span.end, 5 * SECOND);
    assert_eq!(s.router.state_of(1), RouteState::Failed(FailReason::LinkFailed));
}

#[test]
fn supervisor_transitions() {
    let mut sup = Supervisor::new();
    assert_eq!(sup.handle(ControlEvent::DrainAcknowledged), Command::Nothing);
    assert_eq!(sup.phase, Phase::Idle);
    assert_eq!(sup.handle(ControlEvent::Started), Command::Nothing);
    assert!(sup.accepting());
    assert_eq!(sup.handle(ControlEvent::EndOfStream), Command::Drain);
    assert!(!sup.accepting());
    assert_eq!(sup.completion(), None);
    assert_eq!(sup.handle(ControlEvent::DrainAcknowledged), Command::Teardown);
    assert_eq!(sup.completion(), Some(Completion::Clean));
    // Stopped is terminal.
    assert_eq!(sup.handle(ControlEvent::Started), Command::Nothing);
    assert_eq!(sup.handle(ControlEvent::SessionError), Command::Nothing);
    assert_eq!(sup.completion(), Some(Completion::Clean));
}

#[test]
fn drain_timeout_forces_teardown() {
    let mut sup = Supervisor::new();
    sup.handle(ControlEvent::Started);
    assert_eq!(sup.handle(ControlEvent::Interrupt), Command::Drain);
    assert_eq!(sup.handle(ControlEvent::DrainTimeout), Command::Teardown);
    assert_eq!(sup.phase, Phase::Stopped);
    assert_eq!(sup.completion(), Some(Completion::DrainTimedOut));
}

#[test]
fn session_error_terminates() {
    let mut sup = Supervisor::new();
    sup.handle(ControlEvent::Started);
    assert_eq!(sup.handle(ControlEvent::SessionError), Command::Drain);
    assert_eq!(sup.handle(ControlEvent::DrainAcknowledged), Command::Teardown);
    assert_eq!(sup.completion(), Some(Completion::ErrorTerminated));
    let mut idle = Supervisor::new();
    assert_eq!(idle.handle(ControlEvent::SessionError), Command::Teardown);
    assert_eq!(idle.completion(), Some(Completion::ErrorTerminated));
}

#[test]
fn buffer_errors() {
    let mut s = Session::new(av_table(), RolloverPolicy { max_bytes: 100, max_duration: 100 }, 0, 3);
    assert_eq!(s.on_buffer(1, 0, 1, 1), Err(BufferError::NotFlowing));
    s.on_control(ControlEvent::Started);
    s.on_discovery(1, MediaKind::Audio);
    assert_eq!(s.on_buffer(1, 0, 1, 1), Err(BufferError::NotRouted));
    s.on_link(1, true);
    assert_eq!(s.on_buffer(1, u64::MAX, 1, 1), Err(BufferError::TimestampOverflow));
    let mut near = Session::new(av_table(), RolloverPolicy { max_bytes: 1, max_duration: 100 }, u64::MAX - 3, 3);
    near.on_control(ControlEvent::Started);
    near.on_discovery(1, MediaKind::Audio);
    near.on_link(1, true);
    assert_eq!(near.on_buffer(1, 0, 1, 1), Ok(1));
    assert_eq!(near.on_buffer(1, 1, 1, 1), Err(BufferError::SequenceExhausted));
}
