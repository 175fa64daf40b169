//! Synthetic publishers.

use openaudio::diagnostics::{
    channel_options, format_duration, new_diagnostic_session, sample_rate_options,
    DiagnosticPanel, DiagnosticReport,
};
use openaudio::load::estimate_load;

const NOW: u64 = 5_000_000_000;

fn report(send_errors: u64, skipped: u64) -> DiagnosticReport {
    DiagnosticReport {
        elapsed_seconds: 61,
        packets_built: 1_000,
        datagrams_sent: 2_000,
        send_errors,
        skipped_catch_up_frames: skipped,
        maximum_packet_bytes: 1_184,
    }
}

#[test]
fn durations_show_minutes_once_there_are_some() {
    assert_eq!(format_duration(0), "0s");
    assert_eq!(format_duration(59), "59s");
    assert_eq!(format_duration(60), "1m 00s");
    assert_eq!(format_duration(3_605), "60m 05s");
}

#[test]
fn offered_tests_stay_within_the_packet_limit() {
    assert_eq!(channel_options(), vec![2, 8, 16, 24, 32, 64]);
    assert_eq!(sample_rate_options(), vec![44_100, 48_000]);
    for channels in channel_options() {
        assert!(estimate_load(channels).within_limit);
    }
}

#[test]
fn new_tests_are_numbered() {
    let mut panel = DiagnosticPanel::default();
    panel.add_session(NOW);
    panel.add_session_with_channels(8, NOW);
    assert_eq!(panel.sessions[0].config.node_name, "OpenAudio Diagnostic 1");
    assert_eq!(panel.sessions[0].config.stream_name, "32ch Network Test");
    assert_eq!(panel.sessions[0].config.stream_id, 90_001);
    assert_eq!(panel.sessions[0].config.sample_rate, 48_000);
    assert_eq!(
        panel.sessions[0].control.status,
        "Ready. Start the test, then subscribe normally."
    );
    assert_eq!(panel.sessions[1].id, 2);
    assert_eq!(panel.sessions[1].config.channel_count, 8);
    assert_eq!(panel.next_session_id, 3);
}

#[test]
fn numbers_of_tests_do_not_overflow() {
    let mut panel = DiagnosticPanel::new();
    panel.next_session_id = u64::MAX;
    panel.add_session(NOW);
    assert_eq!(panel.next_session_id, u64::MAX);
    assert_eq!(panel.sessions[0].config.stream_id, u32::MAX);
}

#[test]
fn a_test_runs_from_request_to_report() {
    let mut panel = DiagnosticPanel::new();
    panel.add_session(NOW);
    let session = &mut panel.sessions[0];
    session.config.node_name = " Node ".to_string();
    let request = session.start_request(NOW).unwrap();
    assert_eq!(request.node_name, "Node");
    assert_eq!(request.stream_name, "32ch Network Test");
    assert_eq!(request.channel_count, 32);
    let thread = session.publisher_answered(&Ok(()), NOW).unwrap();
    assert_eq!(thread, "diagnostic-publisher-1");
    assert!(session.control.running);
    assert_eq!(session.control.status, "Advertising. Waiting for a subscriber...");
    assert_eq!(
        session.elapsed_text(NOW + 61_999_999_999),
        Some("Elapsed: 1m 01s".to_string())
    );
    assert!(panel.wants_repaint());
    panel.worker_finished(1, &Ok(report(0, 0)));
    let session = &panel.sessions[0];
    assert_eq!(
        session.control.status,
        "Stopped: 1000 packets, 2000 datagrams, 0 send errors, 0 skipped frames."
    );
    assert_eq!(session.config.final_report, Some(report(0, 0)));
    assert_eq!(session.elapsed_text(NOW), None);
    assert!(!session.status_is_failure());
    assert!(!panel.wants_repaint());
    panel.worker_finished(1, &Err("socket closed".to_string()));
    assert_eq!(panel.sessions[0].control.status, "Failed: socket closed");
    assert_eq!(panel.sessions[0].config.final_report, Some(report(0, 0)));
    assert!(panel.sessions[0].status_is_failure());
}

#[test]
fn buttons_of_a_test_are_ignored_for_three_tenths_of_a_second() {
    let mut session = new_diagnostic_session(1, 2, NOW);
    assert!(session.start_request(NOW).is_some());
    assert!(session.start_request(NOW + 299_999_999).is_none());
    assert_eq!(session.control.last_toggle, NOW);
    session.publisher_answered(&Ok(()), NOW);
    session.stop_session(NOW + 299_999_999);
    assert!(session.control.running);
    session.stop_session(NOW + 300_000_000);
    assert!(!session.control.running);
    assert_eq!(session.control.status, "Stopping diagnostic publisher...");
    let mut running = new_diagnostic_session(1, 2, NOW);
    running.control.running = true;
    assert!(running.start_request(NOW).is_none());
    assert_eq!(running.control.last_toggle, NOW);
}

#[test]
fn refused_and_failed_tests_say_so() {
    let mut session = new_diagnostic_session(1, 2, NOW);
    assert!(session.publisher_answered(&Err("no channels".to_string()), NOW).is_none());
    assert_eq!(session.control.status, "Failed: no channels");
    assert!(!session.control.running);
    session.publisher_answered(&Ok(()), NOW);
    session.thread_failed("no threads");
    assert_eq!(session.control.status, "Failed to start diagnostic thread: no threads");
    assert_eq!(session.config.started_at, None);
    assert!(!session.control.running);
    assert!(session.status_is_failure());
}

#[test]
fn pressure_is_reported() {
    assert!(report(0, 0).kept_up());
    assert_eq!(report(0, 0).verdict(), "✓ Publisher completed without detected pressure.");
    for pressed in [report(1, 0), report(0, 1)] {
        assert_eq!(
            pressed.verdict(),
            "⚠ Publisher pressure was detected. Check send errors and skipped frames."
        );
    }
}

#[test]
fn only_a_stopped_test_is_removed() {
    let mut panel = DiagnosticPanel::new();
    for _ in 0..3 {
        panel.add_session(NOW);
    }
    panel.sessions[0].control.running = true;
    assert!(panel.remove_session(0).is_none());
    assert!(panel.remove_session(3).is_none());
    assert_eq!(panel.sessions.len(), 3);
    assert!(panel.sessions[0].control.running);
    let removed = panel.remove_session(1).unwrap();
    assert_eq!(removed.id, 2);
    assert!(!removed.control.running);
    let left: Vec<u64> = panel.sessions.iter().map(|session| session.id).collect();
    assert_eq!(left, vec![1, 3]);
    assert_eq!(panel.next_session_id, 4);
}

#[test]
fn halted_tests_do_not_run() {
    let mut panel = DiagnosticPanel::new();
    panel.add_session(NOW);
    panel.sessions[0].control.running = true;
    panel.halt();
    assert!(!panel.sessions[0].control.running);
}

#[test]
fn a_running_test_keeps_its_fields() {
    let mut session = new_diagnostic_session(1, 2, NOW);
    session.configure("Node".to_string(), "Tone".to_string(), 7, 64, 44_100);
    assert_eq!(session.config.node_name, "Node");
    assert_eq!(session.config.stream_name, "Tone");
    assert_eq!(session.config.stream_id, 7);
    assert_eq!(session.config.channel_count, 64);
    assert_eq!(session.config.sample_rate, 44_100);
    session.control.running = true;
    session.configure("Other".to_string(), "Noise".to_string(), 8, 8, 48_000);
    assert_eq!(session.config.node_name, "Node");
    assert_eq!(session.config.stream_name, "Tone");
    assert_eq!(session.config.stream_id, 7);
    assert_eq!(session.config.channel_count, 64);
    assert_eq!(session.config.sample_rate, 44_100);
}
