//! Level meters.

use openaudio::level::{Level, MeterZone};
use openaudio::signal_monitor::{
    active_streams_text, ends_row, grid_columns, sanitize_levels, signal_age_text, SignalDirection,
    SignalMark, SignalMonitor,
};
use openaudio::theme::Tone;

const NOW: u64 = 5_000_000_000;

fn levels(db: &[f32]) -> Vec<Level> {
    db.iter().map(|value| Level { bits: value.to_bits() }).collect()
}

fn numbers(levels: &[Level]) -> Vec<f32> {
    levels.iter().map(|level| f32::from_bits(level.bits)).collect()
}

#[test]
fn ages_are_shown_like_the_formatted_quotient() {
    assert_eq!(signal_age_text(0), "live");
    assert_eq!(signal_age_text(50), "live");
    assert_eq!(signal_age_text(51), "51ms ago");
    assert_eq!(signal_age_text(999), "999ms ago");
    for ms in 1_000..60_000u64 {
        assert_eq!(signal_age_text(ms), format!("{:.1}s ago", ms as f32 / 1_000.0), "{ms}");
    }
    assert_eq!(signal_age_text(60_000), "inactive");
    assert_eq!(signal_age_text(u64::MAX), "inactive");
}

#[test]
fn held_peaks_rise_and_sink() {
    let mut monitor = SignalMonitor::new(NOW);
    let first = monitor.update_peak_holds("a", &levels(&[-10.0, -20.0]), &levels(&[-60.0, -60.0]));
    assert_eq!(numbers(&first), vec![-10.0, -20.0]);
    assert_eq!(numbers(&monitor.held_peaks("a", 3)), vec![-10.0, -20.0, -60.0]);
    let second = monitor.update_peak_holds("a", &levels(&[-30.0, -5.0]), &levels(&[-19.0, -29.0]));
    assert_eq!(numbers(&second), vec![-19.0, -5.0]);
    let grown =
        monitor.update_peak_holds("a", &levels(&[-50.0, -50.0, -50.0]), &levels(&[-28.0, -14.0, -69.0]));
    assert_eq!(numbers(&grown), vec![-28.0, -14.0, -50.0]);
    let shrunk = monitor.update_peak_holds("a", &levels(&[-60.0]), &levels(&[-70.0]));
    assert_eq!(numbers(&shrunk), vec![-60.0]);
    assert_eq!(numbers(&monitor.held_peaks("b", 1)), vec![-60.0]);
}

#[test]
fn meters_that_disappear_are_forgotten() {
    let mut monitor = SignalMonitor::new(NOW);
    for id in ["a", "b", "c"] {
        monitor.update_peak_holds(id, &levels(&[-10.0]), &levels(&[-60.0]));
    }
    monitor.retain_active(&vec!["c".to_string(), "a".to_string(), "x".to_string()]);
    assert_eq!(numbers(&monitor.held_peaks("a", 1)), vec![-10.0]);
    assert_eq!(numbers(&monitor.held_peaks("b", 1)), vec![-60.0]);
    assert_eq!(numbers(&monitor.held_peaks("c", 1)), vec![-10.0]);
    assert_eq!(monitor.held.len(), 2);
}

#[test]
fn frames_last_a_second_at_most() {
    let mut monitor = SignalMonitor::new(NOW);
    assert_eq!(monitor.frame_time(NOW + 50_000_000), 50_000_000);
    assert_eq!(monitor.frame_time(NOW + 9_000_000_000), 1_000_000_000);
    assert_eq!(monitor.frame_time(NOW), 0);
    assert!(monitor.expanded);
    assert_eq!(monitor.toggle_caption(), "Collapse");
    monitor.toggle_expanded();
    assert_eq!(monitor.toggle_caption(), "Expand");
}

#[test]
fn marks_tell_clipping_signal_and_silence() {
    assert_eq!(SignalMark::of(&levels(&[-30.0, -0.1]), 5_000), SignalMark::Clip);
    assert_eq!(SignalMark::of(&levels(&[-30.0]), 1_000), SignalMark::Signal);
    assert_eq!(SignalMark::of(&levels(&[-30.0]), 1_001), SignalMark::NoSignal);
    assert_eq!(SignalMark::of(&levels(&[-59.0]), 0), SignalMark::NoSignal);
    assert_eq!(SignalMark::of(&Vec::new(), 0), SignalMark::NoSignal);
    assert_eq!(SignalMark::Clip.label(), "● CLIP");
    assert_eq!(SignalMark::Signal.label(), "● SIGNAL");
    assert_eq!(SignalMark::NoSignal.label(), "○ NO SIGNAL");
    assert_eq!(SignalMark::Signal.tone(), Tone::Green);
}

#[test]
fn measured_levels_are_sanitized_one_by_one() {
    let shown = sanitize_levels(&levels(&[f32::NAN, 3.0, -99.0, -7.0]));
    assert_eq!(numbers(&shown), vec![-60.0, 0.0, -60.0, -7.0]);
}

#[test]
fn grids_have_one_to_eight_columns() {
    assert_eq!(grid_columns(0, 4), 1);
    assert_eq!(grid_columns(5, 4), 4);
    assert_eq!(grid_columns(5, 32), 5);
    assert_eq!(grid_columns(20, 32), 8);
    assert_eq!(grid_columns(3, 0), 1);
    for columns in 1..=8usize {
        for channels in 1..40usize {
            let rows = (0..channels).filter(|&c| ends_row(c, columns, channels)).count();
            assert_eq!(rows, channels.div_ceil(columns));
        }
    }
}

#[test]
fn badges_and_colours_follow_direction_and_zone() {
    assert_eq!(SignalDirection::Input.direction_label(), "IN");
    assert_eq!(SignalDirection::Output.direction_label(), "OUT");
    assert_eq!(SignalDirection::Diagnostic.direction_label(), "TEST");
    assert_eq!(SignalDirection::Diagnostic.direction_color(), Tone::Orange);
    assert_eq!(MeterZone::Yellow.meter_color(), Tone::Amber);
    assert_eq!(MeterZone::Red.peak_hold_color(), Tone::TextPrimary);
    assert_eq!(active_streams_text(0), "0 active streams");
    assert_eq!(active_streams_text(1), "1 active stream");
    assert_eq!(active_streams_text(2), "2 active streams");
}
