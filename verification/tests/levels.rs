//! Levels and volumes as bit patterns of single-precision numbers.

use openaudio::level::{
    above_signal_threshold, any_clips, maximum_peak, Level, MeterZone, Volume,
};

fn level(db: f32) -> Level {
    Level { bits: db.to_bits() }
}

fn db(level: Level) -> f32 {
    f32::from_bits(level.bits)
}

fn samples() -> Vec<f32> {
    let mut samples = vec![
        f32::NAN,
        f32::INFINITY,
        f32::NEG_INFINITY,
        f32::MAX,
        f32::MIN,
        f32::MIN_POSITIVE,
        0.0,
        -0.0,
        -0.1,
        -0.099_999,
        -0.100_001,
        -1.0,
        -12.0,
        -59.0,
        -59.000_004,
        -60.0,
        -60.000_004,
        1.0,
        2.0,
        2.000_000_2,
        1.5,
    ];
    for step in 0..2_000u32 {
        samples.push(step as f32 * 0.05 - 90.0);
    }
    samples
}

#[test]
fn measured_levels_are_brought_onto_the_scale() {
    for sample in samples() {
        let expected = if sample.is_finite() { sample.clamp(-60.0, 0.0) } else { -60.0 };
        assert_eq!(level(sample).sanitize_db().bits, expected.to_bits(), "{sample}");
    }
}

#[test]
fn thresholds_match_the_numbers_they_stand_for() {
    assert_eq!(db(Level::floor()), -60.0);
    for sample in samples() {
        assert_eq!(level(sample).clips(), sample >= -0.1, "{sample}");
        assert_eq!(above_signal_threshold(level(sample)), sample > -59.0, "{sample}");
        let zone = if sample >= -1.0 {
            MeterZone::Red
        } else if sample >= -12.0 {
            MeterZone::Yellow
        } else {
            MeterZone::Green
        };
        assert_eq!(level(sample).meter_zone(), zone, "{sample}");
        let shown = if sample.is_finite() { sample.clamp(-60.0, 0.0) } else { -60.0 };
        assert_eq!(level(sample).is_silent(), shown <= -60.0, "{sample}");
    }
}

#[test]
fn held_peaks_follow_louder_levels_and_sink_towards_softer_ones() {
    for held in [-60.0f32, -40.0, -3.5, 0.0] {
        for current in [-60.0f32, -41.0, -3.5, -0.5, 0.0] {
            for decay in [0.0f32, 0.9, 18.0] {
                let expected = if current >= held {
                    current
                } else {
                    (held - decay).max(current).max(-60.0)
                };
                let next = level(held).hold(level(current), level(held - decay));
                assert_eq!(db(next), expected, "{held} {current} {decay}");
            }
        }
    }
}

#[test]
fn highest_peak_and_clipping_are_those_of_the_channels() {
    let quiet = vec![level(-30.0), level(-12.5), level(-45.0)];
    assert_eq!(db(maximum_peak(&quiet)), -12.5);
    assert!(!any_clips(&quiet));
    let loud = vec![level(-30.0), level(-0.05)];
    assert_eq!(db(maximum_peak(&loud)), -0.05);
    assert!(any_clips(&loud));
    assert_eq!(db(maximum_peak(&Vec::new())), -60.0);
    assert!(!any_clips(&Vec::new()));
}

#[test]
fn stored_volumes_are_limited_to_the_range_from_zero_to_two() {
    assert_eq!(f32::from_bits(Volume::unity().bits), 1.0);
    for sample in samples() {
        let accepted = Volume { bits: sample.to_bits() }.accept();
        assert_eq!(accepted.bits, sample.clamp(0.0, 2.0).to_bits(), "{sample}");
        assert_eq!(accepted.accept().bits, accepted.bits);
    }
}
