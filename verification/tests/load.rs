//! Estimates of the network load.

use openaudio::load::{
    calculate_frames_per_packet, estimate_load, raw_mbps_text, ChannelLoad, SAFE_UDP_PAYLOAD_BYTES,
};
use openaudio::theme::{Rgb, Tone};

#[test]
fn tones_have_their_colours() {
    assert_eq!(Tone::Blue.rgb(), Rgb { r: 0, g: 122, b: 255 });
    assert_eq!(Tone::Yellow.rgb(), Rgb { r: 255, g: 255, b: 0 });
    assert_eq!(Tone::TextSecondary.rgb(), Rgb { r: 152, g: 152, b: 157 });
    assert_eq!(Tone::BackgroundWarning.rgb(), Rgb { r: 70, g: 48, b: 12 });
}

#[test]
fn channel_counts_are_classified() {
    assert_eq!(ChannelLoad::of(0), ChannelLoad::Nothing);
    assert_eq!(ChannelLoad::of(1), ChannelLoad::Low);
    assert_eq!(ChannelLoad::of(2), ChannelLoad::Low);
    assert_eq!(ChannelLoad::of(3), ChannelLoad::Moderate);
    assert_eq!(ChannelLoad::of(16), ChannelLoad::Moderate);
    assert_eq!(ChannelLoad::of(17), ChannelLoad::High);
    assert_eq!(ChannelLoad::High.message(), "High-bandwidth multichannel stream");
    assert_eq!(ChannelLoad::Nothing.asio_tone(), Tone::Red);
    assert_eq!(ChannelLoad::Nothing.combined_tone(), Tone::Green);
    assert_eq!(ChannelLoad::Moderate.asio_tone(), Tone::Orange);
    assert!(ChannelLoad::High.wants_cable());
    assert!(!ChannelLoad::Moderate.wants_cable());
}

#[test]
fn bit_rates_are_shown_like_the_formatted_quotient() {
    assert_eq!(raw_mbps_text(32, 48_000), "49.15");
    assert_eq!(raw_mbps_text(0, 48_000), "0.00");
    for rate in [1u32, 7, 44_100, 48_000, 96_000, 192_000, u32::MAX] {
        for channels in 0..400usize {
            let expected =
                format!("{:.2}", channels as f64 * rate as f64 * 4.0 * 8.0 / 1_000_000.0);
            assert_eq!(raw_mbps_text(channels, rate), expected, "{channels} {rate}");
        }
    }
}

#[test]
fn large_bit_rates_are_shown_as_double_precision_gives_them() {
    assert_eq!(raw_mbps_text(usize::MAX, 1), "590295810358705.62");
    assert_eq!(raw_mbps_text(usize::MAX, 0), "0.00");
    let rates = [1u32, 3, 7, 44_100, 48_000, 65_537, 192_000, u32::MAX - 1, u32::MAX];
    let mut samples: Vec<usize> = Vec::new();
    for shift in 0..64 {
        let power = 1usize << shift;
        samples.extend([power - 1, power, power + 1, power | (power >> 1), !power]);
    }
    for half in [1usize << 52, 1 << 53, 1 << 54, 1 << 60] {
        samples.extend((0..40).map(|step| half + step));
    }
    let mut seed: u64 = 0x9e37_79b9_7f4a_7c15;
    for _ in 0..4_000 {
        seed ^= seed << 13;
        seed ^= seed >> 7;
        seed ^= seed << 17;
        samples.push((seed >> (seed % 61)) as usize);
    }
    for channels in samples {
        for rate in rates {
            let expected =
                format!("{:.2}", channels as f64 * rate as f64 * 4.0 * 8.0 / 1_000_000.0);
            assert_eq!(raw_mbps_text(channels, rate), expected, "{channels} {rate}");
        }
    }
}

#[test]
fn packets_hold_as_many_frames_as_fit() {
    assert_eq!(calculate_frames_per_packet(0), 0);
    assert_eq!(calculate_frames_per_packet(1), 292);
    assert_eq!(calculate_frames_per_packet(2), 146);
    assert_eq!(calculate_frames_per_packet(32), 9);
    assert_eq!(calculate_frames_per_packet(64), 4);
    assert_eq!(calculate_frames_per_packet(292), 1);
    assert_eq!(calculate_frames_per_packet(1_000), 1);
}

#[test]
fn estimates_tell_size_and_rate_of_packets() {
    let estimate = estimate_load(32);
    assert_eq!(estimate.packet_bytes, 32 + 9 * 32 * 4);
    assert!(estimate.within_limit);
    assert_eq!(estimate.packet_rate_text(48_000), "5333 packets/s");
    assert_eq!(estimate_load(0).packet_rate_text(48_000), "0 packets/s");
    assert!(estimate_load(292).within_limit);
    assert!(!estimate_load(293).within_limit);
    assert!(estimate_load(292).packet_bytes <= SAFE_UDP_PAYLOAD_BYTES);
}

#[test]
fn packet_rates_are_rounded_like_the_formatted_quotient() {
    for channels in 1..300usize {
        let estimate = estimate_load(channels);
        for rate in [44_100u32, 48_000, 96_000, 1, 2, 3, 5, 73, 219, u32::MAX] {
            let expected =
                format!("{:.0} packets/s", rate as f64 / estimate.frames_per_packet as f64);
            assert_eq!(estimate.packet_rate_text(rate), expected, "{channels} {rate}");
        }
    }
}
