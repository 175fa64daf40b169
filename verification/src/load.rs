//! How much a stream loads the network.

use crate::doubles::{
    double_quotient, double_whole, lemma_fineness, lemma_small_whole_is_exact, round_quotient,
    round_whole, DOUBLE_LIMIT,
};
use crate::rounding::{divide_rounded, lemma_rounded_is_near, rounded};
use crate::text::{decimal, decimal_text, push_decimal, two_digit_text, two_digits};
use crate::theme::Tone;
use vstd::prelude::*;

verus! {

/// The sample rate that estimates for publishers assume.
pub const ASSUMED_SAMPLE_RATE: u32 = 48_000;

/// How many channels a stream has, in classes.
#[derive(Clone, Copy, Debug, PartialEq, Eq, Structural)]
pub enum ChannelLoad {
    Nothing,
    Low,
    Moderate,
    High,
}

/// The class of a number of channels.
pub open spec fn load_class(channels: usize) -> ChannelLoad {
    if channels == 0 {
        ChannelLoad::Nothing
    } else if channels <= 2 {
        ChannelLoad::Low
    } else if channels <= 16 {
        ChannelLoad::Moderate
    } else {
        ChannelLoad::High
    }
}

impl ChannelLoad {
    /// What is said of a class.
    pub open spec fn message_text(self) -> Seq<char> {
        match self {
            ChannelLoad::Nothing => "No channels selected"@,
            ChannelLoad::Low => "Low channel load"@,
            ChannelLoad::Moderate => "Moderate channel load"@,
            ChannelLoad::High => "High-bandwidth multichannel stream"@,
        }
    }

    /// The colour of a class on the ASIO page.
    pub open spec fn asio_tone_of(self) -> Tone {
        match self {
            ChannelLoad::Nothing => Tone::Red,
            ChannelLoad::Low => Tone::Green,
            ChannelLoad::Moderate => Tone::Orange,
            ChannelLoad::High => Tone::Yellow,
        }
    }

    /// The colour of a class for combined streams, which always have a channel.
    pub open spec fn combined_tone_of(self) -> Tone {
        match self {
            ChannelLoad::Nothing | ChannelLoad::Low => Tone::Green,
            ChannelLoad::Moderate => Tone::Orange,
            ChannelLoad::High => Tone::Yellow,
        }
    }

    /// Classifies a number of channels.
    pub fn of(channels: usize) -> (load: ChannelLoad)
        ensures
            load == load_class(channels),
    {
        if channels == 0 {
            ChannelLoad::Nothing
        } else if channels <= 2 {
            ChannelLoad::Low
        } else if channels <= 16 {
            ChannelLoad::Moderate
        } else {
            ChannelLoad::High
        }
    }

    /// What is said of a class.
    pub fn message(self) -> (text: &'static str)
        ensures
            text@ == self.message_text(),
    {
        match self {
            ChannelLoad::Nothing => "No channels selected",
            ChannelLoad::Low => "Low channel load",
            ChannelLoad::Moderate => "Moderate channel load",
            ChannelLoad::High => "High-bandwidth multichannel stream",
        }
    }

    /// The colour of a class on the ASIO page.
    pub fn asio_tone(self) -> (tone: Tone)
        ensures
            tone == self.asio_tone_of(),
    {
        match self {
            ChannelLoad::Nothing => Tone::Red,
            ChannelLoad::Low => Tone::Green,
            ChannelLoad::Moderate => Tone::Orange,
            ChannelLoad::High => Tone::Yellow,
        }
    }

    /// The colour of a class for combined streams.
    pub fn combined_tone(self) -> (tone: Tone)
        ensures
            tone == self.combined_tone_of(),
    {
        match self {
            ChannelLoad::Nothing | ChannelLoad::Low => Tone::Green,
            ChannelLoad::Moderate => Tone::Orange,
            ChannelLoad::High => Tone::Yellow,
        }
    }

    /// Whether the user is advised to use a cable.
    pub fn wants_cable(self) -> (yes: bool)
        ensures
            yes == (self == ChannelLoad::High),
    {
        matches!(self, ChannelLoad::High)
    }
}

// ---------------------------------------------------------------------------
// Bit rates
// ---------------------------------------------------------------------------

/// The bits that uncompressed single-precision audio takes per second.
pub open spec fn raw_bits_per_second(channels: usize, sample_rate: u32) -> int {
    channels * sample_rate * 32
}

/// The bit rate as double-precision arithmetic gives it: the number of channels
/// is rounded, and so is its product with the sample rate.
pub open spec fn estimated_bits_per_second(channels: usize, sample_rate: u32) -> nat {
    32 * double_whole(double_whole(channels as nat) * sample_rate as nat)
}

/// A bit rate in hundredths of a megabit per second, as rounding the
/// double-precision quotient to two decimals gives it.
pub open spec fn hundredths_of_megabit(bits: nat) -> nat {
    let (numerator, denominator) = double_quotient(bits, 1_000_000);
    rounded(100 * numerator, denominator)
}

/// A bit rate in megabits per second, with two decimals.
pub open spec fn megabits_text(hundredths: nat) -> Seq<char> {
    decimal(hundredths / 100) + "."@ + two_digits(hundredths % 100)
}

/// The bit rate of uncompressed audio in megabits per second, with two
/// decimals.
pub fn raw_mbps_text(channels: usize, sample_rate: u32) -> (text: String)
    ensures
        text@ == megabits_text(
            hundredths_of_megabit(estimated_bits_per_second(channels, sample_rate)),
        ),
{
    let c: u128 = round_whole(channels as u128);
    let r: u128 = sample_rate as u128;
    assert(c <= 0x1_0000_0000_0000_0800);
    assert(c * r <= 0x1_0000_0000_0000_0800 * 0xffff_ffff) by (nonlinear_arith)
        requires
            c <= 0x1_0000_0000_0000_0800,
            r <= 0xffff_ffff,
    ;
    let bits: u128 = 32 * round_whole(c * r);
    let (numerator, denominator): (u128, u128) = round_quotient(bits, 1_000_000);
    let h: u128 = divide_rounded(100 * numerator, denominator);
    let mut text = String::new();
    push_decimal(&mut text, h / 100);
    text.append(".");
    let cents = two_digit_text(h % 100);
    text.append(cents.as_str());
    assert(text@ =~= megabits_text(h as nat));
    text
}

/// Up to the bit rates that double-precision numbers hold exactly, what is shown
/// is the bit rate rounded to the nearest hundredth of a megabit.
pub proof fn lemma_shown_bit_rate_is_nearest(channels: usize, sample_rate: u32)
    requires
        raw_bits_per_second(channels, sample_rate) <= DOUBLE_LIMIT,
    ensures
        estimated_bits_per_second(channels, sample_rate) == raw_bits_per_second(
            channels,
            sample_rate,
        ),
        hundredths_of_megabit(estimated_bits_per_second(channels, sample_rate)) == (
        raw_bits_per_second(channels, sample_rate) + 5_000) / 10_000,
{
    let k = (channels * sample_rate) as nat;
    let bits = 32 * k;
    assert(bits == raw_bits_per_second(channels, sample_rate));
    if sample_rate > 0 {
        assert(channels <= k) by (nonlinear_arith)
            requires
                sample_rate >= 1,
                k == channels * sample_rate,
        ;
        lemma_small_whole_is_exact(channels as nat);
    } else {
        assert(double_whole(channels as nat) * 0 == 0);
        assert(k == 0) by (nonlinear_arith)
            requires
                sample_rate == 0,
                k == channels * sample_rate,
        ;
    }
    lemma_small_whole_is_exact(k);
    assert(estimated_bits_per_second(channels, sample_rate) == bits);
    let (m, s) = double_quotient(bits, 1_000_000);
    let h = rounded(100 * m, s);
    lemma_fineness(bits, 1_000_000, 1);
    lemma_rounded_is_near(bits * s, 1_000_000);
    lemma_rounded_is_near(100 * m, s);
    if bits > 0 {
        assert(s >= 500_000) by (nonlinear_arith)
            requires
                2 * (bits * s) >= DOUBLE_LIMIT * 1_000_000,
                0 < bits <= DOUBLE_LIMIT,
        ;
        assert(2 * (10_000 * h) <= 2 * bits + 10_002) by (nonlinear_arith)
            requires
                s >= 500_000,
                2 * (h * s) <= 2 * (100 * m) + s,
                2 * (m * 1_000_000) <= 2 * (bits * s) + 1_000_000,
        ;
        assert(2 * (10_000 * h) + 10_002 >= 2 * bits) by (nonlinear_arith)
            requires
                s >= 500_000,
                2 * (100 * m) - s <= 2 * (h * s),
                2 * (bits * s) - 1_000_000 <= 2 * (m * 1_000_000),
        ;
        // Both bit rates and hundredths of a megabit are multiples of sixteen
        // bits, halves of hundredths are not.
        let gap = 625 * h - 2 * k;
        assert(10_000 * h - bits == 16 * gap);
    }
}

/// No bit rate of uncompressed audio lies halfway between two hundredths of a
/// megabit, so that rounding to the nearest is never in doubt.
pub proof fn lemma_rounding_is_never_in_doubt(channels: usize, sample_rate: u32)
    ensures
        raw_bits_per_second(channels, sample_rate) % 10_000 != 5_000,
{
    let k = channels * sample_rate;
    let bits = k * 32;
    assert(bits == raw_bits_per_second(channels, sample_rate));
    let q = bits / 10_000;
    assert(bits % 10_000 == bits - 10_000 * q);
    assert(32 * k - 10_000 * q != 5_000);
}

// ---------------------------------------------------------------------------
// Packets
// ---------------------------------------------------------------------------

/// The largest datagram that passes everywhere without being split.
pub const SAFE_UDP_PAYLOAD_BYTES: usize = 1_200;

/// The headers of an audio packet.
pub const OPENAUDIO_HEADER_BYTES: usize = 32;

/// The size of a single-precision sample.
pub const BYTES_PER_SAMPLE: usize = 4;

/// The frames in a packet: as many as fit, but one at least.
pub open spec fn frames_per_packet(channels: usize) -> int {
    if channels == 0 {
        0
    } else {
        let fit = (SAFE_UDP_PAYLOAD_BYTES - OPENAUDIO_HEADER_BYTES) / (channels * BYTES_PER_SAMPLE);
        if fit < 1 {
            1
        } else {
            fit
        }
    }
}

/// The size of a packet.
pub open spec fn packet_bytes(channels: usize) -> int {
    OPENAUDIO_HEADER_BYTES + frames_per_packet(channels) * channels * BYTES_PER_SAMPLE
}

/// The number of frames that go into one packet.
pub fn calculate_frames_per_packet(channel_count: usize) -> (frames: usize)
    requires
        channel_count * BYTES_PER_SAMPLE <= usize::MAX,
    ensures
        frames == frames_per_packet(channel_count),
{
    if channel_count == 0 {
        return 0;
    }
    let audio_budget: usize = SAFE_UDP_PAYLOAD_BYTES - OPENAUDIO_HEADER_BYTES;
    let frame: usize = channel_count * BYTES_PER_SAMPLE;
    assert(frame >= 1);
    let fit: usize = audio_budget / frame;
    if fit < 1 {
        1
    } else {
        fit
    }
}

/// What a stream is expected to put on the network.
#[derive(Clone, Copy, Debug, PartialEq, Eq, Structural)]
pub struct LoadEstimate {
    pub frames_per_packet: usize,
    pub packet_bytes: usize,
    pub within_limit: bool,
}

/// Estimates the packets of a stream.
pub fn estimate_load(channel_count: usize) -> (estimate: LoadEstimate)
    requires
        packet_bytes(channel_count) <= usize::MAX,
    ensures
        estimate.frames_per_packet == frames_per_packet(channel_count),
        estimate.packet_bytes == packet_bytes(channel_count),
        estimate.within_limit == (packet_bytes(channel_count) <= SAFE_UDP_PAYLOAD_BYTES),
{
    proof {
        lemma_one_frame_fits(channel_count);
    }
    let frames: usize = calculate_frames_per_packet(channel_count);
    assert(frames * channel_count * BYTES_PER_SAMPLE >= 0 && frames * channel_count <= frames
        * channel_count * BYTES_PER_SAMPLE && frames * channel_count >= 0) by (nonlinear_arith)
        requires
            frames >= 0,
            channel_count >= 0,
            BYTES_PER_SAMPLE == 4,
    ;
    let samples: usize = frames * channel_count;
    let bytes: usize = OPENAUDIO_HEADER_BYTES + samples * BYTES_PER_SAMPLE;
    LoadEstimate {
        frames_per_packet: frames,
        packet_bytes: bytes,
        within_limit: bytes <= SAFE_UDP_PAYLOAD_BYTES,
    }
}

/// The packets per second, as a whole number.
pub open spec fn packet_rate(sample_rate: u32, frames: usize) -> nat {
    if frames == 0 {
        0
    } else {
        rounded(sample_rate as nat, frames as nat)
    }
}

impl LoadEstimate {
    /// The line that tells how many packets per second are expected.
    pub fn packet_rate_text(&self, sample_rate: u32) -> (text: String)
        ensures
            text@ == decimal(packet_rate(sample_rate, self.frames_per_packet)) + " packets/s"@,
    {
        let rate: u128 = if self.frames_per_packet == 0 {
            0
        } else {
            divide_rounded(sample_rate as u128, self.frames_per_packet as u128)
        };
        let mut text = decimal_text(rate);
        text.append(" packets/s");
        text
    }
}

/// A packet never holds more than 292 frames.
pub proof fn lemma_frames_are_few(channels: usize)
    ensures
        0 <= frames_per_packet(channels) <= 292,
{
    if channels > 0 {
        let frame = channels * BYTES_PER_SAMPLE;
        assert(0 <= 1168int / frame <= 292) by (nonlinear_arith)
            requires
                frame >= 4,
        ;
    }
}

proof fn lemma_one_frame_fits(channels: usize)
    requires
        packet_bytes(channels) <= usize::MAX,
    ensures
        channels * BYTES_PER_SAMPLE <= usize::MAX,
{
    let f = frames_per_packet(channels);
    if channels > 0 {
        let frame = channels * BYTES_PER_SAMPLE;
        let budget = SAFE_UDP_PAYLOAD_BYTES - OPENAUDIO_HEADER_BYTES;
        assert(f >= 1);
        assert(f * channels * 4 >= channels * 4) by (nonlinear_arith)
            requires
                f >= 1,
                channels >= 0,
        ;
    }
}

/// A packet stays within the safe size exactly where a single frame does.
pub proof fn lemma_packet_within_limit(channels: usize)
    ensures
        packet_bytes(channels) <= SAFE_UDP_PAYLOAD_BYTES <==> channels <= 292,
{
    if channels > 0 {
        let frame = channels * BYTES_PER_SAMPLE;
        let fit = 1168int / frame;
        vstd::arithmetic::div_mod::lemma_fundamental_div_mod(1168, frame);
        if channels <= 292 {
            assert(fit >= 1) by (nonlinear_arith)
                requires
                    0 < frame <= 1168,
                    fit == 1168int / frame,
            ;
            assert(fit * channels * 4 == frame * fit) by (nonlinear_arith)
                requires
                    frame == channels * 4,
            ;
        } else {
            assert(fit < 1) by (nonlinear_arith)
                requires
                    frame > 1168,
                    fit == 1168int / frame,
            ;
        }
    }
}

/// A packet holds as many frames as fit into 1200 bytes with its headers of 32: one
/// more would not fit.  A frame that does not fit at all goes alone.
pub proof fn lemma_packets_are_full(channels: usize)
    requires
        channels > 0,
    ensures
        frames_per_packet(channels) >= 1,
        packet_bytes(channels) == 32 + frames_per_packet(channels) * (4 * channels),
        packet_bytes(channels) + 4 * channels > 1_200,
        frames_per_packet(channels) > 1 ==> packet_bytes(channels) <= 1_200,
{
    let frame = 4 * channels;
    let fit = 1_168int / frame;
    vstd::arithmetic::div_mod::lemma_fundamental_div_mod(1_168, frame);
    let f = frames_per_packet(channels);
    assert(f * channels * 4 == f * frame) by (nonlinear_arith)
        requires
            frame == 4 * channels,
    ;
    if fit >= 1 {
        assert(f * frame == frame * fit) by (nonlinear_arith)
            requires
                f == fit,
        ;
    } else {
        assert(frame > 1_168) by (nonlinear_arith)
            requires
                fit < 1,
                frame > 0,
                1_168 == frame * fit + 1_168int % frame,
                0 <= 1_168int % frame < frame,
        ;
        assert(f * frame == frame) by (nonlinear_arith)
            requires
                f == 1,
        ;
    }
}

/// The packets of a second carry the frames of a second, up to half a packet.
pub proof fn lemma_packet_rate_is_near(sample_rate: u32, frames: usize)
    requires
        frames > 0,
    ensures
        2 * sample_rate - frames <= 2 * (packet_rate(sample_rate, frames) * frames) <= 2
            * sample_rate + frames,
{
    lemma_rounded_is_near(sample_rate as nat, frames as nat);
}

/// The rates of channels add up, a channel taking 32 bits per sample.
pub proof fn lemma_bit_rates_add_up(a: usize, b: usize, sample_rate: u32)
    requires
        a + b <= usize::MAX,
    ensures
        raw_bits_per_second((a + b) as usize, sample_rate) == raw_bits_per_second(a, sample_rate)
            + raw_bits_per_second(b, sample_rate),
        raw_bits_per_second(1, sample_rate) == 32 * sample_rate,
{
    assert((a + b) * sample_rate * 32 == a * sample_rate * 32 + b * sample_rate * 32)
        by (nonlinear_arith);
}

/// More channels are no lighter a load: none are no load, two at most a low one,
/// sixteen at most a moderate one, and more a high one.
pub proof fn lemma_loads(channels: usize)
    ensures
        load_class(channels) == ChannelLoad::Nothing <==> channels == 0,
        load_class(channels) == ChannelLoad::Low <==> 1 <= channels <= 2,
        load_class(channels) == ChannelLoad::Moderate <==> 3 <= channels <= 16,
        load_class(channels) == ChannelLoad::High <==> channels >= 17,
{
}

/// A stream with channels has one colour on all pages, by its load; only a stream
/// without any is red.
pub proof fn lemma_load_tones(channels: usize)
    ensures
        channels > 0 ==> load_class(channels).asio_tone_of() == load_class(
            channels,
        ).combined_tone_of(),
        load_class(channels).asio_tone_of() == Tone::Red <==> channels == 0,
        load_class(channels).combined_tone_of() == Tone::Green <==> channels <= 2,
        load_class(channels).combined_tone_of() == Tone::Orange <==> 3 <= channels <= 16,
        load_class(channels).combined_tone_of() == Tone::Yellow <==> channels >= 17,
{
}

/// The hundredths stand behind the point.
pub proof fn lemma_megabits_are_written(hundredths: nat)
    ensures
        ({
            let whole = decimal(hundredths / 100);
            let text = megabits_text(hundredths);
            &&& text.take(whole.len() as int) == whole
            &&& text[whole.len() as int] == '.'
            &&& text.len() == whole.len() + 3
            &&& 100 * crate::text::digits_value(whole) + crate::text::digits_value(
                text.skip(whole.len() as int + 1),
            ) == hundredths
        }),
{
    reveal_strlit(".");
    let whole = decimal(hundredths / 100);
    let text = megabits_text(hundredths);
    crate::text::lemma_decimal_round_trip(hundredths / 100);
    crate::text::lemma_two_digits(hundredths % 100);
    assert(text.take(whole.len() as int) =~= whole);
    assert(text.skip(whole.len() as int + 1) =~= two_digits(hundredths % 100));
}

/// What is said of a number of channels grows with it.
pub proof fn lemma_load_messages(channels: usize)
    ensures
        channels == 0 ==> load_class(channels).message_text() == "No channels selected"@,
        1 <= channels <= 2 ==> load_class(channels).message_text() == "Low channel load"@,
        3 <= channels <= 16 ==> load_class(channels).message_text() == "Moderate channel load"@,
        channels >= 17 ==> load_class(channels).message_text()
            == "High-bandwidth multichannel stream"@,
{
}

/// Where the rate is not known a channel counts as one at 48 kHz.
pub proof fn lemma_assumed_rate(channels: usize)
    ensures
        raw_bits_per_second(channels, ASSUMED_SAMPLE_RATE) == 1_536_000 * channels,
{
    assert(channels * ASSUMED_SAMPLE_RATE * 32 == 1_536_000 * channels) by (nonlinear_arith)
        requires
            ASSUMED_SAMPLE_RATE == 48_000,
    ;
}

} // verus!
