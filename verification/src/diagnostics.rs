//! Synthetic publishers that put a load on the network without any audio
//! device.

use crate::control::{
    any_running, elapsed, elapsed_since, find_session, halted, halt_all, lemma_place_of, place_of,
    remove_idle, removable, some_running, ControlState, Session, SessionControl, SECOND,
};
use crate::load::{packet_bytes, SAFE_UDP_PAYLOAD_BYTES};
use crate::publish::{stream_id_for, stream_number};
use crate::text::{
    decimal, decimal_text, join2, join_number, join_number_between, option_text, push_decimal,
    starts_with, starts_with_text, trim, trimmed, two_digit_text, two_digits,
};
use vstd::prelude::*;

verus! {

/// The channels of a new test.
pub const DEFAULT_CHANNEL_COUNT: usize = 32;

/// The sample rate of a new test.
pub const DEFAULT_SAMPLE_RATE: u32 = 48_000;

/// What the stream numbers of tests are counted from.
pub const DIAGNOSTIC_STREAM_ID_BASE: u32 = 90_000;

/// How long a test ignores its button after it was toggled.
pub const DIAGNOSTIC_DEBOUNCE: u64 = 300_000_000;

pub const TEST_READY: &'static str = "Ready. Start the test, then subscribe normally.";

pub const TEST_ADVERTISING: &'static str = "Advertising. Waiting for a subscriber...";

pub const TEST_STOPPING: &'static str = "Stopping diagnostic publisher...";

pub const TEST_FAILED: &'static str = "Failed: ";

pub const TEST_THREAD_FAILED: &'static str = "Failed to start diagnostic thread: ";

pub const NO_PRESSURE: &'static str = "✓ Publisher completed without detected pressure.";

pub const PRESSURE: &'static str = "⚠ Publisher pressure was detected. Check send errors and skipped frames.";

/// The channel counts on offer.
pub open spec fn offered_channel_counts() -> Seq<usize> {
    seq![2, 8, 16, 24, 32, 64]
}

/// The sample rates on offer.
pub open spec fn offered_sample_rates() -> Seq<u32> {
    seq![44_100, 48_000]
}

/// The channel counts on offer.
pub fn channel_options() -> (options: Vec<usize>)
    ensures
        options@ == offered_channel_counts(),
{
    vec![2, 8, 16, 24, 32, 64]
}

/// The sample rates on offer.
pub fn sample_rate_options() -> (options: Vec<u32>)
    ensures
        options@ == offered_sample_rates(),
{
    vec![44_100, 48_000]
}

/// A test with any of the channel counts on offer stays within the safe packet
/// size.
pub proof fn lemma_offered_counts_are_safe(index: int)
    requires
        0 <= index < offered_channel_counts().len(),
    ensures
        packet_bytes(offered_channel_counts()[index]) <= SAFE_UDP_PAYLOAD_BYTES,
{
    crate::load::lemma_packet_within_limit(offered_channel_counts()[index]);
}

// ---------------------------------------------------------------------------
// Durations
// ---------------------------------------------------------------------------

/// A duration as it is shown.
pub open spec fn duration_text(seconds: u64) -> Seq<char> {
    if seconds >= 60 {
        decimal((seconds / 60) as nat) + "m "@ + two_digits((seconds % 60) as nat) + "s"@
    } else {
        decimal(seconds as nat) + "s"@
    }
}

/// A duration as it is shown.
pub fn format_duration(total_seconds: u64) -> (text: String)
    ensures
        text@ == duration_text(total_seconds),
{
    let minutes: u64 = total_seconds / 60;
    let seconds: u64 = total_seconds % 60;
    if minutes > 0 {
        let mut text = decimal_text(minutes as u128);
        text.append("m ");
        let rest = two_digit_text(seconds as u128);
        text.append(rest.as_str());
        text.append("s");
        text
    } else {
        let mut text = decimal_text(seconds as u128);
        text.append("s");
        text
    }
}

// ---------------------------------------------------------------------------
// Tests
// ---------------------------------------------------------------------------

/// What a test has sent.
#[derive(Clone, Copy, Debug, PartialEq, Eq, Structural)]
pub struct DiagnosticReport {
    pub elapsed_seconds: u64,
    pub packets_built: u64,
    pub datagrams_sent: u64,
    pub send_errors: u64,
    pub skipped_catch_up_frames: u64,
    pub maximum_packet_bytes: usize,
}

impl DiagnosticReport {
    /// The status line of a test that has ended.
    pub open spec fn summary_text(self) -> Seq<char> {
        "Stopped: "@ + decimal(self.packets_built as nat) + " packets, "@ + decimal(
            self.datagrams_sent as nat,
        ) + " datagrams, "@ + decimal(self.send_errors as nat) + " send errors, "@ + decimal(
            self.skipped_catch_up_frames as nat,
        ) + " skipped frames."@
    }

    /// Whether the publisher kept up.
    pub open spec fn is_clean(self) -> bool {
        self.send_errors == 0 && self.skipped_catch_up_frames == 0
    }

    /// The status line of a test that has ended.
    pub fn summary(&self) -> (text: String)
        ensures
            text@ == self.summary_text(),
    {
        let mut text = join_number_between("Stopped: ", self.packets_built as u128, " packets, ");
        push_decimal(&mut text, self.datagrams_sent as u128);
        text.append(" datagrams, ");
        push_decimal(&mut text, self.send_errors as u128);
        text.append(" send errors, ");
        push_decimal(&mut text, self.skipped_catch_up_frames as u128);
        text.append(" skipped frames.");
        text
    }

    /// Whether the publisher kept up.
    pub fn kept_up(&self) -> (yes: bool)
        ensures
            yes == self.is_clean(),
    {
        self.send_errors == 0 && self.skipped_catch_up_frames == 0
    }

    /// The line that tells whether the publisher kept up.
    pub fn verdict(&self) -> (text: &'static str)
        ensures
            text@ == if self.is_clean() {
                NO_PRESSURE@
            } else {
                PRESSURE@
            },
    {
        if self.kept_up() {
            NO_PRESSURE
        } else {
            PRESSURE
        }
    }
}

/// The configuration of a test and what it has done.
pub struct DiagnosticSetup {
    pub node_name: String,
    pub stream_name: String,
    pub stream_id: u32,
    pub channel_count: usize,
    pub sample_rate: u32,
    pub started_at: Option<u64>,
    pub final_report: Option<DiagnosticReport>,
}

/// A test, in mathematical terms.
#[verifier::ext_equal]
pub struct DiagnosticState {
    pub node_name: Seq<char>,
    pub stream_name: Seq<char>,
    pub stream_id: u32,
    pub channel_count: usize,
    pub sample_rate: u32,
    pub started_at: Option<u64>,
    pub final_report: Option<DiagnosticReport>,
}

impl View for DiagnosticSetup {
    type V = DiagnosticState;

    open spec fn view(&self) -> DiagnosticState {
        DiagnosticState {
            node_name: self.node_name@,
            stream_name: self.stream_name@,
            stream_id: self.stream_id,
            channel_count: self.channel_count,
            sample_rate: self.sample_rate,
            started_at: self.started_at,
            final_report: self.final_report,
        }
    }
}

/// A moment one second before `now`, or `now` itself where the clock has not
/// run that long.
pub open spec fn a_second_ago_or_now(now: u64) -> u64 {
    if now >= SECOND {
        (now - SECOND) as u64
    } else {
        now
    }
}

impl DiagnosticState {
    /// A new test.
    pub open spec fn fresh(id: u64, channel_count: usize) -> DiagnosticState {
        DiagnosticState {
            node_name: "OpenAudio Diagnostic "@ + decimal(id as nat),
            stream_name: decimal(channel_count as nat) + "ch Network Test"@,
            stream_id: stream_number(DIAGNOSTIC_STREAM_ID_BASE, id),
            channel_count,
            sample_rate: DEFAULT_SAMPLE_RATE,
            started_at: None,
            final_report: None,
        }
    }
}

/// Whether the button of a test reacts.
pub open spec fn test_debounced(control: ControlState, now: u64) -> bool {
    elapsed(control.last_toggle, now) >= DIAGNOSTIC_DEBOUNCE
}

/// What is asked of the publisher.
pub struct DiagnosticRequest {
    pub node_name: String,
    pub stream_name: String,
    pub stream_id: u32,
    pub channel_count: usize,
    pub sample_rate: u32,
}

/// A new test.
pub fn new_diagnostic_session(id: u64, channel_count: usize, now: u64) -> (session: Session<
    DiagnosticSetup,
>)
    ensures
        session.id == id,
        session.control@ == (ControlState {
            running: false,
            status: TEST_READY@,
            last_toggle: a_second_ago_or_now(now),
        }),
        session.config@ == DiagnosticState::fresh(id, channel_count),
{
    let mut stream_name = decimal_text(channel_count as u128);
    stream_name.append("ch Network Test");
    Session {
        id,
        control: SessionControl {
            running: false,
            status: TEST_READY.to_string(),
            last_toggle: if now >= SECOND {
                now - SECOND
            } else {
                now
            },
        },
        config: DiagnosticSetup {
            node_name: join_number("OpenAudio Diagnostic ", id as u128),
            stream_name,
            stream_id: stream_id_for(DIAGNOSTIC_STREAM_ID_BASE, id),
            channel_count,
            sample_rate: DEFAULT_SAMPLE_RATE,
            started_at: None,
            final_report: None,
        },
    }
}

impl Session<DiagnosticSetup> {
    /// Gives the test other names, another stream number and another format,
    /// unless it runs.
    pub fn configure(
        &mut self,
        node_name: String,
        stream_name: String,
        stream_id: u32,
        channel_count: usize,
        sample_rate: u32,
    )
        ensures
            final(self).id == old(self).id,
            final(self).control == old(self).control,
            final(self).config@ == if old(self).control.running {
                old(self).config@
            } else {
                DiagnosticState {
                    node_name: node_name@,
                    stream_name: stream_name@,
                    stream_id,
                    channel_count,
                    sample_rate,
                    ..old(self).config@
                }
            },
    {
        if !self.control.running {
            self.config.node_name = node_name;
            self.config.stream_name = stream_name;
            self.config.stream_id = stream_id;
            self.config.channel_count = channel_count;
            self.config.sample_rate = sample_rate;
        }
    }

    /// Begins to start the test: hands out what is to be asked of the
    /// publisher, unless the button is still ignored or the test runs.
    pub fn start_request(&mut self, now: u64) -> (request: Option<DiagnosticRequest>)
        ensures
            final(self).id == old(self).id,
            final(self).config == old(self).config,
            final(self).control@ == if test_debounced(old(self).control@, now) {
                ControlState { last_toggle: now, ..old(self).control@ }
            } else {
                old(self).control@
            },
            request is Some <==> test_debounced(old(self).control@, now)
                && !old(self).control.running,
            request matches Some(r) ==> {
                &&& r.node_name@ == trimmed(old(self).config.node_name@)
                &&& r.stream_name@ == trimmed(old(self).config.stream_name@)
                &&& r.stream_id == old(self).config.stream_id
                &&& r.channel_count == old(self).config.channel_count
                &&& r.sample_rate == old(self).config.sample_rate
            },
    {
        if elapsed_since(self.control.last_toggle, now) < DIAGNOSTIC_DEBOUNCE {
            return None;
        }
        self.control.last_toggle = now;
        if self.control.running {
            return None;
        }
        Some(
            DiagnosticRequest {
                node_name: trim(self.config.node_name.as_str()).to_string(),
                stream_name: trim(self.config.stream_name.as_str()).to_string(),
                stream_id: self.config.stream_id,
                channel_count: self.config.channel_count,
                sample_rate: self.config.sample_rate,
            },
        )
    }

    /// Takes in whether the publisher accepts what was asked.  If it does, the
    /// test runs and the name of its thread is handed out.
    pub fn publisher_answered(&mut self, result: &Result<(), String>, now: u64) -> (thread_name:
        Option<String>)
        ensures
            final(self).id == old(self).id,
            thread_name is Some <==> result is Ok,
            match *result {
                Err(error) => {
                    &&& final(self).config == old(self).config
                    &&& final(self).control@ == (ControlState {
                        status: TEST_FAILED@ + error@,
                        ..old(self).control@
                    })
                },
                Ok(()) => {
                    &&& final(self).config@ == (DiagnosticState {
                        started_at: Some(now),
                        final_report: None,
                        ..old(self).config@
                    })
                    &&& final(self).control@ == (ControlState {
                        running: true,
                        status: TEST_ADVERTISING@,
                        ..old(self).control@
                    })
                    &&& option_text(thread_name) == Some(
                        "diagnostic-publisher-"@ + decimal(old(self).id as nat),
                    )
                },
            },
    {
        match result {
            Err(error) => {
                self.control.status = join2(TEST_FAILED, error.as_str());
                None
            },
            Ok(()) => {
                self.control.running = true;
                self.config.started_at = Some(now);
                self.config.final_report = None;
                self.control.status = TEST_ADVERTISING.to_string();
                Some(join_number("diagnostic-publisher-", self.id as u128))
            },
        }
    }

    /// Takes in that the thread of the test could not be started.
    pub fn thread_failed(&mut self, error: &str)
        ensures
            final(self).id == old(self).id,
            final(self).config@ == (DiagnosticState { started_at: None, ..old(self).config@ }),
            final(self).control@ == (ControlState {
                running: false,
                status: TEST_THREAD_FAILED@ + error@,
                ..old(self).control@
            }),
    {
        self.control.running = false;
        self.config.started_at = None;
        self.control.status = join2(TEST_THREAD_FAILED, error);
    }

    /// Asks the test to stop, unless its button is still ignored.
    pub fn stop_session(&mut self, now: u64)
        ensures
            final(self).id == old(self).id,
            final(self).config == old(self).config,
            final(self).control@ == if test_debounced(old(self).control@, now) {
                ControlState { running: false, status: TEST_STOPPING@, last_toggle: now }
            } else {
                old(self).control@
            },
    {
        if elapsed_since(self.control.last_toggle, now) < DIAGNOSTIC_DEBOUNCE {
            return;
        }
        self.control.last_toggle = now;
        self.control.running = false;
        self.control.status = TEST_STOPPING.to_string();
    }

    /// How long the test has run, while it runs.
    pub fn elapsed_text(&self, now: u64) -> (text: Option<String>)
        ensures
            option_text(text) == match self.config.started_at {
                Some(started) if self.control.running => Some(
                    "Elapsed: "@ + duration_text((elapsed(started, now) / SECOND as int) as u64),
                ),
                _ => None,
            },
    {
        match self.config.started_at {
            Some(started) if self.control.running => {
                let time: u64 = elapsed_since(started, now) / SECOND;
                let shown = format_duration(time);
                Some(join2("Elapsed: ", shown.as_str()))
            },
            _ => None,
        }
    }

    /// Whether the status line tells of a failure.
    pub fn status_is_failure(&self) -> (yes: bool)
        ensures
            yes == starts_with_text(self.control.status@, "Failed"@),
    {
        starts_with(self.control.status.as_str(), "Failed")
    }
}

/// Each failure is shown as one, and no other state of a test is.
pub proof fn lemma_failures_are_shown(error: Seq<char>, report: DiagnosticReport)
    ensures
        starts_with_text(TEST_FAILED@ + error, "Failed"@),
        starts_with_text(TEST_THREAD_FAILED@ + error, "Failed"@),
        !starts_with_text(TEST_READY@, "Failed"@),
        !starts_with_text(TEST_ADVERTISING@, "Failed"@),
        !starts_with_text(TEST_STOPPING@, "Failed"@),
        !starts_with_text(report.summary_text(), "Failed"@),
{
    reveal_strlit("Failed");
    reveal_strlit("Failed: ");
    reveal_strlit("Failed to start diagnostic thread: ");
    reveal_strlit("Ready. Start the test, then subscribe normally.");
    reveal_strlit("Advertising. Waiting for a subscriber...");
    reveal_strlit("Stopping diagnostic publisher...");
    reveal_strlit("Stopped: ");
    let failed = "Failed"@;
    let a = TEST_FAILED@ + error;
    let b = TEST_THREAD_FAILED@ + error;
    assert(a.subrange(0, failed.len() as int) =~= failed);
    assert(b.subrange(0, failed.len() as int) =~= failed);
    let c = report.summary_text();
    assert(c[0] == 'S');
    assert(failed[0] == 'F');
    assert(TEST_READY@[0] == 'R');
    assert(TEST_ADVERTISING@[0] == 'A');
    assert(TEST_STOPPING@[0] == 'S');
}

// ---------------------------------------------------------------------------
// The panel
// ---------------------------------------------------------------------------

/// All tests.
pub struct DiagnosticPanel {
    pub sessions: Vec<Session<DiagnosticSetup>>,
    pub next_session_id: u64,
}

/// The outcome of a test, in mathematical terms.
pub open spec fn test_outcome(result: Result<DiagnosticReport, String>) -> Result<
    DiagnosticReport,
    Seq<char>,
> {
    match result {
        Ok(report) => Ok(report),
        Err(error) => Err(error@),
    }
}

/// The running state of a test that has ended.
pub open spec fn test_ended(
    control: ControlState,
    outcome: Result<DiagnosticReport, Seq<char>>,
) -> ControlState {
    ControlState {
        running: false,
        status: match outcome {
            Ok(report) => report.summary_text(),
            Err(error) => TEST_FAILED@ + error,
        },
        ..control
    }
}

/// What a test keeps of its outcome.
pub open spec fn with_outcome(
    state: DiagnosticState,
    outcome: Result<DiagnosticReport, Seq<char>>,
) -> DiagnosticState {
    DiagnosticState {
        final_report: match outcome {
            Ok(report) => Some(report),
            Err(error) => state.final_report,
        },
        ..state
    }
}

impl DiagnosticPanel {
    /// Whether no two tests share an identity, and the next one will not
    /// either.
    pub open spec fn well_formed(self) -> bool {
        &&& forall|i: int|
            0 <= i < self.sessions@.len() ==> (#[trigger] self.sessions@[i]).id
                < self.next_session_id
        &&& forall|i: int, j: int|
            0 <= i < j < self.sessions@.len() ==> (#[trigger] self.sessions@[i]).id != (
            #[trigger] self.sessions@[j]).id
    }

    /// A panel without tests.
    pub fn new() -> (panel: Self)
        ensures
            panel.well_formed(),
            panel.sessions@.len() == 0,
            panel.next_session_id == 1,
    {
        DiagnosticPanel { sessions: Vec::new(), next_session_id: 1 }
    }

    /// Adds a test with the usual number of channels.
    pub fn add_session(&mut self, now: u64)
        ensures
            old(self).well_formed() && old(self).next_session_id < u64::MAX
                ==> final(self).well_formed(),
            final(self).next_session_id == if old(self).next_session_id < u64::MAX {
                (old(self).next_session_id + 1) as u64
            } else {
                u64::MAX
            },
            final(self).sessions@.len() == old(self).sessions@.len() + 1,
            final(self).sessions@.drop_last() == old(self).sessions@,
            final(self).sessions@.last().id == old(self).next_session_id,
            final(self).sessions@.last().control@ == (ControlState {
                running: false,
                status: TEST_READY@,
                last_toggle: a_second_ago_or_now(now),
            }),
            final(self).sessions@.last().config@ == DiagnosticState::fresh(
                old(self).next_session_id,
                DEFAULT_CHANNEL_COUNT,
            ),
    {
        self.add_session_with_channels(DEFAULT_CHANNEL_COUNT, now);
    }

    /// Adds a test.
    pub fn add_session_with_channels(&mut self, channel_count: usize, now: u64)
        ensures
            old(self).well_formed() && old(self).next_session_id < u64::MAX
                ==> final(self).well_formed(),
            final(self).next_session_id == if old(self).next_session_id < u64::MAX {
                (old(self).next_session_id + 1) as u64
            } else {
                u64::MAX
            },
            final(self).sessions@.len() == old(self).sessions@.len() + 1,
            final(self).sessions@.drop_last() == old(self).sessions@,
            final(self).sessions@.last().id == old(self).next_session_id,
            final(self).sessions@.last().control@ == (ControlState {
                running: false,
                status: TEST_READY@,
                last_toggle: a_second_ago_or_now(now),
            }),
            final(self).sessions@.last().config@ == DiagnosticState::fresh(
                old(self).next_session_id,
                channel_count,
            ),
    {
        let id: u64 = self.next_session_id;
        self.next_session_id = id.saturating_add(1);
        self.sessions.push(new_diagnostic_session(id, channel_count, now));
        assert(self.sessions@.drop_last() =~= old(self).sessions@);
    }

    /// Removes the test at a place, if there is one and it does not run.
    pub fn remove_session(&mut self, index: usize) -> (removed: Option<Session<DiagnosticSetup>>)
        ensures
            old(self).well_formed() ==> final(self).well_formed(),
            final(self).next_session_id == old(self).next_session_id,
            removed is Some <==> removable(old(self).sessions@, index),
            removed matches Some(session) ==> session == halted(old(self).sessions@[index as int])
                && final(self).sessions@ == old(self).sessions@.remove(index as int),
            removed is None ==> final(self).sessions@ == old(self).sessions@,
    {
        remove_idle(&mut self.sessions, index)
    }

    /// Takes in that the worker of a test has ended.
    pub fn worker_finished(&mut self, id: u64, result: &Result<DiagnosticReport, String>)
        ensures
            old(self).well_formed() ==> final(self).well_formed(),
            final(self).next_session_id == old(self).next_session_id,
            final(self).sessions@.len() == old(self).sessions@.len(),
            forall|i: int|
                0 <= i < old(self).sessions@.len() ==> {
                    let before = #[trigger] old(self).sessions@[i];
                    let after = final(self).sessions@[i];
                    if place_of(old(self).sessions@, id) == Some(i) {
                        &&& after.id == before.id
                        &&& after.control@ == test_ended(before.control@, test_outcome(*result))
                        &&& after.config@ == with_outcome(before.config@, test_outcome(*result))
                    } else {
                        after == before
                    }
                },
    {
        proof {
            lemma_place_of(self.sessions@, id);
        }
        match find_session(&self.sessions, id) {
            Some(index) => {
                self.sessions[index].control.running = false;
                match result {
                    Ok(report) => {
                        self.sessions[index].config.final_report = Some(*report);
                        self.sessions[index].control.status = report.summary();
                    },
                    Err(error) => {
                        self.sessions[index].control.status = join2(TEST_FAILED, error.as_str());
                    },
                }
            },
            None => {},
        }
    }

    /// Whether the window has to be drawn again soon.
    pub fn wants_repaint(&self) -> (yes: bool)
        ensures
            yes == some_running(self.sessions@),
    {
        any_running(&self.sessions)
    }

    /// Tells the workers of all tests to stop.
    pub fn halt(&mut self)
        ensures
            final(self).next_session_id == old(self).next_session_id,
            final(self).sessions@ == old(self).sessions@.map_values(
                |s: Session<DiagnosticSetup>| halted(s),
            ),
            !some_running(final(self).sessions@),
    {
        halt_all(&mut self.sessions);
    }
}

impl Default for DiagnosticPanel {
    /// A panel without tests.
    fn default() -> (panel: Self)
        ensures
            panel.well_formed(),
            panel.sessions@.len() == 0,
            panel.next_session_id == 1,
    {
        DiagnosticPanel::new()
    }
}

/// A new test can be started at once, as long as the clock has run for a
/// second; one that was just started or stopped can not.
pub proof fn lemma_new_test_can_start(now: u64, control: ControlState)
    ensures
        now >= SECOND ==> test_debounced(
            ControlState { last_toggle: a_second_ago_or_now(now), ..control },
            now,
        ),
        !test_debounced(ControlState { last_toggle: now, ..control }, now),
{
}

/// A duration is shown in seconds, and from a minute on in minutes and the seconds
/// that are left, of which there are two digits.
pub proof fn lemma_durations(minutes: u64, seconds: u64)
    requires
        seconds < 60,
        60 * minutes + seconds <= u64::MAX,
    ensures
        duration_text(seconds) == decimal(seconds as nat) + "s"@,
        minutes > 0 ==> duration_text((60 * minutes + seconds) as u64) == decimal(minutes as nat)
            + "m "@ + two_digits(seconds as nat) + "s"@,
{
}

/// For three tenths of a second after it was toggled a test ignores its button.
pub proof fn lemma_test_button_comes_back(control: ControlState, at: u64, time: u64)
    requires
        at + time <= u64::MAX,
    ensures
        test_debounced(ControlState { last_toggle: at, ..control }, (at + time) as u64) <==> time
            >= 300_000_000,
{
}

/// A new test has the channels that were asked for, a stream number of its own and
/// neither a start nor a report.
pub proof fn lemma_new_tests(id: u64, other: u64, channels: usize)
    requires
        id < 1_000_000,
        other < 1_000_000,
    ensures
        DiagnosticState::fresh(id, channels).channel_count == channels,
        DiagnosticState::fresh(id, channels).stream_id == 90_000 + id,
        DiagnosticState::fresh(id, channels).sample_rate == 48_000,
        DiagnosticState::fresh(id, channels).started_at is None,
        DiagnosticState::fresh(id, channels).final_report is None,
        id != other ==> DiagnosticState::fresh(id, channels).stream_id != DiagnosticState::fresh(
            other,
            channels,
        ).stream_id,
        starts_with_text(
            DiagnosticState::fresh(id, channels).stream_name,
            decimal(channels as nat),
        ),
        DEFAULT_CHANNEL_COUNT == 32,
{
    crate::text::lemma_what_is_found(
        Seq::empty(),
        decimal(channels as nat),
        "ch Network Test"@,
    );
}

/// A test that ends no longer runs; its report is kept, and an error leaves the
/// last one.  What was configured stays.
pub proof fn lemma_tests_end(
    control: ControlState,
    state: DiagnosticState,
    outcome: Result<DiagnosticReport, Seq<char>>,
)
    ensures
        !test_ended(control, outcome).running,
        test_ended(control, outcome).last_toggle == control.last_toggle,
        outcome matches Ok(report) ==> with_outcome(state, outcome).final_report == Some(report)
            && test_ended(control, outcome).status == report.summary_text(),
        outcome is Err ==> with_outcome(state, outcome).final_report == state.final_report,
        outcome matches Err(error) ==> crate::text::contains_text(
            test_ended(control, outcome).status,
            error,
        ),
        with_outcome(state, outcome).node_name == state.node_name,
        with_outcome(state, outcome).stream_name == state.stream_name,
        with_outcome(state, outcome).stream_id == state.stream_id,
        with_outcome(state, outcome).channel_count == state.channel_count,
        with_outcome(state, outcome).sample_rate == state.sample_rate,
        with_outcome(state, outcome).started_at == state.started_at,
{
    if let Err(error) = outcome {
        crate::text::lemma_what_is_found(TEST_FAILED@, error, Seq::empty());
        assert(TEST_FAILED@ + error + Seq::<char>::empty() =~= TEST_FAILED@ + error);
    }
}

/// One send error or one skipped frame is pressure; without any there is none.
pub proof fn lemma_pressure(report: DiagnosticReport)
    ensures
        report.send_errors > 0 ==> !report.is_clean(),
        report.skipped_catch_up_frames > 0 ==> !report.is_clean(),
        !report.is_clean() ==> report.send_errors + report.skipped_catch_up_frames > 0,
{
}

/// The view of a test tells all of it.
pub proof fn lemma_test_view_is_complete(a: DiagnosticSetup, b: DiagnosticSetup)
    requires
        a@ == b@,
    ensures
        a.node_name@ == b.node_name@,
        a.stream_name@ == b.stream_name@,
        a.stream_id == b.stream_id,
        a.channel_count == b.channel_count,
        a.sample_rate == b.sample_rate,
        a.started_at == b.started_at,
        a.final_report == b.final_report,
{
}

/// The summary tells the four counts of a test, each with its name.
pub proof fn lemma_summary_tells_the_counts(report: DiagnosticReport)
    ensures
        ({
            let text = report.summary_text();
            &&& crate::text::contains_text(
                text,
                " "@ + decimal(report.packets_built as nat) + " packets"@,
            )
            &&& crate::text::contains_text(
                text,
                " "@ + decimal(report.datagrams_sent as nat) + " datagrams"@,
            )
            &&& crate::text::contains_text(
                text,
                " "@ + decimal(report.send_errors as nat) + " send errors"@,
            )
            &&& crate::text::contains_text(
                text,
                " "@ + decimal(report.skipped_catch_up_frames as nat) + " skipped frames"@,
            )
        }),
{
    reveal_strlit(" ");
    reveal_strlit(",");
    reveal_strlit(".");
    reveal_strlit("Stopped:");
    reveal_strlit("Stopped: ");
    reveal_strlit(" packets");
    reveal_strlit(" packets, ");
    reveal_strlit(" datagrams");
    reveal_strlit(" datagrams, ");
    reveal_strlit(" send errors");
    reveal_strlit(" send errors, ");
    reveal_strlit(" skipped frames");
    reveal_strlit(" skipped frames.");
    let text = report.summary_text();
    let stop = "Stopped:"@;
    let comma = ","@;
    let p = " "@ + decimal(report.packets_built as nat) + " packets"@;
    let d = " "@ + decimal(report.datagrams_sent as nat) + " datagrams"@;
    let e = " "@ + decimal(report.send_errors as nat) + " send errors"@;
    let f = " "@ + decimal(report.skipped_catch_up_frames as nat) + " skipped frames"@;
    assert(text =~= stop + p + (comma + d + comma + e + comma + f + "."@));
    crate::text::lemma_what_is_found(stop, p, comma + d + comma + e + comma + f + "."@);
    assert(text =~= (stop + p + comma) + d + (comma + e + comma + f + "."@));
    crate::text::lemma_what_is_found(stop + p + comma, d, comma + e + comma + f + "."@);
    assert(text =~= (stop + p + comma + d + comma) + e + (comma + f + "."@));
    crate::text::lemma_what_is_found(stop + p + comma + d + comma, e, comma + f + "."@);
    assert(text =~= (stop + p + comma + d + comma + e + comma) + f + "."@);
    crate::text::lemma_what_is_found(stop + p + comma + d + comma + e + comma, f, "."@);
}

/// In a panel an identity belongs to one test, and the next one is new.
pub proof fn lemma_identities_are_unique(panel: DiagnosticPanel, i: int, j: int)
    requires
        panel.well_formed(),
        0 <= i < panel.sessions@.len(),
        0 <= j < panel.sessions@.len(),
    ensures
        panel.sessions@[i].id == panel.sessions@[j].id ==> i == j,
        panel.sessions@[i].id != panel.next_session_id,
{
}

/// A new test can be started at once, a second after the clock began at the
/// latest.
pub proof fn lemma_new_tests_react(now: u64)
    ensures
        now >= 1_000_000_000 ==> a_second_ago_or_now(now) == now - 1_000_000_000,
        a_second_ago_or_now(now) <= now,
        now < 1_000_000_000 ==> a_second_ago_or_now(now) == now,
{
}

/// Tests with up to 64 channels are offered, at either of the common rates.
pub proof fn lemma_offered_tests(channels: usize, rate: u32)
    ensures
        offered_channel_counts().contains(channels) <==> channels == 2 || channels == 8 || channels
            == 16 || channels == 24 || channels == 32 || channels == 64,
        offered_sample_rates().contains(rate) <==> rate == 44_100 || rate == 48_000,
        offered_channel_counts().contains(DEFAULT_CHANNEL_COUNT),
        offered_sample_rates().contains(DEFAULT_SAMPLE_RATE),
{
    let counts = offered_channel_counts();
    assert(counts[0] == 2 && counts[1] == 8 && counts[2] == 16);
    assert(counts[3] == 24 && counts[4] == 32 && counts[5] == 64);
    let rates = offered_sample_rates();
    assert(rates[0] == 44_100 && rates[1] == 48_000);
}

} // verus!
