//! The state of the desktop application as a whole.

use crate::asio_locks::{held_after_release, release_asio_device, AsioDeviceLocks};
use crate::asio_subscribe::AsioSubscribePanel;
use crate::browser::{BrowserGateway, GatewayState};
use crate::control::{
    control_changed, count_running, ending, fail_worker, failing, finish_worker, halt_all, halted,
    ids, nth_id, outcome, remove_idle, removable, running_count, some_running, Banners,
    ControlState, Session,
};
use crate::devices::{AsioDriverInfo, DeviceInfo};
use crate::diagnostics::{DiagnosticPanel, DiagnosticSetup};
use crate::level::Level;
use crate::messages::{friendly, friendly_error};
use crate::preset::{
    AsioSettings, CombinePublishPreset, CombineSettings, PublishPreset, PublishSettings,
    SplitSettings, SplitSubscribePreset, SubscribePreset, SubscribeSettings,
};
use crate::publish::{
    new_asio_publish_session, new_combine_session, new_publish_session, AsioPublishSetup,
    STREAM_ENDPOINTS_LEFT,
};
use crate::signal_monitor::SignalMonitor;
use crate::subscribe::{new_split_session, new_subscribe_session, SESSION_ENDPOINTS_LEFT};
use crate::text::{decimal, decimal_text, join2, option_text};
use crate::theme::Tone;
use crate::ui_shell::{AppPage, UiSummary};
use vstd::prelude::*;

verus! {

/// The state of the desktop application.
pub struct OpenAudioApp {
    pub next_id: u64,
    pub active_page: AppPage,
    pub publish_sessions: Vec<Session<PublishPreset>>,
    pub combine_publish_sessions: Vec<Session<CombinePublishPreset>>,
    pub asio_publish_sessions: Vec<Session<AsioPublishSetup>>,
    pub subscribe_sessions: Vec<Session<SubscribePreset>>,
    pub split_subscribe_sessions: Vec<Session<SplitSubscribePreset>>,
    pub asio_subscribe_panel: AsioSubscribePanel,
    pub diagnostic_panel: DiagnosticPanel,
    pub signal_monitor: SignalMonitor,
    pub browser: BrowserGateway,
    pub input_devices: Vec<DeviceInfo>,
    pub output_devices: Vec<DeviceInfo>,
    pub asio_drivers: Vec<AsioDriverInfo>,
    pub asio_drivers_error: Option<String>,
    pub asio_locks: AsioDeviceLocks,
    pub banners: Banners,
    pub refreshing_devices: bool,
    /// The input and output devices that were listed and not yet taken over.
    pub pending_device_refresh: Option<(Vec<DeviceInfo>, Vec<DeviceInfo>)>,
}

/// The kinds of sessions that the application owns itself.
#[derive(Clone, Copy, Debug, PartialEq, Eq, Hash, Structural)]
pub enum SessionKind {
    Publish,
    Combine,
    AsioPublish,
    Subscribe,
    Split,
}

pub const PUBLISH_THREAD_FAILED: &'static str = "Could not start the WASAPI publisher thread: ";

pub const COMBINE_THREAD_FAILED: &'static str = "Could not start the combined publisher thread: ";

pub const ASIO_THREAD_FAILED: &'static str = "Could not start ASIO publisher thread: ";

pub const PLAYBACK_THREAD_FAILED: &'static str = "Could not start playback thread: ";

pub const SPLIT_THREAD_FAILED: &'static str = "Could not start split playback thread: ";

pub const DEVICES_REFRESHED: &'static str = "Audio devices and ASIO drivers refreshed.";

pub const REFRESH_FAILED: &'static str = "Could not start the device refresh worker: ";

impl SessionKind {
    /// What a message begins with when the worker of a session cannot be
    /// started.
    pub open spec fn failure_lead(self) -> Seq<char> {
        match self {
            SessionKind::Publish => PUBLISH_THREAD_FAILED@,
            SessionKind::Combine => COMBINE_THREAD_FAILED@,
            SessionKind::AsioPublish => ASIO_THREAD_FAILED@,
            SessionKind::Subscribe => PLAYBACK_THREAD_FAILED@,
            SessionKind::Split => SPLIT_THREAD_FAILED@,
        }
    }

    fn lead(self) -> (text: &'static str)
        ensures
            text@ == self.failure_lead(),
    {
        match self {
            SessionKind::Publish => PUBLISH_THREAD_FAILED,
            SessionKind::Combine => COMBINE_THREAD_FAILED,
            SessionKind::AsioPublish => ASIO_THREAD_FAILED,
            SessionKind::Subscribe => PLAYBACK_THREAD_FAILED,
            SessionKind::Split => SPLIT_THREAD_FAILED,
        }
    }
}

/// What is known of ASIO drivers, for the line above the ASIO publishers.
pub enum DriverNotice {
    /// They could not be listed.
    Failed(String),
    /// There are none.
    Nothing,
    /// There are some.
    Available(String),
}

// ---------------------------------------------------------------------------
// Invariants
// ---------------------------------------------------------------------------

impl OpenAudioApp {
    /// Whether the parts of the state are in order.
    pub open spec fn well_formed(self) -> bool {
        &&& self.asio_locks.well_formed()
        &&& self.asio_subscribe_panel.well_formed()
        &&& self.signal_monitor.well_formed()
    }

    /// The identities of all sessions that the application owns itself.
    pub open spec fn all_ids(self) -> Seq<u64> {
        ids(self.publish_sessions@) + ids(self.combine_publish_sessions@) + ids(
            self.asio_publish_sessions@,
        ) + ids(self.subscribe_sessions@) + ids(self.split_subscribe_sessions@)
    }

    /// Whether no two sessions share an identity, and the next one will not
    /// either.
    pub open spec fn well_numbered(self) -> bool {
        &&& self.all_ids().no_duplicates()
        &&& forall|i: int|
            0 <= i < self.all_ids().len() ==> #[trigger] self.all_ids()[i] < self.next_id
    }

    /// Whether a session that the application owns itself runs.
    pub open spec fn is_active(self) -> bool {
        ||| some_running(self.publish_sessions@)
        ||| some_running(self.combine_publish_sessions@)
        ||| some_running(self.asio_publish_sessions@)
        ||| some_running(self.subscribe_sessions@)
        ||| some_running(self.split_subscribe_sessions@)
    }

    pub open spec fn configured_publishers(self) -> nat {
        self.publish_sessions@.len() + self.combine_publish_sessions@.len()
            + self.asio_publish_sessions@.len()
    }

    pub open spec fn running_publishers(self) -> nat {
        running_count(self.publish_sessions@) + running_count(self.combine_publish_sessions@)
            + running_count(self.asio_publish_sessions@)
    }

    /// How many sessions run.
    pub open spec fn active_sessions(self) -> nat {
        running_count(self.publish_sessions@) + running_count(self.combine_publish_sessions@)
            + running_count(self.asio_publish_sessions@) + running_count(self.subscribe_sessions@)
            + running_count(self.split_subscribe_sessions@)
    }

    /// What the summary counts, as long as the numbers fit.
    pub open spec fn summarized(self, discovered_streams: usize) -> UiSummary {
        UiSummary {
            configured_publishers: self.configured_publishers() as usize,
            running_publishers: self.running_publishers() as usize,
            configured_subscribers: self.configured_subscribers() as usize,
            running_subscribers: self.running_subscribers() as usize,
            discovered_streams,
            gateway_running: self.browser.running,
            gateway_stopping: self.browser.thread_active && !self.browser.running,
        }
    }

    pub open spec fn configured_subscribers(self) -> nat {
        self.subscribe_sessions@.len() + self.split_subscribe_sessions@.len()
    }

    pub open spec fn running_subscribers(self) -> nat {
        running_count(self.subscribe_sessions@) + running_count(self.split_subscribe_sessions@)
    }
}

// ---------------------------------------------------------------------------
// Start and overview
// ---------------------------------------------------------------------------

impl OpenAudioApp {
    /// The application as it opens.
    pub fn new(
        now: u64,
        input_devices: Vec<DeviceInfo>,
        output_devices: Vec<DeviceInfo>,
        drivers: Result<Vec<AsioDriverInfo>, String>,
    ) -> (app: Self)
        ensures
            app.well_formed(),
            app.well_numbered(),
            !app.is_active(),
            app.next_id == 1,
            app.active_page == AppPage::Overview,
            app.configured_publishers() == 0,
            app.configured_subscribers() == 0,
            app.asio_subscribe_panel.next_id == 1,
            app.asio_subscribe_panel.sessions@.len() == 0,
            app.diagnostic_panel.next_session_id == 1,
            app.diagnostic_panel.sessions@.len() == 0,
            app.signal_monitor.expanded,
            app.signal_monitor.last_update == now,
            app.signal_monitor@ == Map::<Seq<char>, Seq<Level>>::empty(),
            app.browser@ == GatewayState::initial(now),
            app.input_devices == input_devices,
            app.output_devices == output_devices,
            match drivers {
                Ok(list) => app.asio_drivers == list && app.asio_drivers_error is None,
                Err(error) => app.asio_drivers@.len() == 0 && app.asio_drivers_error == Some(error),
            },
            app.asio_locks@ == Set::<Seq<char>>::empty(),
            app.banners.error is None,
            app.banners.info is None,
            !app.refreshing_devices,
            app.pending_device_refresh is None,
    {
        let (asio_drivers, asio_drivers_error) = match drivers {
            Ok(list) => (list, None),
            Err(error) => (Vec::new(), Some(error)),
        };
        OpenAudioApp {
            next_id: 1,
            active_page: AppPage::Overview,
            publish_sessions: Vec::new(),
            combine_publish_sessions: Vec::new(),
            asio_publish_sessions: Vec::new(),
            subscribe_sessions: Vec::new(),
            split_subscribe_sessions: Vec::new(),
            asio_subscribe_panel: AsioSubscribePanel::new(),
            diagnostic_panel: DiagnosticPanel::new(),
            signal_monitor: SignalMonitor::new(now),
            browser: BrowserGateway::new(now),
            input_devices,
            output_devices,
            asio_drivers,
            asio_drivers_error,
            asio_locks: AsioDeviceLocks::new(),
            banners: Banners::new(),
            refreshing_devices: false,
            pending_device_refresh: None,
        }
    }

    /// What the summary counts.  Sessions on ASIO drivers are not subscribers
    /// of the application itself and are left out.
    pub fn ui_summary(&self, discovered_streams: usize) -> (summary: UiSummary)
        requires
            self.configured_publishers() <= usize::MAX,
            self.configured_subscribers() <= usize::MAX,
        ensures
            summary == self.summarized(discovered_streams),
            summary.configured_publishers == self.configured_publishers(),
            summary.running_publishers == self.running_publishers(),
            summary.configured_subscribers == self.configured_subscribers(),
            summary.running_subscribers == self.running_subscribers(),
            summary.discovered_streams == discovered_streams,
            summary.gateway_running == self.browser.running,
            summary.gateway_stopping == (self.browser.thread_active && !self.browser.running),
            summary.running_publishers <= summary.configured_publishers,
            summary.running_subscribers <= summary.configured_subscribers,
    {
        let publishing: usize = count_running(&self.publish_sessions);
        let combining: usize = count_running(&self.combine_publish_sessions);
        let capturing: usize = count_running(&self.asio_publish_sessions);
        let playing: usize = count_running(&self.subscribe_sessions);
        let splitting: usize = count_running(&self.split_subscribe_sessions);
        UiSummary {
            configured_publishers: self.publish_sessions.len()
                + self.combine_publish_sessions.len() + self.asio_publish_sessions.len(),
            running_publishers: publishing + combining + capturing,
            configured_subscribers: self.subscribe_sessions.len()
                + self.split_subscribe_sessions.len(),
            running_subscribers: playing + splitting,
            discovered_streams,
            gateway_running: self.browser.running,
            gateway_stopping: self.browser.thread_active && !self.browser.running,
        }
    }

    /// How many sessions run.
    pub fn active_audio_session_count(&self) -> (count: usize)
        requires
            self.configured_publishers() + self.configured_subscribers() <= usize::MAX,
        ensures
            count == self.active_sessions(),
    {
        let publishing: usize = count_running(&self.publish_sessions);
        let combining: usize = count_running(&self.combine_publish_sessions);
        let capturing: usize = count_running(&self.asio_publish_sessions);
        let playing: usize = count_running(&self.subscribe_sessions);
        let splitting: usize = count_running(&self.split_subscribe_sessions);
        publishing + combining + capturing + (playing + splitting)
    }

    /// The line that tells how many sessions run, and its colour.
    pub fn activity(&self) -> (shown: (String, Tone))
        requires
            self.configured_publishers() + self.configured_subscribers() <= usize::MAX,
        ensures
            self.running_publishers() + self.running_subscribers() > 0 ==> shown.0@ == decimal(
                self.running_publishers() + self.running_subscribers(),
            ) + " active"@ && shown.1 == Tone::Green,
            self.running_publishers() + self.running_subscribers() == 0 ==> shown.0@ == "Idle"@
                && shown.1 == Tone::TextSecondary,
    {
        let count: usize = self.active_audio_session_count();
        if count > 0 {
            let mut text = decimal_text(count as u128);
            text.append(" active");
            (text, Tone::Green)
        } else {
            ("Idle".to_string(), Tone::TextSecondary)
        }
    }

    /// What is known of ASIO drivers.
    pub fn driver_notice(&self) -> (notice: DriverNotice)
        ensures
            match (self.asio_drivers_error, self.asio_drivers@.len()) {
                (Some(error), _) => notice matches DriverNotice::Failed(text) && text@ == "⚠ "@
                    + friendly(error@),
                (None, count) => if count == 0 {
                    notice == DriverNotice::Nothing
                } else {
                    notice matches DriverNotice::Available(text) && text@ == decimal(count)
                        + " ASIO driver(s) available"@
                },
            },
    {
        match &self.asio_drivers_error {
            Some(error) => {
                let text = friendly_error(error.as_str());
                DriverNotice::Failed(join2("⚠ ", text.as_str()))
            },
            None => if self.asio_drivers.len() == 0 {
                DriverNotice::Nothing
            } else {
                let mut text = decimal_text(self.asio_drivers.len() as u128);
                text.append(" ASIO driver(s) available");
                DriverNotice::Available(text)
            },
        }
    }
}

/// Sessions run exactly if the application counts some.
pub proof fn lemma_active_means_counted(app: OpenAudioApp)
    ensures
        app.is_active() <==> app.running_publishers() + app.running_subscribers() > 0,
        app.running_publishers() <= app.configured_publishers(),
        app.running_subscribers() <= app.configured_subscribers(),
{
    crate::control::lemma_running_count(app.publish_sessions@);
    crate::control::lemma_running_count(app.combine_publish_sessions@);
    crate::control::lemma_running_count(app.asio_publish_sessions@);
    crate::control::lemma_running_count(app.subscribe_sessions@);
    crate::control::lemma_running_count(app.split_subscribe_sessions@);
}

/// The sessions that run are the publishers and the subscribers that run, as the
/// summary counts them.
pub proof fn lemma_active_is_what_the_summary_counts(app: OpenAudioApp, discovered_streams: usize)
    requires
        app.configured_publishers() + app.configured_subscribers() <= usize::MAX,
    ensures
        app.active_sessions() == app.summarized(discovered_streams).running_publishers
            + app.summarized(discovered_streams).running_subscribers,
{
    lemma_active_means_counted(app);
}

// ---------------------------------------------------------------------------
// Adding and removing
// ---------------------------------------------------------------------------

proof fn lemma_insert_keeps_distinct(s: Seq<u64>, p: int, x: u64)
    requires
        s.no_duplicates(),
        !s.contains(x),
        0 <= p <= s.len(),
    ensures
        s.insert(p, x).no_duplicates(),
{
    let t = s.insert(p, x);
    assert forall|i: int, j: int| 0 <= i < t.len() && 0 <= j < t.len() && i != j implies t[i]
        != t[j] by {
        let a = if i < p {
            i
        } else {
            i - 1
        };
        let b = if j < p {
            j
        } else {
            j - 1
        };
        if i == p {
            assert(t[j] == s[b]);
            assert(s.contains(s[b]));
        } else if j == p {
            assert(t[i] == s[a]);
            assert(s.contains(s[a]));
        } else {
            assert(t[i] == s[a] && t[j] == s[b]);
        }
    }
}

proof fn lemma_remove_keeps_distinct(s: Seq<u64>, p: int)
    requires
        s.no_duplicates(),
        0 <= p < s.len(),
    ensures
        s.remove(p).no_duplicates(),
{
    let t = s.remove(p);
    assert forall|i: int, j: int| 0 <= i < t.len() && 0 <= j < t.len() && i != j implies t[i]
        != t[j] by {
        let a = if i < p {
            i
        } else {
            i + 1
        };
        let b = if j < p {
            j
        } else {
            j + 1
        };
        assert(t[i] == s[a] && t[j] == s[b]);
    }
}

proof fn lemma_added(before: OpenAudioApp, after: OpenAudioApp, p: int)
    requires
        before.well_numbered(),
        before.next_id < u64::MAX,
        after.next_id == before.next_id + 1,
        0 <= p <= before.all_ids().len(),
        after.all_ids() == before.all_ids().insert(p, before.next_id),
    ensures
        after.well_numbered(),
{
    lemma_insert_keeps_distinct(before.all_ids(), p, before.next_id);
}

proof fn lemma_removed(before: OpenAudioApp, after: OpenAudioApp, p: int)
    requires
        before.well_numbered(),
        after.next_id == before.next_id,
        0 <= p < before.all_ids().len(),
        after.all_ids() == before.all_ids().remove(p),
    ensures
        after.well_numbered(),
{
    lemma_remove_keeps_distinct(before.all_ids(), p);
}

impl OpenAudioApp {
    /// The identity of the next session.
    pub fn take_next_id(&mut self) -> (id: u64)
        ensures
            id == old(self).next_id,
            final(self).next_id == nth_id(old(self).next_id, 1),
            *final(self) == (OpenAudioApp { next_id: final(self).next_id, ..*old(self) }),
    {
        let id: u64 = self.next_id;
        self.next_id = id.saturating_add(1);
        id
    }

    /// Adds a session that publishes one device.
    pub fn add_publish_session(&mut self, now: u64)
        ensures
            *final(self) == (OpenAudioApp {
                next_id: nth_id(old(self).next_id, 1),
                publish_sessions: final(self).publish_sessions,
                ..*old(self)
            }),
            final(self).publish_sessions@.len() == old(self).publish_sessions@.len() + 1,
            final(self).publish_sessions@.drop_last() == old(self).publish_sessions@,
            final(self).publish_sessions@.last().id == old(self).next_id,
            final(self).publish_sessions@.last().control@ == ControlState::idle(now),
            final(self).publish_sessions@.last().config@ == PublishSettings::fresh(
                old(self).next_id,
            ),
            old(self).well_numbered() && old(self).next_id < u64::MAX
                ==> final(self).well_numbered(),
    {
        let id: u64 = self.take_next_id();
        self.publish_sessions.push(new_publish_session(id, now));
        proof {
            assert(self.publish_sessions@.drop_last() =~= old(self).publish_sessions@);
            let p = old(self).publish_sessions@.len() as int;
            assert(self.all_ids() =~= old(self).all_ids().insert(p, id));
            if old(self).well_numbered() && old(self).next_id < u64::MAX {
                lemma_added(*old(self), *self, p);
            }
        }
    }

    /// Adds a session that publishes one device per channel.
    pub fn add_combine_session(&mut self, now: u64)
        ensures
            *final(self) == (OpenAudioApp {
                next_id: nth_id(old(self).next_id, 1),
                combine_publish_sessions: final(self).combine_publish_sessions,
                ..*old(self)
            }),
            final(self).combine_publish_sessions@.len() == old(self).combine_publish_sessions@.len()
                + 1,
            final(self).combine_publish_sessions@.drop_last()
                == old(self).combine_publish_sessions@,
            final(self).combine_publish_sessions@.last().id == old(self).next_id,
            final(self).combine_publish_sessions@.last().control@ == ControlState::idle(now),
            final(self).combine_publish_sessions@.last().config@ == CombineSettings::fresh(
                old(self).next_id,
            ),
            old(self).well_numbered() && old(self).next_id < u64::MAX
                ==> final(self).well_numbered(),
    {
        let id: u64 = self.take_next_id();
        self.combine_publish_sessions.push(new_combine_session(id, now));
        proof {
            assert(self.combine_publish_sessions@.drop_last()
                =~= old(self).combine_publish_sessions@);
            let p = (old(self).publish_sessions@.len()
                + old(self).combine_publish_sessions@.len()) as int;
            assert(self.all_ids() =~= old(self).all_ids().insert(p, id));
            if old(self).well_numbered() && old(self).next_id < u64::MAX {
                lemma_added(*old(self), *self, p);
            }
        }
    }

    /// Adds a session that publishes channels of an ASIO driver.
    pub fn add_asio_publish_session(&mut self, now: u64)
        ensures
            *final(self) == (OpenAudioApp {
                next_id: nth_id(old(self).next_id, 1),
                asio_publish_sessions: final(self).asio_publish_sessions,
                ..*old(self)
            }),
            final(self).asio_publish_sessions@.len() == old(self).asio_publish_sessions@.len() + 1,
            final(self).asio_publish_sessions@.drop_last() == old(self).asio_publish_sessions@,
            final(self).asio_publish_sessions@.last().id == old(self).next_id,
            final(self).asio_publish_sessions@.last().control@ == ControlState::idle(now),
            final(self).asio_publish_sessions@.last().config.preset@ == AsioSettings::fresh(
                old(self).next_id,
            ),
            final(self).asio_publish_sessions@.last().config.driver_channel_count == 0,
            old(self).well_numbered() && old(self).next_id < u64::MAX
                ==> final(self).well_numbered(),
    {
        let id: u64 = self.take_next_id();
        self.asio_publish_sessions.push(new_asio_publish_session(id, now));
        proof {
            assert(self.asio_publish_sessions@.drop_last() =~= old(self).asio_publish_sessions@);
            let p = (old(self).publish_sessions@.len() + old(self).combine_publish_sessions@.len()
                + old(self).asio_publish_sessions@.len()) as int;
            assert(self.all_ids() =~= old(self).all_ids().insert(p, id));
            if old(self).well_numbered() && old(self).next_id < u64::MAX {
                lemma_added(*old(self), *self, p);
            }
        }
    }

    /// Adds a session that plays a stream on one device.
    pub fn add_subscribe_session(&mut self, now: u64)
        ensures
            *final(self) == (OpenAudioApp {
                next_id: nth_id(old(self).next_id, 1),
                subscribe_sessions: final(self).subscribe_sessions,
                ..*old(self)
            }),
            final(self).subscribe_sessions@.len() == old(self).subscribe_sessions@.len() + 1,
            final(self).subscribe_sessions@.drop_last() == old(self).subscribe_sessions@,
            final(self).subscribe_sessions@.last().id == old(self).next_id,
            final(self).subscribe_sessions@.last().control@ == ControlState::idle(now),
            final(self).subscribe_sessions@.last().config@ == SubscribeSettings::fresh(
                old(self).next_id,
            ),
            old(self).well_numbered() && old(self).next_id < u64::MAX
                ==> final(self).well_numbered(),
    {
        let id: u64 = self.take_next_id();
        self.subscribe_sessions.push(new_subscribe_session(id, now));
        proof {
            assert(self.subscribe_sessions@.drop_last() =~= old(self).subscribe_sessions@);
            let p = (old(self).publish_sessions@.len() + old(self).combine_publish_sessions@.len()
                + old(self).asio_publish_sessions@.len()
                + old(self).subscribe_sessions@.len()) as int;
            assert(self.all_ids() =~= old(self).all_ids().insert(p, id));
            if old(self).well_numbered() && old(self).next_id < u64::MAX {
                lemma_added(*old(self), *self, p);
            }
        }
    }

    /// Adds a session that plays each channel on a device of its own.
    pub fn add_split_session(&mut self, now: u64)
        ensures
            *final(self) == (OpenAudioApp {
                next_id: nth_id(old(self).next_id, 1),
                split_subscribe_sessions: final(self).split_subscribe_sessions,
                ..*old(self)
            }),
            final(self).split_subscribe_sessions@.len() == old(self).split_subscribe_sessions@.len()
                + 1,
            final(self).split_subscribe_sessions@.drop_last()
                == old(self).split_subscribe_sessions@,
            final(self).split_subscribe_sessions@.last().id == old(self).next_id,
            final(self).split_subscribe_sessions@.last().control@ == ControlState::idle(now),
            final(self).split_subscribe_sessions@.last().config@ == SplitSettings::fresh(
                old(self).next_id,
            ),
            old(self).well_numbered() && old(self).next_id < u64::MAX
                ==> final(self).well_numbered(),
    {
        let id: u64 = self.take_next_id();
        self.split_subscribe_sessions.push(new_split_session(id, now));
        proof {
            assert(self.split_subscribe_sessions@.drop_last()
                =~= old(self).split_subscribe_sessions@);
            let p = old(self).all_ids().len() as int;
            assert(self.all_ids() =~= old(self).all_ids().insert(p, id));
            if old(self).well_numbered() && old(self).next_id < u64::MAX {
                lemma_added(*old(self), *self, p);
            }
        }
    }

    /// Removes a session that publishes one device, unless it runs.
    pub fn remove_publish_session(&mut self, index: usize)
        ensures
            *final(self) == (OpenAudioApp {
                publish_sessions: final(self).publish_sessions,
                ..*old(self)
            }),
            final(self).publish_sessions@ == if removable(old(self).publish_sessions@, index) {
                old(self).publish_sessions@.remove(index as int)
            } else {
                old(self).publish_sessions@
            },
            old(self).well_numbered() ==> final(self).well_numbered(),
    {
        let removed = remove_idle(&mut self.publish_sessions, index);
        proof {
            if removed is Some && old(self).well_numbered() {
                assert(self.all_ids() =~= old(self).all_ids().remove(index as int));
                lemma_removed(*old(self), *self, index as int);
            }
        }
    }

    /// Removes a session that publishes channels of an ASIO driver, unless it
    /// runs.
    pub fn remove_asio_publish_session(&mut self, index: usize)
        ensures
            *final(self) == (OpenAudioApp {
                asio_publish_sessions: final(self).asio_publish_sessions,
                ..*old(self)
            }),
            final(self).asio_publish_sessions@ == if removable(
                old(self).asio_publish_sessions@,
                index,
            ) {
                old(self).asio_publish_sessions@.remove(index as int)
            } else {
                old(self).asio_publish_sessions@
            },
            old(self).well_numbered() ==> final(self).well_numbered(),
    {
        let removed = remove_idle(&mut self.asio_publish_sessions, index);
        proof {
            if removed is Some && old(self).well_numbered() {
                let p = old(self).publish_sessions@.len() + old(self).combine_publish_sessions@.len() + index;
                assert(self.all_ids() =~= old(self).all_ids().remove(p));
                lemma_removed(*old(self), *self, p);
            }
        }
    }

    /// Removes a session that plays a stream on one device, unless it runs.
    pub fn remove_subscribe_session(&mut self, index: usize)
        ensures
            *final(self) == (OpenAudioApp {
                subscribe_sessions: final(self).subscribe_sessions,
                ..*old(self)
            }),
            final(self).subscribe_sessions@ == if removable(old(self).subscribe_sessions@, index) {
                old(self).subscribe_sessions@.remove(index as int)
            } else {
                old(self).subscribe_sessions@
            },
            old(self).well_numbered() ==> final(self).well_numbered(),
    {
        let removed = remove_idle(&mut self.subscribe_sessions, index);
        proof {
            if removed is Some && old(self).well_numbered() {
                let p = old(self).publish_sessions@.len() + old(self).combine_publish_sessions@.len() + old(self).asio_publish_sessions@.len() + index;
                assert(self.all_ids() =~= old(self).all_ids().remove(p));
                lemma_removed(*old(self), *self, p);
            }
        }
    }

    /// The tag of the endpoints that go with a session that publishes one
    /// device per channel, if the session may be removed.
    pub fn combine_removal_tag(&self, index: usize) -> (tag: Option<String>)
        ensures
            option_text(tag) == if removable(self.combine_publish_sessions@, index) {
                Some(self.combine_publish_sessions@[index as int].config.session_tag@)
            } else {
                None
            },
    {
        if index < self.combine_publish_sessions.len()
            && !self.combine_publish_sessions[index].control.running {
            Some(self.combine_publish_sessions[index].config.session_tag.clone())
        } else {
            None
        }
    }

    /// Removes a session that publishes one device per channel, unless it runs,
    /// and reports where its endpoints could not be removed.
    pub fn remove_combine_session(&mut self, index: usize, endpoints: &Result<(), String>)
        ensures
            *final(self) == (OpenAudioApp {
                combine_publish_sessions: final(self).combine_publish_sessions,
                banners: final(self).banners,
                ..*old(self)
            }),
            final(self).combine_publish_sessions@ == if removable(
                old(self).combine_publish_sessions@,
                index,
            ) {
                old(self).combine_publish_sessions@.remove(index as int)
            } else {
                old(self).combine_publish_sessions@
            },
            final(self).banners.info == old(self).banners.info,
            option_text(final(self).banners.error) == match *endpoints {
                Err(error) if removable(old(self).combine_publish_sessions@, index) => Some(
                    STREAM_ENDPOINTS_LEFT@ + friendly(error@),
                ),
                _ => option_text(old(self).banners.error),
            },
            old(self).well_numbered() ==> final(self).well_numbered(),
    {
        let removed = remove_idle(&mut self.combine_publish_sessions, index);
        if removed.is_some() {
            match endpoints {
                Ok(()) => {},
                Err(error) => {
                    let text = friendly_error(error.as_str());
                    self.banners.error = Some(join2(STREAM_ENDPOINTS_LEFT, text.as_str()));
                },
            }
        }
        proof {
            if removed is Some && old(self).well_numbered() {
                let p = old(self).publish_sessions@.len() + index;
                assert(self.all_ids() =~= old(self).all_ids().remove(p));
                lemma_removed(*old(self), *self, p);
            }
        }
    }

    /// The tag of the endpoints that go with a session that plays each channel
    /// on a device of its own, if the session may be removed.
    pub fn split_removal_tag(&self, index: usize) -> (tag: Option<String>)
        ensures
            option_text(tag) == if removable(self.split_subscribe_sessions@, index) {
                Some(self.split_subscribe_sessions@[index as int].config.session_tag@)
            } else {
                None
            },
    {
        if index < self.split_subscribe_sessions.len()
            && !self.split_subscribe_sessions[index].control.running {
            Some(self.split_subscribe_sessions[index].config.session_tag.clone())
        } else {
            None
        }
    }

    /// Removes a session that plays each channel on a device of its own, unless
    /// it runs, and reports where its endpoints could not be removed.
    pub fn remove_split_session(&mut self, index: usize, endpoints: &Result<(), String>)
        ensures
            *final(self) == (OpenAudioApp {
                split_subscribe_sessions: final(self).split_subscribe_sessions,
                banners: final(self).banners,
                ..*old(self)
            }),
            final(self).split_subscribe_sessions@ == if removable(
                old(self).split_subscribe_sessions@,
                index,
            ) {
                old(self).split_subscribe_sessions@.remove(index as int)
            } else {
                old(self).split_subscribe_sessions@
            },
            final(self).banners.info == old(self).banners.info,
            option_text(final(self).banners.error) == match *endpoints {
                Err(error) if removable(old(self).split_subscribe_sessions@, index) => Some(
                    SESSION_ENDPOINTS_LEFT@ + friendly(error@),
                ),
                _ => option_text(old(self).banners.error),
            },
            old(self).well_numbered() ==> final(self).well_numbered(),
    {
        let removed = remove_idle(&mut self.split_subscribe_sessions, index);
        if removed.is_some() {
            match endpoints {
                Ok(()) => {},
                Err(error) => {
                    let text = friendly_error(error.as_str());
                    self.banners.error = Some(join2(SESSION_ENDPOINTS_LEFT, text.as_str()));
                },
            }
        }
        proof {
            if removed is Some && old(self).well_numbered() {
                let p = old(self).all_ids().len() - old(self).split_subscribe_sessions@.len()
                    + index;
                assert(self.all_ids() =~= old(self).all_ids().remove(p));
                lemma_removed(*old(self), *self, p);
            }
        }
    }
}

// ---------------------------------------------------------------------------
// Workers
// ---------------------------------------------------------------------------

/// Whether nothing but one session of a kind has changed, apart from the
/// banners.
pub open spec fn session_changed(
    before: OpenAudioApp,
    after: OpenAudioApp,
    kind: SessionKind,
    id: u64,
    change: spec_fn(ControlState) -> ControlState,
) -> bool {
    match kind {
        SessionKind::Publish => after == (OpenAudioApp {
            publish_sessions: after.publish_sessions,
            banners: after.banners,
            ..before
        }) && control_changed(before.publish_sessions@, after.publish_sessions@, id, change),
        SessionKind::Combine => after == (OpenAudioApp {
            combine_publish_sessions: after.combine_publish_sessions,
            banners: after.banners,
            ..before
        }) && control_changed(
            before.combine_publish_sessions@,
            after.combine_publish_sessions@,
            id,
            change,
        ),
        SessionKind::AsioPublish => after == (OpenAudioApp {
            asio_publish_sessions: after.asio_publish_sessions,
            banners: after.banners,
            ..before
        }) && control_changed(
            before.asio_publish_sessions@,
            after.asio_publish_sessions@,
            id,
            change,
        ),
        SessionKind::Subscribe => after == (OpenAudioApp {
            subscribe_sessions: after.subscribe_sessions,
            banners: after.banners,
            ..before
        }) && control_changed(before.subscribe_sessions@, after.subscribe_sessions@, id, change),
        SessionKind::Split => after == (OpenAudioApp {
            split_subscribe_sessions: after.split_subscribe_sessions,
            banners: after.banners,
            ..before
        }) && control_changed(
            before.split_subscribe_sessions@,
            after.split_subscribe_sessions@,
            id,
            change,
        ),
    }
}

/// Whether nothing but one session that publishes channels of an ASIO driver has
/// changed, apart from the banners and the reserved drivers.
pub open spec fn asio_publish_changed(
    before: OpenAudioApp,
    after: OpenAudioApp,
    id: u64,
    change: spec_fn(ControlState) -> ControlState,
) -> bool {
    &&& after == (OpenAudioApp {
        asio_publish_sessions: after.asio_publish_sessions,
        asio_locks: after.asio_locks,
        banners: after.banners,
        ..before
    })
    &&& control_changed(
        before.asio_publish_sessions@,
        after.asio_publish_sessions@,
        id,
        change,
    )
}

impl OpenAudioApp {
    /// Takes in that the worker of a session has ended.  An error is reported
    /// even if the session is gone.
    pub fn worker_finished(&mut self, kind: SessionKind, id: u64, result: &Result<(), String>)
        ensures
            session_changed(*old(self), *final(self), kind, id, ending(outcome(*result))),
            final(self).banners.info == old(self).banners.info,
            match *result {
                Ok(()) => final(self).banners.error == old(self).banners.error,
                Err(error) => option_text(final(self).banners.error) == Some(friendly(error@)),
            },
    {
        match kind {
            SessionKind::Publish => finish_worker(
                &mut self.publish_sessions,
                id,
                result,
                &mut self.banners,
            ),
            SessionKind::Combine => finish_worker(
                &mut self.combine_publish_sessions,
                id,
                result,
                &mut self.banners,
            ),
            SessionKind::AsioPublish => finish_worker(
                &mut self.asio_publish_sessions,
                id,
                result,
                &mut self.banners,
            ),
            SessionKind::Subscribe => finish_worker(
                &mut self.subscribe_sessions,
                id,
                result,
                &mut self.banners,
            ),
            SessionKind::Split => finish_worker(
                &mut self.split_subscribe_sessions,
                id,
                result,
                &mut self.banners,
            ),
        }
    }

    /// Takes in that the worker of a session could not be started.
    pub fn worker_failed(&mut self, kind: SessionKind, id: u64, error: &str)
        ensures
            session_changed(
                *old(self),
                *final(self),
                kind,
                id,
                failing(kind.failure_lead() + error@),
            ),
            final(self).banners.info == old(self).banners.info,
            option_text(final(self).banners.error) == Some(kind.failure_lead() + error@),
    {
        let lead = kind.lead();
        match kind {
            SessionKind::Publish => fail_worker(
                &mut self.publish_sessions,
                id,
                lead,
                error,
                &mut self.banners,
            ),
            SessionKind::Combine => fail_worker(
                &mut self.combine_publish_sessions,
                id,
                lead,
                error,
                &mut self.banners,
            ),
            SessionKind::AsioPublish => fail_worker(
                &mut self.asio_publish_sessions,
                id,
                lead,
                error,
                &mut self.banners,
            ),
            SessionKind::Subscribe => fail_worker(
                &mut self.subscribe_sessions,
                id,
                lead,
                error,
                &mut self.banners,
            ),
            SessionKind::Split => fail_worker(
                &mut self.split_subscribe_sessions,
                id,
                lead,
                error,
                &mut self.banners,
            ),
        }
    }

    /// Takes in that the worker of a session that publishes channels of an ASIO
    /// driver has ended.  Its driver is given back and an error is reported even
    /// if the session is gone.
    pub fn asio_publish_finished(
        &mut self,
        id: u64,
        driver_name: &str,
        result: &Result<(), String>,
    )
        requires
            old(self).asio_locks.well_formed(),
        ensures
            asio_publish_changed(*old(self), *final(self), id, ending(outcome(*result))),
            final(self).asio_locks.well_formed(),
            final(self).asio_locks@ == held_after_release(old(self).asio_locks@, driver_name@),
            final(self).banners.info == old(self).banners.info,
            match *result {
                Ok(()) => final(self).banners.error == old(self).banners.error,
                Err(error) => option_text(final(self).banners.error) == Some(friendly(error@)),
            },
    {
        self.worker_finished(SessionKind::AsioPublish, id, result);
        release_asio_device(&mut self.asio_locks, driver_name);
    }

    /// Takes in that the worker of a session that publishes channels of an ASIO
    /// driver could not be started.  Its driver is given back.
    pub fn asio_publish_failed(&mut self, id: u64, driver_name: &str, error: &str)
        requires
            old(self).asio_locks.well_formed(),
        ensures
            asio_publish_changed(
                *old(self),
                *final(self),
                id,
                failing(ASIO_THREAD_FAILED@ + error@),
            ),
            final(self).asio_locks.well_formed(),
            final(self).asio_locks@ == held_after_release(old(self).asio_locks@, driver_name@),
            final(self).banners.info == old(self).banners.info,
            option_text(final(self).banners.error) == Some(ASIO_THREAD_FAILED@ + error@),
    {
        self.worker_failed(SessionKind::AsioPublish, id, error);
        release_asio_device(&mut self.asio_locks, driver_name);
    }

    /// Tells all workers to stop, as the application closes.
    pub fn halt(&mut self)
        ensures
            !final(self).is_active(),
            !final(self).browser.running,
            final(self).diagnostic_panel.next_session_id == old(self).diagnostic_panel.next_session_id,
            final(self).diagnostic_panel.sessions@ == old(self).diagnostic_panel.sessions@.map_values(|s: Session<DiagnosticSetup>| halted(s)),
            final(self).publish_sessions@ == old(self).publish_sessions@.map_values(
                |s: Session<PublishPreset>| halted(s),
            ),
            final(self).combine_publish_sessions@ == old(self).combine_publish_sessions@.map_values(|s: Session<CombinePublishPreset>| halted(s)),
            final(self).asio_publish_sessions@ == old(self).asio_publish_sessions@.map_values(
                |s: Session<AsioPublishSetup>| halted(s),
            ),
            final(self).subscribe_sessions@ == old(self).subscribe_sessions@.map_values(
                |s: Session<SubscribePreset>| halted(s),
            ),
            final(self).split_subscribe_sessions@ == old(self).split_subscribe_sessions@.map_values(|s: Session<SplitSubscribePreset>| halted(s)),
            final(self).browser@ == (GatewayState { running: false, ..old(self).browser@ }),
            *final(self) == (OpenAudioApp {
                publish_sessions: final(self).publish_sessions,
                combine_publish_sessions: final(self).combine_publish_sessions,
                asio_publish_sessions: final(self).asio_publish_sessions,
                subscribe_sessions: final(self).subscribe_sessions,
                split_subscribe_sessions: final(self).split_subscribe_sessions,
                diagnostic_panel: final(self).diagnostic_panel,
                browser: final(self).browser,
                ..*old(self)
            }),
    {
        halt_all(&mut self.publish_sessions);
        halt_all(&mut self.combine_publish_sessions);
        halt_all(&mut self.asio_publish_sessions);
        halt_all(&mut self.subscribe_sessions);
        halt_all(&mut self.split_subscribe_sessions);
        self.diagnostic_panel.halt();
        self.browser.running = false;
    }
}

// ---------------------------------------------------------------------------
// Devices
// ---------------------------------------------------------------------------

impl OpenAudioApp {
    /// Begins to list the devices again, unless that is already under way.
    pub fn refresh_devices(&mut self) -> (begun: bool)
        ensures
            begun == !old(self).refreshing_devices,
            *final(self) == (OpenAudioApp { refreshing_devices: true, ..*old(self) }),
    {
        if self.refreshing_devices {
            false
        } else {
            self.refreshing_devices = true;
            true
        }
    }

    /// Takes in that the devices could not be listed.
    pub fn refresh_failed(&mut self, error: &str)
        ensures
            *final(self) == (OpenAudioApp {
                refreshing_devices: false,
                banners: final(self).banners,
                ..*old(self)
            }),
            final(self).banners.info == old(self).banners.info,
            option_text(final(self).banners.error) == Some(REFRESH_FAILED@ + error@),
    {
        self.refreshing_devices = false;
        self.banners.error = Some(join2(REFRESH_FAILED, error));
    }

    /// Takes in the devices that were listed.  They wait until they are taken
    /// over; a list that waited before is forgotten.
    pub fn devices_listed(
        &mut self,
        input_devices: Vec<DeviceInfo>,
        output_devices: Vec<DeviceInfo>,
    )
        ensures
            *final(self) == (OpenAudioApp {
                refreshing_devices: false,
                pending_device_refresh: Some((input_devices, output_devices)),
                ..*old(self)
            }),
    {
        self.pending_device_refresh = Some((input_devices, output_devices));
        self.refreshing_devices = false;
    }

    /// Takes over the devices that wait, and the drivers with them.  Where no
    /// devices wait, nothing changes.
    pub fn apply_pending_device_refresh(&mut self, drivers: Result<Vec<AsioDriverInfo>, String>)
        ensures
            old(self).pending_device_refresh is None ==> *final(self) == *old(self),
            old(self).pending_device_refresh matches Some((inputs, outputs)) ==> {
                &&& *final(self) == (OpenAudioApp {
                    pending_device_refresh: None,
                    input_devices: inputs,
                    output_devices: outputs,
                    asio_drivers: final(self).asio_drivers,
                    asio_drivers_error: final(self).asio_drivers_error,
                    banners: final(self).banners,
                    ..*old(self)
                })
                &&& match drivers {
                    Ok(list) => final(self).asio_drivers == list
                        && final(self).asio_drivers_error is None,
                    Err(error) => final(self).asio_drivers@.len() == 0
                        && final(self).asio_drivers_error == Some(error),
                }
                &&& final(self).banners.error == old(self).banners.error
                &&& option_text(final(self).banners.info) == Some(DEVICES_REFRESHED@)
            },
    {
        let (input_devices, output_devices) = match self.pending_device_refresh.take() {
            Some(lists) => lists,
            None => {
                return;
            },
        };
        self.input_devices = input_devices;
        self.output_devices = output_devices;
        match drivers {
            Ok(list) => {
                self.asio_drivers = list;
                self.asio_drivers_error = None;
            },
            Err(error) => {
                self.asio_drivers = Vec::new();
                self.asio_drivers_error = Some(error);
            },
        }
        self.banners.info = Some(DEVICES_REFRESHED.to_string());
    }
}

/// A session of any kind that runs makes the application active; publishers and
/// subscribers are counted apart, each session once.
pub proof fn lemma_every_session_counts(app: OpenAudioApp, i: int)
    ensures
        0 <= i < app.publish_sessions@.len() && app.publish_sessions@[i].control.running
            ==> app.is_active() && app.running_publishers() > 0,
        0 <= i < app.combine_publish_sessions@.len()
            && app.combine_publish_sessions@[i].control.running ==> app.is_active()
            && app.running_publishers() > 0,
        0 <= i < app.asio_publish_sessions@.len() && app.asio_publish_sessions@[i].control.running
            ==> app.is_active() && app.running_publishers() > 0,
        0 <= i < app.subscribe_sessions@.len() && app.subscribe_sessions@[i].control.running
            ==> app.is_active() && app.running_subscribers() > 0,
        0 <= i < app.split_subscribe_sessions@.len()
            && app.split_subscribe_sessions@[i].control.running ==> app.is_active()
            && app.running_subscribers() > 0,
        app.all_ids().len() == app.configured_publishers() + app.configured_subscribers(),
        app.active_sessions() == app.running_publishers() + app.running_subscribers(),
        app.is_active() <==> app.active_sessions() > 0,
{
    crate::control::lemma_running_count(app.publish_sessions@);
    crate::control::lemma_running_count(app.combine_publish_sessions@);
    crate::control::lemma_running_count(app.asio_publish_sessions@);
    crate::control::lemma_running_count(app.subscribe_sessions@);
    crate::control::lemma_running_count(app.split_subscribe_sessions@);
}

/// The summary shows the gateway as the gateway shows itself, and all that it
/// counts.
pub proof fn lemma_summary_shows_the_gateway(app: OpenAudioApp, streams: usize)
    requires
        app.configured_publishers() + app.configured_subscribers() <= usize::MAX,
    ensures
        app.summarized(streams).phase() == crate::browser::GatewayPhase::told(
            app.browser.running,
            app.browser.thread_active,
        ),
        app.summarized(streams).discovered_streams == streams,
        app.summarized(streams).configured_publishers == app.publish_sessions@.len()
            + app.combine_publish_sessions@.len() + app.asio_publish_sessions@.len(),
        app.summarized(streams).configured_subscribers == app.subscribe_sessions@.len()
            + app.split_subscribe_sessions@.len(),
        app.summarized(streams).running_publishers == running_count(app.publish_sessions@)
            + running_count(app.combine_publish_sessions@) + running_count(
            app.asio_publish_sessions@,
        ),
        app.summarized(streams).running_subscribers == running_count(app.subscribe_sessions@)
            + running_count(app.split_subscribe_sessions@),
{
    lemma_active_means_counted(app);
}

/// A worker that ends changes a session of its own kind only.
pub proof fn lemma_other_kinds_are_untouched(
    before: OpenAudioApp,
    after: OpenAudioApp,
    kind: SessionKind,
    id: u64,
    change: spec_fn(ControlState) -> ControlState,
)
    requires
        session_changed(before, after, kind, id, change),
    ensures
        kind != SessionKind::Publish ==> after.publish_sessions == before.publish_sessions,
        kind != SessionKind::Combine ==> after.combine_publish_sessions
            == before.combine_publish_sessions,
        kind != SessionKind::AsioPublish ==> after.asio_publish_sessions
            == before.asio_publish_sessions,
        kind != SessionKind::Subscribe ==> after.subscribe_sessions == before.subscribe_sessions,
        kind != SessionKind::Split ==> after.split_subscribe_sessions
            == before.split_subscribe_sessions,
        kind == SessionKind::Publish ==> control_changed(
            before.publish_sessions@,
            after.publish_sessions@,
            id,
            change,
        ),
        kind == SessionKind::Combine ==> control_changed(
            before.combine_publish_sessions@,
            after.combine_publish_sessions@,
            id,
            change,
        ),
        kind == SessionKind::AsioPublish ==> control_changed(
            before.asio_publish_sessions@,
            after.asio_publish_sessions@,
            id,
            change,
        ),
        kind == SessionKind::Subscribe ==> control_changed(
            before.subscribe_sessions@,
            after.subscribe_sessions@,
            id,
            change,
        ),
        kind == SessionKind::Split ==> control_changed(
            before.split_subscribe_sessions@,
            after.split_subscribe_sessions@,
            id,
            change,
        ),
        after.asio_locks == before.asio_locks,
        after.browser == before.browser,
        after.asio_subscribe_panel == before.asio_subscribe_panel,
        after.diagnostic_panel == before.diagnostic_panel,
        after.next_id == before.next_id,
{
}

/// The end of an ASIO publisher touches its session, the reserved drivers and the
/// banners only.
pub proof fn lemma_asio_publishers_end_alone(
    before: OpenAudioApp,
    after: OpenAudioApp,
    id: u64,
    change: spec_fn(ControlState) -> ControlState,
    i: int,
)
    requires
        asio_publish_changed(before, after, id, change),
    ensures
        after.publish_sessions == before.publish_sessions,
        after.combine_publish_sessions == before.combine_publish_sessions,
        after.subscribe_sessions == before.subscribe_sessions,
        after.split_subscribe_sessions == before.split_subscribe_sessions,
        after.asio_subscribe_panel == before.asio_subscribe_panel,
        after.diagnostic_panel == before.diagnostic_panel,
        after.browser == before.browser,
        after.next_id == before.next_id,
        after.asio_publish_sessions@.len() == before.asio_publish_sessions@.len(),
        0 <= i < before.asio_publish_sessions@.len() && before.asio_publish_sessions@[i].id != id
            ==> after.asio_publish_sessions@[i] == before.asio_publish_sessions@[i],
{
    if 0 <= i < before.asio_publish_sessions@.len() && before.asio_publish_sessions@[i].id != id {
        crate::control::lemma_place_of(before.asio_publish_sessions@, id);
        assert(after.asio_publish_sessions@[i] == before.asio_publish_sessions@[i]);
    }
}

/// Where a worker cannot be started the banner begins with what it was to do.
pub proof fn lemma_failure_leads()
    ensures
        SessionKind::Publish.failure_lead() == "Could not start the WASAPI publisher thread: "@,
        SessionKind::Combine.failure_lead() == "Could not start the combined publisher thread: "@,
        SessionKind::AsioPublish.failure_lead() == "Could not start ASIO publisher thread: "@,
        SessionKind::Subscribe.failure_lead() == "Could not start playback thread: "@,
        SessionKind::Split.failure_lead() == "Could not start split playback thread: "@,
{
}

/// Sessions of whatever kind have identities of their own, and the next one is new.
pub proof fn lemma_identities_are_unique(app: OpenAudioApp, i: int, j: int)
    requires
        app.well_numbered(),
        i >= 0,
        j >= 0,
    ensures
        i < j < app.publish_sessions@.len() ==> app.publish_sessions@[i].id
            != app.publish_sessions@[j].id,
        i < j < app.combine_publish_sessions@.len() ==> app.combine_publish_sessions@[i].id
            != app.combine_publish_sessions@[j].id,
        i < j < app.asio_publish_sessions@.len() ==> app.asio_publish_sessions@[i].id
            != app.asio_publish_sessions@[j].id,
        i < j < app.subscribe_sessions@.len() ==> app.subscribe_sessions@[i].id
            != app.subscribe_sessions@[j].id,
        i < j < app.split_subscribe_sessions@.len() ==> app.split_subscribe_sessions@[i].id
            != app.split_subscribe_sessions@[j].id,
        i < app.publish_sessions@.len() && j < app.subscribe_sessions@.len()
            ==> app.publish_sessions@[i].id != app.subscribe_sessions@[j].id,
        i < app.publish_sessions@.len() && j < app.split_subscribe_sessions@.len()
            ==> app.publish_sessions@[i].id != app.split_subscribe_sessions@[j].id,
        i < app.publish_sessions@.len() && j < app.combine_publish_sessions@.len()
            ==> app.publish_sessions@[i].id != app.combine_publish_sessions@[j].id,
        i < app.publish_sessions@.len() && j < app.asio_publish_sessions@.len()
            ==> app.publish_sessions@[i].id != app.asio_publish_sessions@[j].id,
        i < app.publish_sessions@.len() ==> app.publish_sessions@[i].id < app.next_id,
        i < app.split_subscribe_sessions@.len() ==> app.split_subscribe_sessions@[i].id
            < app.next_id,
{
    let all = app.all_ids();
    let c = app.publish_sessions@.len() as int;
    let a = c + app.combine_publish_sessions@.len();
    let s = a + app.asio_publish_sessions@.len();
    let t = s + app.subscribe_sessions@.len();
    if i < app.publish_sessions@.len() {
        assert(all[i] == app.publish_sessions@[i].id);
    }
    if j < app.publish_sessions@.len() {
        assert(all[j] == app.publish_sessions@[j].id);
    }
    if i < app.combine_publish_sessions@.len() {
        assert(all[c + i] == app.combine_publish_sessions@[i].id);
    }
    if j < app.combine_publish_sessions@.len() {
        assert(all[c + j] == app.combine_publish_sessions@[j].id);
    }
    if i < app.asio_publish_sessions@.len() {
        assert(all[a + i] == app.asio_publish_sessions@[i].id);
    }
    if j < app.asio_publish_sessions@.len() {
        assert(all[a + j] == app.asio_publish_sessions@[j].id);
    }
    if i < app.subscribe_sessions@.len() {
        assert(all[s + i] == app.subscribe_sessions@[i].id);
    }
    if j < app.subscribe_sessions@.len() {
        assert(all[s + j] == app.subscribe_sessions@[j].id);
    }
    if i < app.split_subscribe_sessions@.len() {
        assert(all[t + i] == app.split_subscribe_sessions@[i].id);
    }
    if j < app.split_subscribe_sessions@.len() {
        assert(all[t + j] == app.split_subscribe_sessions@[j].id);
    }
}

/// An application is well formed exactly if its reserved drivers, its ASIO
/// subscribers and its meters are.
pub proof fn lemma_parts_are_well_formed(app: OpenAudioApp)
    ensures
        app.well_formed() <==> app.asio_locks.well_formed()
            && app.asio_subscribe_panel.well_formed() && app.signal_monitor.well_formed(),
{
}

} // verus!
