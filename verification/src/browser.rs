//! The gateway through which browsers play discovered streams.

use crate::control::{a_second_before, elapsed, elapsed_since, one_second_before, Banners};
use crate::messages::{friendly, friendly_error};
use crate::preset::{BrowserPreset, BrowserSettings, OPEN_LAN, PASSWORD_PROTECTED};
use crate::text::{chars_of, decimal, join2, join_number_between, option_text, same_text};
use crate::theme::Tone;
use vstd::prelude::*;

verus! {

/// Who may use the gateway.
#[derive(Clone, Copy, Debug, PartialEq, Eq, Structural)]
pub enum BrowserAccessMode {
    PasswordProtected,
    OpenLan,
}

impl BrowserAccessMode {
    /// The name of the mode in a preset.
    pub open spec fn name(self) -> Seq<char> {
        match self {
            BrowserAccessMode::PasswordProtected => PASSWORD_PROTECTED@,
            BrowserAccessMode::OpenLan => OPEN_LAN@,
        }
    }

    /// The mode that a preset names.  Anything but the open mode is protected.
    pub open spec fn named(name: Seq<char>) -> BrowserAccessMode {
        if name == OPEN_LAN@ {
            BrowserAccessMode::OpenLan
        } else {
            BrowserAccessMode::PasswordProtected
        }
    }

    /// The name of the mode in a preset.
    pub fn preset_name(self) -> (name: &'static str)
        ensures
            name@ == self.name(),
    {
        match self {
            BrowserAccessMode::PasswordProtected => PASSWORD_PROTECTED,
            BrowserAccessMode::OpenLan => OPEN_LAN,
        }
    }

    /// The mode that a preset names.
    pub fn from_preset_name(name: &str) -> (mode: BrowserAccessMode)
        ensures
            mode == BrowserAccessMode::named(name@),
    {
        if same_text(name, OPEN_LAN) {
            BrowserAccessMode::OpenLan
        } else {
            BrowserAccessMode::PasswordProtected
        }
    }

    /// The line that tells who may use a gateway that is active.
    pub fn access_label(self) -> (label: &'static str)
        ensures
            label@ == match self {
                BrowserAccessMode::PasswordProtected => "Access: password protected"@,
                BrowserAccessMode::OpenLan => "Access: open LAN"@,
            },
    {
        match self {
            BrowserAccessMode::PasswordProtected => "Access: password protected",
            BrowserAccessMode::OpenLan => "Access: open LAN",
        }
    }

    /// The colour of that line.
    pub fn access_tone(self) -> (tone: Tone)
        ensures
            tone == match self {
                BrowserAccessMode::PasswordProtected => Tone::Green,
                BrowserAccessMode::OpenLan => Tone::Yellow,
            },
    {
        match self {
            BrowserAccessMode::PasswordProtected => Tone::Green,
            BrowserAccessMode::OpenLan => Tone::Yellow,
        }
    }
}

/// A mode keeps its meaning through its name.
pub proof fn lemma_mode_name_round_trip(mode: BrowserAccessMode)
    ensures
        BrowserAccessMode::named(mode.name()) == mode,
{
    reveal_strlit("password_protected");
    reveal_strlit("open_lan");
    assert(PASSWORD_PROTECTED@.len() != OPEN_LAN@.len());
}

/// Whether the gateway serves, is about to end, or is off.
#[derive(Clone, Copy, Debug, PartialEq, Eq, Structural)]
pub enum GatewayPhase {
    Running,
    Stopping,
    Stopped,
}

impl GatewayPhase {
    /// The phase, told by whether the gateway is wanted and whether its thread
    /// is there.
    pub open spec fn told(running: bool, thread_active: bool) -> GatewayPhase {
        if running {
            GatewayPhase::Running
        } else if thread_active {
            GatewayPhase::Stopping
        } else {
            GatewayPhase::Stopped
        }
    }

    /// The mark beside the heading.
    pub fn label(self) -> (label: &'static str)
        ensures
            label@ == match self {
                GatewayPhase::Running => "● RUNNING"@,
                GatewayPhase::Stopping => "● STOPPING"@,
                GatewayPhase::Stopped => "○ STOPPED"@,
            },
    {
        match self {
            GatewayPhase::Running => "● RUNNING",
            GatewayPhase::Stopping => "● STOPPING",
            GatewayPhase::Stopped => "○ STOPPED",
        }
    }

    /// The colour of the mark.
    pub open spec fn color(self) -> Tone {
        match self {
            GatewayPhase::Running => Tone::Green,
            GatewayPhase::Stopping => Tone::Orange,
            GatewayPhase::Stopped => Tone::TextSecondary,
        }
    }

    /// The colour of the mark.
    pub fn tone(self) -> (tone: Tone)
        ensures
            tone == self.color(),
    {
        match self {
            GatewayPhase::Running => Tone::Green,
            GatewayPhase::Stopping => Tone::Orange,
            GatewayPhase::Stopped => Tone::TextSecondary,
        }
    }

    /// The heading of the summary.
    pub fn summary(self) -> (text: &'static str)
        ensures
            text@ == match self {
                GatewayPhase::Running => "Browser sharing is active"@,
                GatewayPhase::Stopping => "Browser sharing is stopping"@,
                GatewayPhase::Stopped => "Browser sharing is private"@,
            },
    {
        match self {
            GatewayPhase::Running => "Browser sharing is active",
            GatewayPhase::Stopping => "Browser sharing is stopping",
            GatewayPhase::Stopped => "Browser sharing is private",
        }
    }

    /// The line under that heading.
    pub open spec fn detail_text(self, discovered: usize) -> Seq<char> {
        match self {
            GatewayPhase::Running => decimal(discovered as nat) + STREAMS_AVAILABLE@,
            GatewayPhase::Stopping => WAITING_FOR_GATEWAY@,
            GatewayPhase::Stopped => GATEWAY_DISABLED@,
        }
    }

    /// The line under that heading.
    pub fn detail(self, discovered: usize) -> (text: String)
        ensures
            text@ == self.detail_text(discovered),
    {
        match self {
            GatewayPhase::Running => {
                let text = join_number_between("", discovered as u128, STREAMS_AVAILABLE);
                proof {
                    reveal_strlit("");
                    assert(""@ + decimal(discovered as nat) =~= decimal(discovered as nat));
                }
                text
            },
            GatewayPhase::Stopping => WAITING_FOR_GATEWAY.to_string(),
            GatewayPhase::Stopped => GATEWAY_DISABLED.to_string(),
        }
    }
}

pub const STREAMS_AVAILABLE: &'static str = " discovered stream(s) available to authenticated browser clients.";

pub const WAITING_FOR_GATEWAY: &'static str = "Waiting for the HTTP and WebSocket gateway threads to exit.";

pub const GATEWAY_DISABLED: &'static str = "The gateway is disabled and no browser playback endpoint is exposed.";

pub const GATEWAY_STOPPED: &'static str = "Gateway stopped. Browser playback is not exposed.";

pub const GATEWAY_STARTING: &'static str = "Starting browser gateway...";

pub const GATEWAY_RUNNING: &'static str = "Browser gateway running.";

pub const GATEWAY_STOPPING: &'static str = "Stopping browser gateway...";

pub const PASSWORDS_INVALID: &'static str = "Enter matching passwords containing at least eight characters.";

pub const PASSWORD_SHORT: &'static str = "Password must contain at least eight characters.";

pub const PASSWORDS_DIFFER: &'static str = "The passwords do not match.";

/// The least length of a password, in characters.
pub const PASSWORD_LENGTH: usize = 8;

/// How long the button of the gateway is ignored after it was used.
pub const GATEWAY_DEBOUNCE: u64 = 500_000_000;

/// The port of the web page and its interface.
pub const GATEWAY_HTTP_PORT: u16 = 7100;

/// How many browsers may be served at a time.
pub const GATEWAY_MAX_CLIENTS: usize = 8;

/// How long a browser stays signed in, in seconds.
pub const GATEWAY_SESSION_SECONDS: u64 = 28_800;

/// The gateway as the application sees it.
pub struct BrowserGateway {
    pub access_mode: BrowserAccessMode,
    pub password: String,
    pub confirmation: String,
    pub show_password: bool,
    /// Whether the gateway is wanted.
    pub running: bool,
    /// Whether its thread is there.
    pub thread_active: bool,
    pub status: String,
    pub last_toggle: u64,
}

/// The gateway, in mathematical terms.
#[verifier::ext_equal]
pub struct GatewayState {
    pub access_mode: BrowserAccessMode,
    pub password: Seq<char>,
    pub confirmation: Seq<char>,
    pub show_password: bool,
    pub running: bool,
    pub thread_active: bool,
    pub status: Seq<char>,
    pub last_toggle: u64,
}

impl View for BrowserGateway {
    type V = GatewayState;

    open spec fn view(&self) -> GatewayState {
        GatewayState {
            access_mode: self.access_mode,
            password: self.password@,
            confirmation: self.confirmation@,
            show_password: self.show_password,
            running: self.running,
            thread_active: self.thread_active,
            status: self.status@,
            last_toggle: self.last_toggle,
        }
    }
}

impl GatewayState {
    /// A gateway that was never started.
    pub open spec fn initial(now: u64) -> GatewayState {
        GatewayState {
            access_mode: BrowserAccessMode::PasswordProtected,
            password: Seq::empty(),
            confirmation: Seq::empty(),
            show_password: false,
            running: false,
            thread_active: false,
            status: GATEWAY_STOPPED@,
            last_toggle: a_second_before(now),
        }
    }

    /// Whether the passwords will do.
    pub open spec fn password_accepted(self) -> bool {
        match self.access_mode {
            BrowserAccessMode::OpenLan => true,
            BrowserAccessMode::PasswordProtected => self.password.len() >= PASSWORD_LENGTH
                && self.password == self.confirmation,
        }
    }

    /// What is wrong with the passwords, while they are typed.
    pub open spec fn password_flaw(self) -> Option<Seq<char>> {
        if 0 < self.password.len() < PASSWORD_LENGTH {
            Some(PASSWORD_SHORT@)
        } else if self.confirmation.len() > 0 && self.password != self.confirmation {
            Some(PASSWORDS_DIFFER@)
        } else {
            None
        }
    }

    /// Whether the button of the gateway reacts.
    pub open spec fn debounced(self, now: u64) -> bool {
        elapsed(self.last_toggle, now) > GATEWAY_DEBOUNCE
    }

    /// Whether the gateway can be started.
    pub open spec fn startable(self) -> bool {
        !self.thread_active && self.password_accepted()
    }

    /// The gateway as it is started.  The passwords are forgotten.
    pub open spec fn starting(self, now: u64) -> GatewayState {
        GatewayState {
            password: Seq::empty(),
            confirmation: Seq::empty(),
            show_password: false,
            running: true,
            thread_active: true,
            status: GATEWAY_STARTING@,
            last_toggle: now,
            ..self
        }
    }

    /// The gateway as the user stops it.
    pub open spec fn stopping(self, now: u64) -> GatewayState {
        GatewayState { running: false, status: GATEWAY_STOPPING@, last_toggle: now, ..self }
    }

    /// The gateway after its thread has ended.
    pub open spec fn ended(self, status: Seq<char>) -> GatewayState {
        GatewayState { running: false, thread_active: false, status, ..self }
    }

    /// What a preset keeps of the gateway.
    pub open spec fn settings(self) -> BrowserSettings {
        BrowserSettings { access_mode: self.access_mode.name(), password: self.password }
    }

    /// The gateway with the settings of a preset.
    pub open spec fn configured(self, settings: BrowserSettings) -> GatewayState {
        GatewayState {
            access_mode: BrowserAccessMode::named(settings.access_mode),
            password: settings.password,
            confirmation: Seq::empty(),
            ..self
        }
    }
}

/// What is needed to run the gateway.
pub struct GatewayPlan {
    pub http_port: u16,
    /// The password that browsers have to give, or none.
    pub password: Option<String>,
    pub max_clients: usize,
    pub session_seconds: u64,
}

impl BrowserGateway {
    /// A gateway that was never started.
    pub fn new(now: u64) -> (gateway: Self)
        ensures
            gateway@ == GatewayState::initial(now),
    {
        let gateway = BrowserGateway {
            access_mode: BrowserAccessMode::PasswordProtected,
            password: String::new(),
            confirmation: String::new(),
            show_password: false,
            running: false,
            thread_active: false,
            status: GATEWAY_STOPPED.to_string(),
            last_toggle: one_second_before(now),
        };
        assert(gateway@ =~= GatewayState::initial(now));
        gateway
    }

    /// Whether the gateway serves, is about to end, or is off.
    pub fn phase(&self) -> (phase: GatewayPhase)
        ensures
            phase == GatewayPhase::told(self.running, self.thread_active),
    {
        if self.running {
            GatewayPhase::Running
        } else if self.thread_active {
            GatewayPhase::Stopping
        } else {
            GatewayPhase::Stopped
        }
    }

    /// Whether the passwords will do.
    pub fn browser_password_valid(&self) -> (valid: bool)
        ensures
            valid == self@.password_accepted(),
    {
        match self.access_mode {
            BrowserAccessMode::OpenLan => true,
            BrowserAccessMode::PasswordProtected => chars_of(self.password.as_str()).len()
                >= PASSWORD_LENGTH && same_text(
                self.password.as_str(),
                self.confirmation.as_str(),
            ),
        }
    }

    /// What is wrong with the passwords, while they are typed.
    pub fn password_hint(&self) -> (hint: Option<&'static str>)
        ensures
            hint is None <==> self@.password_flaw() is None,
            hint matches Some(text) ==> self@.password_flaw() == Some(text@),
    {
        let length: usize = chars_of(self.password.as_str()).len();
        let repeated: usize = chars_of(self.confirmation.as_str()).len();
        if 0 < length && length < PASSWORD_LENGTH {
            Some(PASSWORD_SHORT)
        } else if repeated > 0 && !same_text(self.password.as_str(), self.confirmation.as_str()) {
            Some(PASSWORDS_DIFFER)
        } else {
            None
        }
    }

    /// Whether the button of the gateway reacts.
    pub fn debounce_ready(&self, now: u64) -> (ready: bool)
        ensures
            ready == self@.debounced(now),
    {
        elapsed_since(self.last_toggle, now) > GATEWAY_DEBOUNCE
    }

    /// Whether the button that starts the gateway reacts.
    pub fn start_enabled(&self, now: u64) -> (yes: bool)
        ensures
            yes == (self@.debounced(now) && self@.startable()),
    {
        !self.thread_active && self.debounce_ready(now) && self.browser_password_valid()
    }

    /// Starts the gateway, unless its thread is still there or the passwords
    /// will not do.
    pub fn start_browser_gateway(&mut self, now: u64, banners: &mut Banners) -> (plan: Option<
        GatewayPlan,
    >)
        ensures
            final(banners).info == old(banners).info,
            plan is Some <==> old(self)@.startable(),
            plan matches Some(p) ==> {
                &&& final(self)@ == old(self)@.starting(now)
                &&& final(banners).error is None
                &&& p.http_port == 7_100
                &&& p.max_clients == 8
                &&& p.session_seconds == 8 * 60 * 60
                &&& option_text(p.password) == match old(self).access_mode {
                    BrowserAccessMode::OpenLan => None,
                    BrowserAccessMode::PasswordProtected => Some(old(self).password@),
                }
            },
            plan is None ==> {
                &&& *final(self) == *old(self)
                &&& option_text(final(banners).error) == if old(self).thread_active {
                    option_text(old(banners).error)
                } else {
                    Some(PASSWORDS_INVALID@)
                }
            },
    {
        if self.thread_active {
            return None;
        }
        if !self.browser_password_valid() {
            banners.error = Some(PASSWORDS_INVALID.to_string());
            return None;
        }
        self.last_toggle = now;
        banners.error = None;
        let password = match self.access_mode {
            BrowserAccessMode::OpenLan => None,
            BrowserAccessMode::PasswordProtected => Some(self.password.clone()),
        };
        self.running = true;
        self.thread_active = true;
        self.status = GATEWAY_STARTING.to_string();
        self.password = String::new();
        self.confirmation = String::new();
        self.show_password = false;
        assert(self@ =~= old(self)@.starting(now));
        Some(
            GatewayPlan {
                http_port: GATEWAY_HTTP_PORT,
                password,
                max_clients: GATEWAY_MAX_CLIENTS,
                session_seconds: GATEWAY_SESSION_SECONDS,
            },
        )
    }

    /// Takes in that the thread of the gateway has begun.
    pub fn thread_begun(&mut self)
        ensures
            final(self)@ == (GatewayState { status: GATEWAY_RUNNING@, ..old(self)@ }),
    {
        self.status = GATEWAY_RUNNING.to_string();
    }

    /// Takes in that the thread of the gateway has ended.
    pub fn thread_ended(&mut self, result: &Result<(), String>, banners: &mut Banners)
        ensures
            final(banners).info == old(banners).info,
            match *result {
                Ok(()) => {
                    &&& final(self)@ == old(self)@.ended(GATEWAY_STOPPED@)
                    &&& final(banners).error == old(banners).error
                },
                Err(error) => {
                    &&& final(self)@ == old(self)@.ended("Gateway error: "@ + friendly(error@))
                    &&& option_text(final(banners).error) == Some(
                        "Browser gateway failed: "@ + friendly(error@),
                    )
                },
            },
    {
        self.running = false;
        self.thread_active = false;
        match result {
            Ok(()) => {
                self.status = GATEWAY_STOPPED.to_string();
            },
            Err(error) => {
                let text = friendly_error(error.as_str());
                self.status = join2("Gateway error: ", text.as_str());
                banners.error = Some(join2("Browser gateway failed: ", text.as_str()));
            },
        }
    }

    /// Takes in that the thread of the gateway could not be started.
    pub fn thread_failed(&mut self, error: &str, banners: &mut Banners)
        ensures
            final(self)@ == old(self)@.ended(
                "Could not start the browser gateway thread: "@ + error@,
            ),
            option_text(final(banners).error) == Some(
                "Could not start the browser gateway thread: "@ + error@,
            ),
            final(banners).info == old(banners).info,
    {
        let message = join2("Could not start the browser gateway thread: ", error);
        self.running = false;
        self.thread_active = false;
        self.status = message.clone();
        banners.error = Some(message);
    }

    /// Asks the gateway to end.
    pub fn stop(&mut self, now: u64)
        ensures
            final(self)@ == old(self)@.stopping(now),
    {
        self.last_toggle = now;
        self.running = false;
        self.status = GATEWAY_STOPPING.to_string();
    }

    /// What a preset keeps of the gateway.
    pub fn to_preset(&self) -> (preset: BrowserPreset)
        ensures
            preset@ == self@.settings(),
    {
        BrowserPreset {
            access_mode: self.access_mode.preset_name().to_string(),
            password: self.password.clone(),
        }
    }

    /// Takes over what a preset has kept.
    pub fn apply_preset(&mut self, preset: BrowserPreset)
        ensures
            final(self)@ == old(self)@.configured(preset@),
    {
        self.access_mode = BrowserAccessMode::from_preset_name(preset.access_mode.as_str());
        self.password = preset.password;
        self.confirmation = String::new();
        assert(self@ =~= old(self)@.configured(preset@));
    }
}

/// A gateway that starts keeps no password, whatever was typed.
pub proof fn lemma_passwords_are_forgotten(state: GatewayState, now: u64)
    ensures
        state.starting(now).password.len() == 0,
        state.starting(now).confirmation.len() == 0,
        !state.starting(now).show_password,
{
}

/// A protected gateway that was started cannot be started again before its
/// thread has ended and the passwords have been entered again.
pub proof fn lemma_no_second_gateway(state: GatewayState, now: u64, status: Seq<char>)
    ensures
        !state.starting(now).startable(),
        !state.starting(now).stopping(now).startable(),
        state.access_mode == BrowserAccessMode::PasswordProtected ==> !state.starting(now).ended(
            status,
        ).startable(),
        state.access_mode == BrowserAccessMode::OpenLan ==> state.starting(now).ended(
            status,
        ).startable(),
{
}

/// Passwords that will do show no flaw, and the gateway of a loaded preset asks
/// for its password to be confirmed.
pub proof fn lemma_accepted_passwords_show_no_flaw(state: GatewayState)
    requires
        state.access_mode == BrowserAccessMode::PasswordProtected,
    ensures
        state.password_accepted() ==> state.password_flaw() is None,
        !state.configured(state.settings()).password_accepted(),
{
    lemma_mode_name_round_trip(state.access_mode);
}

/// What a preset keeps of the gateway comes back unchanged.
pub proof fn lemma_settings_round_trip(state: GatewayState, other: GatewayState)
    ensures
        other.configured(state.settings()).settings() == state.settings(),
        other.configured(state.settings()).access_mode == state.access_mode,
{
    lemma_mode_name_round_trip(state.access_mode);
}

/// Only the name of the open mode opens the gateway; any other text protects it.
pub proof fn lemma_only_its_name_opens(name: Seq<char>)
    ensures
        name != "open_lan"@ ==> BrowserAccessMode::named(name)
            == BrowserAccessMode::PasswordProtected,
        BrowserAccessMode::named("open_lan"@) == BrowserAccessMode::OpenLan,
        BrowserAccessMode::PasswordProtected.name() == "password_protected"@,
        BrowserAccessMode::OpenLan.name() == "open_lan"@,
{
}

/// A gateway that is wanted runs, one that is not is about to end as long as its
/// thread is there, and is off otherwise.
pub proof fn lemma_phases(running: bool, thread_active: bool)
    ensures
        GatewayPhase::told(running, thread_active) == GatewayPhase::Running <==> running,
        GatewayPhase::told(running, thread_active) == GatewayPhase::Stopped <==> !running
            && !thread_active,
        GatewayPhase::Running.color() == Tone::Green,
        GatewayPhase::Stopping.color() == Tone::Orange,
        GatewayPhase::Stopped.color() == Tone::TextSecondary,
{
}

/// A protected gateway takes a password of eight characters at least that was
/// typed twice alike, and no other; an open one takes whatever was typed.
pub proof fn lemma_accepted_passwords(state: GatewayState)
    ensures
        state.access_mode == BrowserAccessMode::OpenLan ==> state.password_accepted(),
        state.access_mode == BrowserAccessMode::PasswordProtected ==> (state.password_accepted()
            <==> state.password.len() >= 8 && state.confirmation == state.password),
        state.thread_active ==> !state.startable(),
        !state.thread_active && state.password_accepted() ==> state.startable(),
        1 <= state.password.len() <= 7 ==> state.password_flaw() == Some(
            "Password must contain at least eight characters."@,
        ),
        state.password.len() >= 8 && state.confirmation.len() > 0 && state.confirmation
            != state.password ==> state.password_flaw() == Some("The passwords do not match."@),
        state.password.len() == 0 && state.confirmation.len() == 0 ==> state.password_flaw() is None,
{
}

/// For half a second after it was used, and no longer, the button of the gateway is
/// ignored.
pub proof fn lemma_gateway_button_comes_back(state: GatewayState, at: u64, time: u64)
    requires
        at + time <= u64::MAX,
    ensures
        state.starting(at).debounced((at + time) as u64) <==> time > 500_000_000,
        state.stopping(at).debounced((at + time) as u64) <==> time > 500_000_000,
{
}

/// A gateway is wanted from its start until it is stopped or ends; its thread is
/// there until it ends.  Who may use it changes with a preset only.
pub proof fn lemma_course_of_the_gateway(
    state: GatewayState,
    now: u64,
    status: Seq<char>,
    settings: BrowserSettings,
)
    ensures
        state.starting(now).running && state.starting(now).thread_active,
        !state.stopping(now).running,
        state.stopping(now).thread_active == state.thread_active,
        state.stopping(now).password == state.password,
        !state.ended(status).running && !state.ended(status).thread_active,
        state.ended(status).status == status,
        state.ended(status).password == state.password,
        state.ended(status).last_toggle == state.last_toggle,
        state.starting(now).access_mode == state.access_mode,
        state.stopping(now).access_mode == state.access_mode,
        state.ended(status).access_mode == state.access_mode,
        state.configured(settings).running == state.running,
        state.configured(settings).thread_active == state.thread_active,
        state.configured(settings).status == state.status,
        state.configured(settings).last_toggle == state.last_toggle,
        state.configured(settings).show_password == state.show_password,
        state.configured(settings).password == settings.password,
        state.configured(settings).confirmation.len() == 0,
        state.settings().password == state.password,
        !GatewayState::initial(now).running && !GatewayState::initial(now).thread_active,
        GatewayState::initial(now).access_mode == BrowserAccessMode::PasswordProtected,
        GatewayState::initial(now).password.len() == 0,
{
}

/// The view of the gateway tells all of it.
pub proof fn lemma_gateway_view_is_complete(a: BrowserGateway, b: BrowserGateway)
    requires
        a@ == b@,
    ensures
        a.access_mode == b.access_mode,
        a.password@ == b.password@,
        a.confirmation@ == b.confirmation@,
        a.show_password == b.show_password,
        a.running == b.running,
        a.thread_active == b.thread_active,
        a.status@ == b.status@,
        a.last_toggle == b.last_toggle,
{
}

/// Starting the gateway forgets what is typed; stopping it or its end leaves it.
pub proof fn lemma_what_is_typed_stays(state: GatewayState, now: u64, status: Seq<char>)
    ensures
        state.starting(now).password.len() == 0,
        state.starting(now).confirmation.len() == 0,
        !state.starting(now).show_password,
        state.starting(now).last_toggle == now,
        state.starting(now).status == "Starting browser gateway..."@,
        state.stopping(now).confirmation == state.confirmation,
        state.stopping(now).show_password == state.show_password,
        state.stopping(now).last_toggle == now,
        state.stopping(now).status == "Stopping browser gateway..."@,
        state.ended(status).confirmation == state.confirmation,
        state.ended(status).show_password == state.show_password,
        !GatewayState::initial(now).show_password,
        GatewayState::initial(now).confirmation.len() == 0,
        now >= 1_000_000_000 ==> GatewayState::initial(now).debounced(now),
        GatewayState::initial(now).status
            == "Gateway stopped. Browser playback is not exposed."@,
{
}

/// A preset brings back who may use the gateway and the password.
pub proof fn lemma_gateway_settings_come_back(state: GatewayState, other: GatewayState)
    ensures
        other.configured(state.settings()).access_mode == state.access_mode,
        other.configured(state.settings()).password == state.password,
{
    reveal_strlit("open_lan");
    reveal_strlit("password_protected");
    assert("open_lan"@.len() != "password_protected"@.len());
}

/// The summary of a gateway that runs begins with the number of streams; otherwise
/// the number does not matter.
pub proof fn lemma_gateway_details(discovered: usize, other: usize)
    ensures
        crate::text::starts_with_text(
            GatewayPhase::Running.detail_text(discovered),
            decimal(discovered as nat) + " discovered stream(s)"@,
        ),
        GatewayPhase::Stopping.detail_text(discovered)
            == "Waiting for the HTTP and WebSocket gateway threads to exit."@,
        GatewayPhase::Stopped.detail_text(discovered)
            == "The gateway is disabled and no browser playback endpoint is exposed."@,
        GatewayPhase::Stopping.detail_text(discovered) == GatewayPhase::Stopping.detail_text(other),
        GatewayPhase::Stopped.detail_text(discovered) == GatewayPhase::Stopped.detail_text(other),
{
    reveal_strlit(" discovered stream(s)");
    reveal_strlit(" available to authenticated browser clients.");
    reveal_strlit(" discovered stream(s) available to authenticated browser clients.");
    let head = decimal(discovered as nat) + " discovered stream(s)"@;
    assert(GatewayPhase::Running.detail_text(discovered) =~= head
        + " available to authenticated browser clients."@);
    crate::text::lemma_what_is_found(
        Seq::empty(),
        head,
        " available to authenticated browser clients."@,
    );
}

} // verus!
