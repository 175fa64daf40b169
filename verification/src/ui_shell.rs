//! The pages of the window and the summary above them.

use crate::browser::GatewayPhase;
use crate::text::{decimal, decimal_text, push_decimal};
use crate::theme::Tone;
use vstd::prelude::*;

verus! {

/// The pages of the window.
#[derive(Clone, Copy, Debug, Default, PartialEq, Eq, Structural)]
pub enum AppPage {
    #[default]
    Overview,
    Publish,
    Subscribe,
    Browser,
    Diagnostics,
}

/// What the summary counts.
#[derive(Clone, Copy, Debug, Default, PartialEq, Eq, Structural)]
pub struct UiSummary {
    pub configured_publishers: usize,
    pub running_publishers: usize,
    pub configured_subscribers: usize,
    pub running_subscribers: usize,
    pub discovered_streams: usize,
    pub gateway_running: bool,
    pub gateway_stopping: bool,
}

impl AppPage {
    /// The heading of a page.
    pub fn title(self) -> (text: &'static str)
        ensures
            text@ == match self {
                AppPage::Overview => "Overview"@,
                AppPage::Publish => "Publish Audio"@,
                AppPage::Subscribe => "Receive Audio"@,
                AppPage::Browser => "Browser Sharing"@,
                AppPage::Diagnostics => "Diagnostics"@,
            },
    {
        match self {
            AppPage::Overview => "Overview",
            AppPage::Publish => "Publish Audio",
            AppPage::Subscribe => "Receive Audio",
            AppPage::Browser => "Browser Sharing",
            AppPage::Diagnostics => "Diagnostics",
        }
    }

    /// The line under the heading.
    pub fn description(self) -> (text: &'static str)
        ensures
            text@ == match self {
                AppPage::Overview =>
                    "Monitor active signals and review the current OpenAudio system state."@,
                AppPage::Publish =>
                    "Capture audio devices or ASIO channels and publish them to the network."@,
                AppPage::Subscribe =>
                    "Receive discovered streams and route them to WASAPI, split devices, or ASIO."@,
                AppPage::Browser => "Control secure browser playback and trusted-LAN access."@,
                AppPage::Diagnostics =>
                    "Generate synthetic streams and test multichannel network performance."@,
            },
    {
        match self {
            AppPage::Overview =>
                "Monitor active signals and review the current OpenAudio system state.",
            AppPage::Publish =>
                "Capture audio devices or ASIO channels and publish them to the network.",
            AppPage::Subscribe =>
                "Receive discovered streams and route them to WASAPI, split devices, or ASIO.",
            AppPage::Browser => "Control secure browser playback and trusted-LAN access.",
            AppPage::Diagnostics =>
                "Generate synthetic streams and test multichannel network performance.",
        }
    }

    /// The mark on the button that opens a page.
    pub fn icon(self) -> (text: &'static str)
        ensures
            text@ == match self {
                AppPage::Overview => "⌂"@,
                AppPage::Publish => "↑"@,
                AppPage::Subscribe => "↓"@,
                AppPage::Browser => "◎"@,
                AppPage::Diagnostics => "⚙"@,
            },
    {
        match self {
            AppPage::Overview => "⌂",
            AppPage::Publish => "↑",
            AppPage::Subscribe => "↓",
            AppPage::Browser => "◎",
            AppPage::Diagnostics => "⚙",
        }
    }

    /// The caption of the button that opens a page.
    pub fn caption(self) -> (text: &'static str)
        ensures
            text@ == match self {
                AppPage::Overview => "Overview"@,
                AppPage::Publish => "Publish"@,
                AppPage::Subscribe => "Subscribe"@,
                AppPage::Browser => "Browser"@,
                AppPage::Diagnostics => "Diagnostics"@,
            },
    {
        match self {
            AppPage::Overview => "Overview",
            AppPage::Publish => "Publish",
            AppPage::Subscribe => "Subscribe",
            AppPage::Browser => "Browser",
            AppPage::Diagnostics => "Diagnostics",
        }
    }

    /// The colour of the button of the open page.
    pub fn accent(self) -> (tone: Tone)
        ensures
            tone == match self {
                AppPage::Overview => Tone::Blue,
                AppPage::Publish => Tone::Green,
                AppPage::Subscribe => Tone::Purple,
                AppPage::Browser => Tone::Blue,
                AppPage::Diagnostics => Tone::Orange,
            },
    {
        match self {
            AppPage::Overview => Tone::Blue,
            AppPage::Publish => Tone::Green,
            AppPage::Subscribe => Tone::Purple,
            AppPage::Browser => Tone::Blue,
            AppPage::Diagnostics => Tone::Orange,
        }
    }
}

/// "3 running"
pub fn running_text(count: usize) -> (text: String)
    ensures
        text@ == decimal(count as nat) + " running"@,
{
    let mut text = decimal_text(count as u128);
    text.append(" running");
    text
}

/// "3 configured"
pub fn configured_text(count: usize) -> (text: String)
    ensures
        text@ == decimal(count as nat) + " configured"@,
{
    let mut text = decimal_text(count as u128);
    text.append(" configured");
    text
}

/// "3/5", the running ones of the configured ones.
pub fn ratio_text(running: usize, configured: usize) -> (text: String)
    ensures
        text@ == decimal(running as nat) + "/"@ + decimal(configured as nat),
{
    let mut text = decimal_text(running as u128);
    text.append("/");
    push_decimal(&mut text, configured as u128);
    text
}

impl UiSummary {
    /// Whether the gateway serves, is about to end, or is off.
    pub open spec fn phase(self) -> GatewayPhase {
        GatewayPhase::told(self.gateway_running, self.gateway_stopping)
    }

    /// Whether the gateway serves, is about to end, or is off.
    pub fn gateway_phase(&self) -> (phase: GatewayPhase)
        ensures
            phase == self.phase(),
    {
        if self.gateway_running {
            GatewayPhase::Running
        } else if self.gateway_stopping {
            GatewayPhase::Stopping
        } else {
            GatewayPhase::Stopped
        }
    }
}

impl GatewayPhase {
    /// The phase in a word.
    pub fn word(self) -> (text: &'static str)
        ensures
            text@ == match self {
                GatewayPhase::Running => "Running"@,
                GatewayPhase::Stopping => "Stopping"@,
                GatewayPhase::Stopped => "Stopped"@,
            },
    {
        match self {
            GatewayPhase::Running => "Running",
            GatewayPhase::Stopping => "Stopping",
            GatewayPhase::Stopped => "Stopped",
        }
    }

    /// What the phase means for browsers.
    pub fn consequence(self) -> (text: &'static str)
        ensures
            text@ == match self {
                GatewayPhase::Running => "browser playback exposed"@,
                GatewayPhase::Stopping => "waiting for gateway thread"@,
                GatewayPhase::Stopped => "browser playback private"@,
            },
    {
        match self {
            GatewayPhase::Running => "browser playback exposed",
            GatewayPhase::Stopping => "waiting for gateway thread",
            GatewayPhase::Stopped => "browser playback private",
        }
    }
}

} // verus!
