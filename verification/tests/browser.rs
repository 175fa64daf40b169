//! The browser gateway.

use openaudio::browser::{BrowserAccessMode, BrowserGateway, GatewayPhase};
use openaudio::control::Banners;
use openaudio::preset::BrowserPreset;
use openaudio::theme::Tone;

const NOW: u64 = 5_000_000_000;

fn typed(password: &str, confirmation: &str) -> BrowserGateway {
    let mut gateway = BrowserGateway::new(NOW);
    gateway.password = password.to_string();
    gateway.confirmation = confirmation.to_string();
    gateway
}

#[test]
fn passwords_need_eight_matching_characters() {
    assert!(!typed("", "").browser_password_valid());
    assert!(!typed("1234567", "1234567").browser_password_valid());
    assert!(typed("12345678", "12345678").browser_password_valid());
    assert!(!typed("12345678", "12345679").browser_password_valid());
    assert!(!typed("ääää", "ääää").browser_password_valid());
    assert!(typed("ääääöööö", "ääääöööö").browser_password_valid());
    let mut open = BrowserGateway::new(NOW);
    open.access_mode = BrowserAccessMode::OpenLan;
    assert!(open.browser_password_valid());
}

#[test]
fn password_hints_appear_while_typing() {
    assert_eq!(typed("", "").password_hint(), None);
    assert_eq!(
        typed("1234", "").password_hint(),
        Some("Password must contain at least eight characters.")
    );
    assert_eq!(typed("12345678", "").password_hint(), None);
    assert_eq!(typed("12345678", "1").password_hint(), Some("The passwords do not match."));
    assert_eq!(typed("", "1").password_hint(), Some("The passwords do not match."));
    assert_eq!(typed("12345678", "12345678").password_hint(), None);
}

#[test]
fn protected_gateway_starts_with_its_password_and_forgets_it() {
    let mut banners = Banners { error: Some("old".to_string()), info: None };
    let mut gateway = typed("12345678", "12345678");
    gateway.show_password = true;
    assert!(gateway.start_enabled(NOW));
    let plan = gateway.start_browser_gateway(NOW, &mut banners).unwrap();
    assert_eq!(plan.http_port, 7100);
    assert_eq!(plan.password.as_deref(), Some("12345678"));
    assert_eq!(plan.max_clients, 8);
    assert_eq!(plan.session_seconds, 8 * 60 * 60);
    assert_eq!(gateway.password, "");
    assert_eq!(gateway.confirmation, "");
    assert!(!gateway.show_password);
    assert_eq!(gateway.status, "Starting browser gateway...");
    assert_eq!(gateway.phase(), GatewayPhase::Running);
    assert_eq!(banners.error, None);
    assert!(gateway.start_browser_gateway(NOW, &mut banners).is_none());
    assert_eq!(banners.error, None);
}

#[test]
fn open_gateway_needs_no_password() {
    let mut banners = Banners::new();
    let mut gateway = BrowserGateway::new(NOW);
    gateway.access_mode = BrowserAccessMode::OpenLan;
    let plan = gateway.start_browser_gateway(NOW, &mut banners).unwrap();
    assert_eq!(plan.password, None);
}

#[test]
fn gateway_without_valid_passwords_is_refused() {
    let mut banners = Banners::new();
    let mut gateway = typed("short", "short");
    assert!(!gateway.start_enabled(NOW));
    assert!(gateway.start_browser_gateway(NOW, &mut banners).is_none());
    assert_eq!(
        banners.error.as_deref(),
        Some("Enter matching passwords containing at least eight characters.")
    );
    assert_eq!(gateway.password, "short");
    assert!(!gateway.thread_active);
}

#[test]
fn gateway_goes_through_its_phases() {
    let mut banners = Banners::new();
    let mut gateway = typed("12345678", "12345678");
    gateway.start_browser_gateway(NOW, &mut banners);
    gateway.thread_begun();
    assert_eq!(gateway.status, "Browser gateway running.");
    assert!(!gateway.debounce_ready(NOW + 500_000_000));
    assert!(gateway.debounce_ready(NOW + 500_000_001));
    gateway.stop(NOW + 600_000_000);
    assert_eq!(gateway.phase(), GatewayPhase::Stopping);
    assert_eq!(gateway.status, "Stopping browser gateway...");
    gateway.thread_ended(&Ok(()), &mut banners);
    assert_eq!(gateway.phase(), GatewayPhase::Stopped);
    assert_eq!(gateway.status, "Gateway stopped. Browser playback is not exposed.");
    assert!(!gateway.start_enabled(NOW + 2_000_000_000));
}

#[test]
fn gateway_failures_are_reported() {
    let mut banners = Banners::new();
    let mut gateway = typed("12345678", "12345678");
    gateway.start_browser_gateway(NOW, &mut banners);
    gateway.thread_ended(&Err("Address already in use".to_string()), &mut banners);
    let text = "The requested network port is already in use. Stop the old OpenAudio process or \
                choose another port.";
    assert_eq!(gateway.status, format!("Gateway error: {text}"));
    assert_eq!(banners.error, Some(format!("Browser gateway failed: {text}")));
    gateway.thread_failed("out of threads", &mut banners);
    assert_eq!(gateway.status, "Could not start the browser gateway thread: out of threads");
    assert_eq!(banners.error, Some(gateway.status.clone()));
    assert_eq!(gateway.phase(), GatewayPhase::Stopped);
}

#[test]
fn gateway_texts_follow_the_phase() {
    assert_eq!(GatewayPhase::Running.label(), "● RUNNING");
    assert_eq!(GatewayPhase::Stopping.label(), "● STOPPING");
    assert_eq!(GatewayPhase::Stopped.label(), "○ STOPPED");
    assert_eq!(GatewayPhase::Stopping.tone(), Tone::Orange);
    assert_eq!(GatewayPhase::Running.summary(), "Browser sharing is active");
    assert_eq!(
        GatewayPhase::Running.detail(3),
        "3 discovered stream(s) available to authenticated browser clients."
    );
    assert_eq!(
        GatewayPhase::Stopping.detail(3),
        "Waiting for the HTTP and WebSocket gateway threads to exit."
    );
    assert_eq!(
        GatewayPhase::Stopped.detail(3),
        "The gateway is disabled and no browser playback endpoint is exposed."
    );
    assert_eq!(BrowserAccessMode::OpenLan.access_label(), "Access: open LAN");
    assert_eq!(BrowserAccessMode::PasswordProtected.access_tone(), Tone::Green);
}

#[test]
fn access_mode_survives_a_preset() {
    for mode in [BrowserAccessMode::OpenLan, BrowserAccessMode::PasswordProtected] {
        let mut gateway = typed("12345678", "12345678");
        gateway.access_mode = mode;
        let preset = gateway.to_preset();
        let mut other = typed("x", "y");
        other.apply_preset(preset);
        assert_eq!(other.access_mode, mode);
        assert_eq!(other.password, "12345678");
        assert_eq!(other.confirmation, "");
    }
    let mut gateway = BrowserGateway::new(NOW);
    gateway.access_mode = BrowserAccessMode::OpenLan;
    gateway.apply_preset(BrowserPreset {
        access_mode: "whatever".to_string(),
        password: String::new(),
    });
    assert_eq!(gateway.access_mode, BrowserAccessMode::PasswordProtected);
}
