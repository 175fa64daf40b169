//! The application as a whole, its summary, and saving and loading presets.

use openaudio::app::{DriverNotice, OpenAudioApp, SessionKind};
use openaudio::asio_locks::reserve_asio_device;
use openaudio::browser::{BrowserAccessMode, GatewayPhase};
use openaudio::devices::{AsioDriverInfo, DeviceInfo};
use openaudio::level::Volume;
use openaudio::preset::PresetFile;
use openaudio::theme::Tone;
use openaudio::ui_shell::{configured_text, ratio_text, running_text, AppPage};

const NOW: u64 = 5_000_000_000;

fn console() -> AsioDriverInfo {
    AsioDriverInfo {
        name: "Console".to_string(),
        max_input_channels: 32,
        max_output_channels: 32,
        default_sample_rate: Some(48_000),
    }
}

fn app() -> OpenAudioApp {
    OpenAudioApp::new(NOW, Vec::new(), Vec::new(), Ok(vec![console()]))
}

fn busy_app() -> OpenAudioApp {
    let mut app = app();
    app.add_publish_session(NOW);
    app.add_combine_session(NOW);
    app.add_asio_publish_session(NOW);
    app.add_subscribe_session(NOW);
    app.add_split_session(NOW);
    app.publish_sessions[0].config.node_name = "Booth".to_string();
    app.combine_publish_sessions[0].set_channel_count(3);
    app.asio_publish_sessions[0].select_driver(&console());
    app.subscribe_sessions[0].config.volume = Volume { bits: 0.75f32.to_bits() };
    app.split_subscribe_sessions[0].config.channel_devices = vec![None, Some("B".to_string())];
    app.browser.access_mode = BrowserAccessMode::OpenLan;
    app.browser.password = "secret words".to_string();
    app
}

#[test]
fn application_opens_idle_on_the_overview() {
    let app = app();
    assert_eq!(app.active_page, AppPage::Overview);
    assert_eq!(app.active_page, AppPage::default());
    assert_eq!(app.next_id, 1);
    assert_eq!(app.activity(), ("Idle".to_string(), Tone::TextSecondary));
    assert_eq!(app.browser.status, "Gateway stopped. Browser playback is not exposed.");
    assert!(matches!(app.driver_notice(), DriverNotice::Available(text)
        if text == "1 ASIO driver(s) available"));
    let failed = OpenAudioApp::new(NOW, Vec::new(), Vec::new(), Err("no host".to_string()));
    assert!(matches!(failed.driver_notice(), DriverNotice::Failed(text) if text == "⚠ no host"));
    let none = OpenAudioApp::new(NOW, Vec::new(), Vec::new(), Ok(Vec::new()));
    assert!(matches!(none.driver_notice(), DriverNotice::Nothing));
}

#[test]
fn pages_have_titles_and_descriptions() {
    assert_eq!(AppPage::Subscribe.title(), "Receive Audio");
    assert_eq!(AppPage::Publish.title(), "Publish Audio");
    assert_eq!(
        AppPage::Browser.description(),
        "Control secure browser playback and trusted-LAN access."
    );
    assert_eq!(AppPage::Diagnostics.caption(), "Diagnostics");
    assert_eq!(AppPage::Overview.icon(), "⌂");
    assert_eq!(AppPage::Diagnostics.accent(), Tone::Orange);
}

#[test]
fn sessions_are_numbered_across_kinds() {
    let app = busy_app();
    assert_eq!(app.publish_sessions[0].id, 1);
    assert_eq!(app.combine_publish_sessions[0].id, 2);
    assert_eq!(app.asio_publish_sessions[0].id, 3);
    assert_eq!(app.subscribe_sessions[0].id, 4);
    assert_eq!(app.split_subscribe_sessions[0].id, 5);
    assert_eq!(app.subscribe_sessions[0].config.bind_port, "6984");
    assert_eq!(app.split_subscribe_sessions[0].config.bind_port, "6995");
    assert_eq!(app.next_id, 6);
    let mut last = OpenAudioApp::new(NOW, Vec::new(), Vec::new(), Ok(Vec::new()));
    last.next_id = u64::MAX;
    assert_eq!(last.take_next_id(), u64::MAX);
    assert_eq!(last.take_next_id(), u64::MAX);
}

#[test]
fn summary_counts_sessions() {
    let mut app = busy_app();
    app.publish_sessions[0].control.running = true;
    app.split_subscribe_sessions[0].control.running = true;
    app.browser.thread_active = true;
    let summary = app.ui_summary(4);
    assert_eq!(summary.configured_publishers, 3);
    assert_eq!(summary.running_publishers, 1);
    assert_eq!(summary.configured_subscribers, 2);
    assert_eq!(summary.running_subscribers, 1);
    assert_eq!(summary.discovered_streams, 4);
    assert!(!summary.gateway_running);
    assert!(summary.gateway_stopping);
    assert_eq!(summary.gateway_phase(), GatewayPhase::Stopping);
    assert_eq!(summary.gateway_phase().word(), "Stopping");
    assert_eq!(summary.gateway_phase().consequence(), "waiting for gateway thread");
    assert_eq!(app.active_audio_session_count(), 2);
    assert_eq!(
        app.active_audio_session_count(),
        summary.running_publishers + summary.running_subscribers
    );
    assert_eq!(app.activity(), ("2 active".to_string(), Tone::Green));
    assert_eq!(running_text(2), "2 running");
    assert_eq!(configured_text(3), "3 configured");
    assert_eq!(ratio_text(1, 3), "1/3");
}

#[test]
fn running_sessions_are_not_removed() {
    let mut app = busy_app();
    app.publish_sessions[0].control.running = true;
    app.remove_publish_session(0);
    app.remove_publish_session(7);
    assert_eq!(app.publish_sessions.len(), 1);
    app.publish_sessions[0].control.running = false;
    app.remove_publish_session(0);
    assert_eq!(app.publish_sessions.len(), 0);
    app.remove_asio_publish_session(0);
    assert_eq!(app.asio_publish_sessions.len(), 0);
    app.remove_subscribe_session(0);
    assert_eq!(app.subscribe_sessions.len(), 0);
}

#[test]
fn endpoints_left_behind_are_reported() {
    let mut app = busy_app();
    assert_eq!(app.combine_removal_tag(0).as_deref(), Some("combine2"));
    assert_eq!(app.combine_removal_tag(1), None);
    app.remove_combine_session(0, &Err("locked".to_string()));
    assert_eq!(app.combine_publish_sessions.len(), 0);
    assert_eq!(
        app.banners.error.as_deref(),
        Some("The stream was removed, but its SAR endpoints could not be removed: locked")
    );
    assert_eq!(app.split_removal_tag(0).as_deref(), Some("split5"));
    app.split_subscribe_sessions[0].control.running = true;
    assert_eq!(app.split_removal_tag(0), None);
    app.split_subscribe_sessions[0].control.running = false;
    app.remove_split_session(0, &Err("locked".to_string()));
    assert_eq!(
        app.banners.error.as_deref(),
        Some("The session was removed, but its SAR endpoints could not be removed: locked")
    );
    app.banners.error = None;
    app.remove_split_session(0, &Err("locked".to_string()));
    assert_eq!(app.banners.error, None);
}

#[test]
fn workers_report_to_their_session() {
    let mut app = busy_app();
    app.subscribe_sessions[0].control.running = true;
    app.worker_finished(SessionKind::Subscribe, 4, &Ok(()));
    assert_eq!(app.subscribe_sessions[0].control.status, "Stopped.");
    assert!(!app.subscribe_sessions[0].control.running);
    assert_eq!(app.banners.error, None);
    app.worker_finished(SessionKind::AsioPublish, 3, &Err("0x8889000A".to_string()));
    let text =
        "That device is already in use by another app. Close other audio apps and try again.";
    assert_eq!(app.asio_publish_sessions[0].control.status, format!("Error: {text}"));
    assert_eq!(app.banners.error.as_deref(), Some(text));
    app.worker_finished(SessionKind::Publish, 99, &Err("late".to_string()));
    assert_eq!(app.publish_sessions[0].control.status, "Not started.");
    assert_eq!(app.banners.error.as_deref(), Some("late"));
}

#[test]
fn workers_that_cannot_start_are_reported() {
    let mut app = busy_app();
    let cases = [
        (SessionKind::Publish, 1, "Could not start the WASAPI publisher thread: full"),
        (SessionKind::Combine, 2, "Could not start the combined publisher thread: full"),
        (SessionKind::AsioPublish, 3, "Could not start ASIO publisher thread: full"),
        (SessionKind::Subscribe, 4, "Could not start playback thread: full"),
        (SessionKind::Split, 5, "Could not start split playback thread: full"),
    ];
    for (kind, id, message) in cases {
        app.worker_failed(kind, id, "full");
        assert_eq!(app.banners.error.as_deref(), Some(message));
    }
    assert_eq!(
        app.split_subscribe_sessions[0].control.status,
        "Could not start split playback thread: full"
    );
    assert!(!app.split_subscribe_sessions[0].control.running);
}

#[test]
fn asio_driver_is_free_once_released() {
    let mut app = busy_app();
    let started = app.asio_publish_sessions[0].start(NOW, &mut app.asio_locks, &mut app.banners);
    let driver = started.unwrap().driver_name;
    app.asio_publish_sessions[0].control.stop(NOW);
    assert!(app.asio_publish_sessions[0]
        .start(NOW, &mut app.asio_locks, &mut app.banners)
        .is_none());
    app.asio_publish_finished(3, &driver, &Err("late".to_string()));
    assert_eq!(app.asio_publish_sessions[0].control.status, "Error: late");
    assert_eq!(app.banners.error.as_deref(), Some("late"));
    assert!(app.asio_publish_sessions[0]
        .start(NOW, &mut app.asio_locks, &mut app.banners)
        .is_some());
    app.asio_publish_failed(3, &driver, "full");
    let message = "Could not start ASIO publisher thread: full";
    assert_eq!(app.asio_publish_sessions[0].control.status, message);
    assert!(!app.asio_publish_sessions[0].control.running);
    assert_eq!(app.banners.error.as_deref(), Some(message));
    assert!(app.asio_publish_sessions[0]
        .start(NOW, &mut app.asio_locks, &mut app.banners)
        .is_some());
    assert_eq!(app.banners.error, None);
    app.remove_asio_publish_session(0);
    assert_eq!(app.asio_publish_sessions.len(), 1);
    app.asio_publish_sessions[0].control.stop(NOW);
    app.remove_asio_publish_session(0);
    app.asio_publish_finished(3, &driver, &Ok(()));
    assert!(reserve_asio_device(&mut app.asio_locks, &driver).is_ok());
}

#[test]
fn closing_stops_all_workers() {
    let mut app = busy_app();
    app.diagnostic_panel.add_session(NOW);
    app.diagnostic_panel.sessions[0].control.running = true;
    app.publish_sessions[0].control.running = true;
    app.split_subscribe_sessions[0].control.running = true;
    app.browser.running = true;
    app.halt();
    assert_eq!(app.active_audio_session_count(), 0);
    assert!(!app.browser.running);
    assert!(!app.diagnostic_panel.wants_repaint());
}

#[test]
fn devices_are_refreshed_one_at_a_time() {
    let mut app = app();
    assert!(app.refresh_devices());
    assert!(!app.refresh_devices());
    app.refresh_failed("no thread");
    assert_eq!(
        app.banners.error.as_deref(),
        Some("Could not start the device refresh worker: no thread")
    );
    assert!(app.refresh_devices());
    let mic =
        DeviceInfo { name: "Mic".to_string(), max_input_channels: 1, max_output_channels: 0 };
    app.apply_pending_device_refresh(Err("too soon".to_string()));
    assert!(app.refreshing_devices);
    assert_eq!(app.asio_drivers.len(), 1);
    assert_eq!(app.banners.info, None);
    app.devices_listed(vec![mic], Vec::new());
    assert!(!app.refreshing_devices);
    assert_eq!(app.input_devices.len(), 0);
    assert!(app.refresh_devices());
    app.apply_pending_device_refresh(Err("no host".to_string()));
    assert!(app.refreshing_devices);
    assert!(app.pending_device_refresh.is_none());
    assert_eq!(app.input_devices[0].name, "Mic");
    assert_eq!(app.asio_drivers.len(), 0);
    assert_eq!(app.asio_drivers_error.as_deref(), Some("no host"));
    assert_eq!(
        app.banners.info.as_deref(),
        Some("Audio devices and ASIO drivers refreshed.")
    );
}

#[test]
fn blank_preset_is_supported() {
    let blank = PresetFile::default();
    assert_eq!(blank.format, "OpenAudio preset");
    assert_eq!(blank.version, 1);
    assert_eq!(blank.browser.access_mode, "password_protected");
    let mut app = busy_app();
    assert_eq!(app.apply_preset(blank, NOW), Ok(()));
    assert_eq!(app.ui_summary(0).configured_publishers, 0);
    assert_eq!(app.next_id, 6);
}

#[test]
fn saved_sessions_come_back() {
    let saved = busy_app();
    let mut app = app();
    app.next_id = 40;
    app.add_publish_session(NOW);
    app.load_preset("/tmp/a.json", Ok(saved.to_preset()), NOW + 7);
    assert_eq!(app.banners.info.as_deref(), Some("Preset loaded from /tmp/a.json."));
    assert_eq!(app.publish_sessions.len(), 1);
    assert_eq!(app.publish_sessions[0].id, 41);
    assert_eq!(app.publish_sessions[0].config.node_name, "Booth");
    assert_eq!(app.publish_sessions[0].config.stream_id, 3001);
    assert_eq!(app.publish_sessions[0].control.status, "Not started.");
    assert_eq!(app.combine_publish_sessions[0].id, 42);
    assert_eq!(app.combine_publish_sessions[0].config.channel_sources.len(), 3);
    assert_eq!(app.combine_publish_sessions[0].config.session_tag, "combine2");
    assert_eq!(app.asio_publish_sessions[0].id, 43);
    assert_eq!(app.asio_publish_sessions[0].config.driver_channel_count, 32);
    assert_eq!(app.asio_publish_sessions[0].config.preset.channel_indices.len(), 32);
    assert_eq!(app.subscribe_sessions[0].id, 44);
    assert_eq!(f32::from_bits(app.subscribe_sessions[0].config.volume.bits), 0.75);
    assert_eq!(app.split_subscribe_sessions[0].id, 45);
    assert_eq!(
        app.split_subscribe_sessions[0].config.channel_devices,
        vec![None, Some("B".to_string())]
    );
    assert_eq!(app.browser.access_mode, BrowserAccessMode::OpenLan);
    assert_eq!(app.browser.password, "secret words");
    assert_eq!(app.next_id, 46);
}

#[test]
fn loaded_volumes_are_limited() {
    let mut saved = busy_app();
    saved.subscribe_sessions[0].config.volume = Volume { bits: 9.0f32.to_bits() };
    let mut app = app();
    assert_eq!(app.apply_preset(saved.to_preset(), NOW), Ok(()));
    assert_eq!(f32::from_bits(app.subscribe_sessions[0].config.volume.bits), 2.0);
}

#[test]
fn loaded_driver_that_is_missing_has_no_channels() {
    let saved = busy_app();
    let mut app = OpenAudioApp::new(NOW, Vec::new(), Vec::new(), Ok(Vec::new()));
    assert_eq!(app.apply_preset(saved.to_preset(), NOW), Ok(()));
    assert_eq!(app.asio_publish_sessions[0].config.driver_channel_count, 0);
    assert_eq!(
        app.asio_publish_sessions[0].config.preset.selected_driver.as_deref(),
        Some("Console")
    );
}

#[test]
fn unsupported_preset_is_refused() {
    for (format, version) in [("Other", 1), ("OpenAudio preset", 2)] {
        let mut preset = PresetFile::default();
        preset.format = format.to_string();
        preset.version = version;
        let mut app = busy_app();
        app.publish_sessions[0].control.running = true;
        app.load_preset("p", Ok(preset), NOW);
        assert_eq!(
            app.banners.error.as_deref(),
            Some("Could not load preset: unsupported OpenAudio preset format or version")
        );
        assert_eq!(app.publish_sessions.len(), 1);
        assert_eq!(app.banners.info, None);
    }
}

#[test]
fn running_session_blocks_a_preset() {
    let mut app = busy_app();
    app.split_subscribe_sessions[0].control.running = true;
    assert_eq!(
        app.apply_preset(PresetFile::default(), NOW),
        Err("stop all active audio sessions before loading a preset".to_string())
    );
    assert_eq!(app.publish_sessions.len(), 1);
}

#[test]
fn preset_files_are_reported() {
    let mut app = app();
    app.save_preset("/tmp/x.json", &Ok(()));
    assert_eq!(app.banners.info.as_deref(), Some("Preset saved to /tmp/x.json."));
    app.save_preset("/tmp/x.json", &Err("disk full".to_string()));
    assert_eq!(app.banners.error.as_deref(), Some("Could not save preset: disk full"));
    app.load_preset("/tmp/x.json", Err("no such file".to_string()), NOW);
    assert_eq!(app.banners.error.as_deref(), Some("Could not load preset: no such file"));
}
