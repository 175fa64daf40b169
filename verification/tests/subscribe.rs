//! Playback sessions.

use openaudio::control::Banners;
use openaudio::devices::DiscoveredStream;
use openaudio::level::Volume;
use openaudio::publish::new_combine_session;
use openaudio::subscribe::{
    new_split_session, new_subscribe_session, parse_port, parse_usable_port, port_text,
    RenewalStep, SubscriptionRenewal,
};

const NOW: u64 = 5_000_000_000;

fn stream(channels: usize) -> DiscoveredStream {
    DiscoveredStream {
        node_id: "node-1".to_string(),
        node_name: "Stage".to_string(),
        stream_name: "Drums".to_string(),
        stream_id: 3007,
        channel_count: channels,
        channel_labels: Vec::new(),
        ip: "10.0.0.5".to_string(),
        control_port: 7002,
    }
}

#[test]
fn ports_are_checked() {
    assert_eq!(parse_port("0"), Some(0));
    assert_eq!(parse_usable_port("0"), None);
    assert_eq!(parse_usable_port("65535"), Some(65_535));
    assert_eq!(parse_usable_port("65536"), None);
    assert_eq!(parse_usable_port("abc"), None);
    assert_eq!(port_text(6980, 3), "6983");
    assert_eq!(port_text(6980, 60_000), "65535");
    assert_eq!(port_text(6990, u64::MAX), "65535");
}

#[test]
fn new_playback_session_needs_only_a_stream() {
    let streams = vec![stream(2)];
    let mut session = new_subscribe_session(3, NOW);
    assert_eq!(session.config.bind_port, "6983");
    assert_eq!(session.start_hint(&streams), Some("Select a discovered stream"));
    session.config.selected_discovered_node_id = Some("node-1".to_string());
    assert_eq!(session.start_hint(&streams), None);
    assert!(session.start_enabled(NOW, &streams));
    session.config.bind_port = "0".to_string();
    assert_eq!(session.start_hint(&streams), Some("Enter a valid UDP port"));
    assert_eq!(session.start_hint(&Vec::new()), Some("Select a discovered stream"));
}

#[test]
fn playback_starts_once_the_publisher_was_asked() {
    let streams = vec![stream(2)];
    let mut banners = Banners { error: Some("old".to_string()), info: None };
    let mut session = new_subscribe_session(3, NOW);
    session.config.selected_discovered_node_id = Some("node-1".to_string());
    session.config.selected_output = Some("Speakers".to_string());
    session.config.volume = Volume { bits: 0.5f32.to_bits() };
    session.config.record = true;
    let request = session.start_request(NOW, &streams, &mut banners).unwrap();
    assert_eq!(request.ip, "10.0.0.5");
    assert_eq!(request.control_port, 7002);
    assert_eq!(request.stream_id, 3007);
    assert_eq!(request.port, 6983);
    assert_eq!(banners.error, None);
    assert!(!session.control.running);
    let plan = session.publisher_answered(&request, &Ok(()), &mut banners).unwrap();
    assert_eq!(plan.bind_addr, "0.0.0.0:6983");
    assert_eq!(plan.device_name.as_deref(), Some("Speakers"));
    assert_eq!(f32::from_bits(plan.volume.bits), 0.5);
    assert_eq!(plan.record_prefix.as_deref(), Some("subscribe_6983"));
    assert_eq!(plan.thread_name, "wasapi-subscribe-6983");
    assert_eq!(session.control.status, "Receiving 'Drums' from 'Stage'...");
    assert!(session.control.running);
}

#[test]
fn refused_playback_request_is_explained() {
    let streams = vec![stream(2)];
    let mut banners = Banners::new();
    let mut session = new_subscribe_session(3, NOW);
    session.config.selected_discovered_node_id = Some("node-1".to_string());
    let request = session.start_request(NOW, &streams, &mut banners).unwrap();
    let refused = Err("Address already in use".to_string());
    assert!(session.publisher_answered(&request, &refused, &mut banners).is_none());
    assert!(!session.control.running);
    assert_eq!(session.control.status, "Not started.");
    assert!(banners.error.unwrap().starts_with("The requested network port"));
}

#[test]
fn playback_request_without_stream_or_port_is_reported() {
    let mut banners = Banners::new();
    let mut session = new_subscribe_session(3, NOW);
    assert!(session.start_request(NOW, &vec![stream(2)], &mut banners).is_none());
    assert_eq!(
        banners.error.as_deref(),
        Some("Select a discovered stream and enter a valid UDP port.")
    );
    assert_eq!(session.control.last_toggle, NOW);
}

#[test]
fn split_session_takes_one_device_per_channel() {
    let streams = vec![stream(3)];
    let mut session = new_split_session(2, NOW);
    assert_eq!(session.config.session_tag, "split2");
    assert_eq!(session.config.bind_port, "6992");
    assert_eq!(session.start_hint(&streams), Some("Select a discovered stream"));
    session.select_stream(&streams[0]);
    assert_eq!(session.config.channel_devices, vec![None, None, None]);
    assert_eq!(session.start_hint(&streams), None);
    assert_eq!(
        session.start_hint(&vec![stream(2)]),
        Some("Channel routing does not match the stream")
    );
    session.config.bind_port = "port".to_string();
    assert_eq!(session.start_hint(&streams), Some("Enter a valid UDP port"));
}

#[test]
fn endpoint_tags_do_not_collide() {
    let tags = [
        new_split_session(1, NOW).config.session_tag,
        new_split_session(11, NOW).config.session_tag,
        new_combine_session(1, NOW).config.session_tag,
        new_combine_session(11, NOW).config.session_tag,
    ];
    assert_eq!(tags, ["split1", "split11", "combine1", "combine11"]);
}

#[test]
fn split_session_without_channels_cannot_start() {
    let streams = vec![stream(0)];
    let mut session = new_split_session(2, NOW);
    session.select_stream(&streams[0]);
    assert_eq!(
        session.start_hint(&streams),
        Some("Channel routing does not match the stream")
    );
}

#[test]
fn split_endpoints_replace_devices_until_cleared() {
    let mut banners = Banners::new();
    let mut session = new_split_session(2, NOW);
    session.select_stream(&stream(2));
    session.endpoints_created(
        Ok(vec!["A".to_string(), "B".to_string(), "C".to_string()]),
        &mut banners,
    );
    assert_eq!(
        session.config.channel_devices,
        vec![Some("A".to_string()), Some("B".to_string())]
    );
    assert_eq!(
        banners.info.as_deref(),
        Some(
            "SAR playback endpoints created. Restart your DAW's ASIO connection, configure the \
             new playback endpoints, then refresh devices."
        )
    );
    session.clear_devices();
    assert_eq!(session.config.channel_devices, vec![None, None]);
    session.endpoints_created(Err("odd".to_string()), &mut banners);
    assert_eq!(banners.error.as_deref(), Some("odd"));
}

#[test]
fn split_session_starts_with_its_devices() {
    let streams = vec![stream(2)];
    let mut banners = Banners::new();
    let mut session = new_split_session(1, NOW);
    session.select_stream(&streams[0]);
    session.config.channel_devices[1] = Some("Out".to_string());
    session.config.record = true;
    let request = session.start_request(NOW, &streams, &mut banners).unwrap();
    let plan = session.publisher_answered(&request, &Ok(()), &mut banners).unwrap();
    assert_eq!(plan.bind_addr, "0.0.0.0:6991");
    assert_eq!(plan.device_targets, vec![None, Some("Out".to_string())]);
    assert!(plan.record_each);
    assert_eq!(plan.thread_name, "split-subscribe-6991");
    assert_eq!(session.control.status, "Receiving 'Drums' and routing 2 channel(s)...");

    let mut lost = new_split_session(1, NOW);
    assert!(lost.start_request(NOW, &streams, &mut banners).is_none());
    assert_eq!(banners.error.as_deref(), Some("Select a stream and enter a valid UDP port."));
}

#[test]
fn subscriptions_are_renewed_after_ten_waits() {
    let mut renewal = SubscriptionRenewal::new();
    for _ in 0..3 {
        assert_eq!(renewal.next(true), RenewalStep::Send);
        for _ in 0..10 {
            assert_eq!(renewal.next(true), RenewalStep::Wait);
        }
    }
    assert_eq!(renewal.next(false), RenewalStep::Stop);
}

#[test]
fn a_running_split_session_keeps_its_configuration() {
    let mut banners = Banners::new();
    let mut session = new_split_session(2, NOW);
    session.select_stream(&stream(2));
    session.config.channel_devices[0] = Some("Out".to_string());
    session.control.running = true;
    session.select_stream(&stream(3));
    session.clear_devices();
    session.endpoints_created(Ok(vec!["A".to_string()]), &mut banners);
    session.endpoints_created(Err("odd".to_string()), &mut banners);
    session.reconfigure(new_split_session(9, NOW).config);
    assert_eq!(session.config.channel_devices, vec![Some("Out".to_string()), None]);
    assert_eq!(session.config.session_tag, "split2");
    assert_eq!(banners.info, None);
    assert_eq!(banners.error, None);
}

#[test]
fn the_volume_changes_while_a_session_runs() {
    let mut session = new_subscribe_session(1, NOW);
    session.control.running = true;
    session.set_volume(Volume { bits: 0.25f32.to_bits() });
    assert_eq!(f32::from_bits(session.config.volume.bits), 0.25);
    assert_eq!(session.config.bind_port, "6981");
}
