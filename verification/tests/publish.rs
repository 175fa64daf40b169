//! Publishing sessions.

use openaudio::asio_locks::{reserve_asio_device, AsioDeviceLocks};
use openaudio::channels::QuickSelection;
use openaudio::control::Banners;
use openaudio::devices::{AsioDriverInfo, DeviceInfo};
use openaudio::publish::{
    new_asio_publish_session, new_combine_session, new_publish_session, stream_id_for,
};

const NOW: u64 = 5_000_000_000;

fn device(name: &str, inputs: usize, outputs: usize) -> DeviceInfo {
    DeviceInfo {
        name: name.to_string(),
        max_input_channels: inputs,
        max_output_channels: outputs,
    }
}

#[test]
fn stream_numbers_are_counted_from_their_base() {
    assert_eq!(stream_id_for(3000, 7), 3007);
    assert_eq!(stream_id_for(3000, u64::MAX), u32::MAX);
    assert_eq!(stream_id_for(6000, u32::MAX as u64 - 6000), u32::MAX);
    assert_eq!(stream_id_for(6000, u32::MAX as u64 - 6001), u32::MAX - 1);
}

#[test]
fn new_publisher_has_names_and_two_channels() {
    let session = new_publish_session(4, NOW);
    assert_eq!(session.config.node_name, "OpenAudio Node 4");
    assert_eq!(session.config.stream_name, "Stream 4");
    assert_eq!(session.config.stream_id, 3004);
    assert_eq!(session.config.channel_labels, vec!["Channel 1", "Channel 2"]);
    assert_eq!(session.control.status, "Not started.");
    assert!(!session.control.running);
    assert!(session.start_enabled(NOW));
}

#[test]
fn labels_follow_the_channels_of_the_selected_device() {
    let inputs = vec![device("Mic", 4, 0)];
    let outputs = vec![device("Speakers", 0, 6), device("Odd", 0, 0)];
    let mut session = new_publish_session(1, NOW);
    session.sync_labels(&inputs, &outputs);
    assert_eq!(session.config.channel_labels.len(), 2);
    session.config.selected_input = Some("Mic".to_string());
    session.sync_labels(&inputs, &outputs);
    assert_eq!(session.config.channel_labels.len(), 4);
    session.config.is_loopback = true;
    session.config.selected_input = Some("Speakers".to_string());
    session.sync_labels(&inputs, &outputs);
    assert_eq!(session.config.channel_labels.len(), 6);
    session.config.selected_input = Some("Odd".to_string());
    session.sync_labels(&inputs, &outputs);
    assert_eq!(session.config.channel_labels, vec!["Channel 1"]);
}

#[test]
fn publisher_without_names_cannot_start() {
    let mut session = new_publish_session(1, NOW);
    session.config.node_name = "  ".to_string();
    assert_eq!(session.start_hint(), Some("Enter node and stream names"));
    assert!(!session.start_enabled(NOW));
    session.config.node_name = "n".to_string();
    assert_eq!(session.start_hint(), None);
}

#[test]
fn starting_a_publisher_clears_the_error_and_hands_out_a_plan() {
    let mut banners = Banners { error: Some("old".to_string()), info: Some("kept".to_string()) };
    let mut session = new_publish_session(2, NOW);
    session.config.record = true;
    let plan = session.start(NOW, &mut banners);
    assert_eq!(plan.thread_name, "wasapi-publish-3002");
    assert_eq!(plan.record_prefix.as_deref(), Some("publish_3002"));
    assert_eq!(plan.config.stream_name, "Stream 2");
    assert_eq!(session.control.status, "Starting input capture...");
    assert!(session.control.running);
    assert!(!session.start_enabled(NOW + 1_000_000_000));
    assert_eq!(banners.error, None);
    assert_eq!(banners.info.as_deref(), Some("kept"));

    let mut loopback = new_publish_session(3, NOW);
    loopback.config.is_loopback = true;
    let plan = loopback.start(NOW, &mut banners);
    assert_eq!(plan.record_prefix, None);
    assert_eq!(loopback.control.status, "Starting loopback capture...");
}

#[test]
fn buttons_are_ignored_for_four_tenths_of_a_second() {
    let mut banners = Banners::new();
    let mut session = new_publish_session(1, NOW);
    session.start(NOW, &mut banners);
    session.control.stop(NOW + 1);
    assert_eq!(session.control.status, "Stopping...");
    assert!(!session.start_enabled(NOW + 1 + 400_000_000));
    assert!(session.start_enabled(NOW + 2 + 400_000_000));
}

#[test]
fn combined_publisher_follows_its_channel_count() {
    let mut session = new_combine_session(3, NOW);
    assert_eq!(session.config.session_tag, "combine3");
    assert_eq!(session.config.stream_name, "Combined Stream 3");
    assert_eq!(session.config.stream_id, 4003);
    assert_eq!(session.config.channel_sources, vec![(None, false), (None, false)]);
    session.config.channel_sources[0] = (Some("Mic".to_string()), true);
    session.set_channel_count(3);
    assert_eq!(session.config.channel_sources.len(), 3);
    assert_eq!(session.config.channel_sources[0], (Some("Mic".to_string()), true));
    assert_eq!(session.config.channel_sources[2], (None, false));
    assert_eq!(session.config.channel_labels[2], "Channel 3");
    session.set_channel_count(1);
    assert_eq!(session.config.channel_sources.len(), 1);
    assert_eq!(session.config.channel_labels.len(), 1);
    assert!(session.start_enabled(NOW));
    session.config.channel_count = 5;
    assert_eq!(
        session.start_hint(),
        Some("Complete the stream names and channel configuration")
    );
}

#[test]
fn created_endpoints_become_sources() {
    let mut banners = Banners::new();
    let mut session = new_combine_session(1, NOW);
    session.set_channel_count(3);
    session.config.channel_sources[2] = (Some("Mic".to_string()), true);
    session.endpoints_created(Ok(vec!["A".to_string(), "B".to_string()]), &mut banners);
    assert_eq!(session.config.channel_sources[0], (Some("A".to_string()), false));
    assert_eq!(session.config.channel_sources[1], (Some("B".to_string()), false));
    assert_eq!(session.config.channel_sources[2], (Some("Mic".to_string()), true));
    assert_eq!(
        banners.info.as_deref(),
        Some(
            "SAR recording endpoints created. Restart your DAW's ASIO connection, route tracks to \
             the new OpenAudio recording endpoints, then refresh devices."
        )
    );
    session.endpoints_created(Err("ASIO host unavailable".to_string()), &mut banners);
    assert!(banners.error.unwrap().starts_with("ASIO is unavailable."));
}

#[test]
fn combined_publisher_starts_with_all_sources() {
    let mut banners = Banners::new();
    let mut session = new_combine_session(9, NOW);
    session.set_channel_count(4);
    let plan = session.start(NOW, &mut banners);
    assert_eq!(plan.thread_name, "combined-publish-4009");
    assert_eq!(plan.config.channel_sources.len(), 4);
    assert_eq!(session.control.status, "Combining and advertising 4 channel(s)...");
}

fn console() -> AsioDriverInfo {
    AsioDriverInfo {
        name: "Console".to_string(),
        max_input_channels: 3,
        max_output_channels: 2,
        default_sample_rate: Some(48_000),
    }
}

#[test]
fn selecting_a_driver_selects_all_of_its_channels() {
    let mut session = new_asio_publish_session(5, NOW);
    assert_eq!(session.driver_text(), "Select a driver");
    assert_eq!(session.start_hint(), Some("Select an ASIO driver"));
    session.select_driver(&console());
    assert_eq!(session.driver_text(), "Console (3 inputs)");
    assert_eq!(session.config.preset.channel_indices, vec![0, 1, 2]);
    assert_eq!(session.config.preset.channel_labels.len(), 3);
    assert!(session.start_enabled(NOW));
    session.config.preset.channel_indices.clear();
    assert_eq!(session.start_hint(), Some("Select at least one channel"));
    session.clear_driver();
    assert_eq!(session.config.driver_channel_count, 0);
    assert_eq!(session.start_hint(), Some("Select an ASIO driver"));
}

#[test]
fn asio_publisher_reserves_its_driver() {
    let mut banners = Banners::new();
    let mut locks = AsioDeviceLocks::new();
    let mut session = new_asio_publish_session(5, NOW);
    session.select_driver(&console());
    session.config.preset.channel_indices = vec![0, 2];
    session.config.preset.channel_labels[2] = "Vox".to_string();
    let plan = session.start(NOW, &mut locks, &mut banners).unwrap();
    assert_eq!(plan.driver_name, "Console");
    assert_eq!(plan.channel_indices, vec![0, 2]);
    assert_eq!(plan.channel_labels, vec!["Channel 1", "Vox"]);
    assert_eq!(plan.stream_id, 6005);
    assert_eq!(plan.thread_name, "asio-publish-6005");
    assert_eq!(session.control.status, "Streaming 2 channel(s) from 'Console'...");
    assert!(reserve_asio_device(&mut locks, "Console").is_err());

    let mut other = new_asio_publish_session(6, NOW);
    other.select_driver(&console());
    assert!(other.start(NOW, &mut locks, &mut banners).is_none());
    assert_eq!(other.control.status, "ASIO driver busy.");
    assert!(!other.control.running);
    assert!(banners.error.unwrap().starts_with("ASIO driver 'Console' is already in use"));
}

#[test]
fn channels_of_a_driver_are_picked_and_toggled() {
    let mut session = new_asio_publish_session(5, NOW);
    session.select_driver(&console());
    session.pick_channels(QuickSelection::FirstTwo);
    assert_eq!(session.config.preset.channel_indices, vec![0, 1]);
    session.pick_channels(QuickSelection::FirstEight);
    assert_eq!(session.config.preset.channel_indices, vec![0, 1]);
    session.toggle_channel(0);
    assert_eq!(session.config.preset.channel_indices, vec![1]);
    session.toggle_channel(2);
    session.toggle_channel(0);
    assert_eq!(session.config.preset.channel_indices, vec![0, 1, 2]);
    session.pick_channels(QuickSelection::Nothing);
    assert!(session.config.preset.channel_indices.is_empty());
}

#[test]
fn running_publishers_keep_their_configuration() {
    let mut banners = Banners::new();
    let mut session = new_asio_publish_session(5, NOW);
    session.select_driver(&console());
    session.control.running = true;
    session.clear_driver();
    session.pick_channels(QuickSelection::Nothing);
    session.toggle_channel(1);
    let mut other = console();
    other.name = "Other".to_string();
    session.select_driver(&other);
    assert_eq!(session.config.preset.selected_driver.as_deref(), Some("Console"));
    assert_eq!(session.config.preset.channel_indices, vec![0, 1, 2]);
    assert_eq!(session.config.driver_channel_count, 3);

    let mut combined = new_combine_session(1, NOW);
    combined.control.running = true;
    combined.set_channel_count(8);
    combined.endpoints_created(Ok(vec!["A".to_string()]), &mut banners);
    combined.endpoints_created(Err("odd".to_string()), &mut banners);
    assert_eq!(combined.config.channel_count, 2);
    assert_eq!(combined.config.channel_sources, vec![(None, false), (None, false)]);
    assert_eq!(banners.info, None);
    assert_eq!(banners.error, None);

    let mut single = new_publish_session(4, NOW);
    let mut config = single.config.duplicate();
    config.node_name = "Booth".to_string();
    single.reconfigure(config);
    assert_eq!(single.config.node_name, "Booth");
    single.control.running = true;
    single.reconfigure(new_publish_session(7, NOW).config);
    assert_eq!(single.config.node_name, "Booth");
    assert_eq!(single.config.stream_id, 3004);
}
