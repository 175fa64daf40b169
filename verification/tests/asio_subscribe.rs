//! Sessions on the outputs of ASIO drivers.

use openaudio::asio_locks::{release_asio_device, reserve_asio_device, AsioDeviceLocks};
use openaudio::asio_subscribe::{
    default_routes, new_asio_subscribe_session, AsioSubscribePanel, OutputPair,
};
use openaudio::control::Banners;
use openaudio::devices::{AsioDriverInfo, DiscoveredStream};
use openaudio::theme::Tone;

const NOW: u64 = 5_000_000_000;

fn stream(node_id: &str, channels: usize) -> DiscoveredStream {
    DiscoveredStream {
        node_id: node_id.to_string(),
        node_name: "Stage".to_string(),
        stream_name: "Drums".to_string(),
        stream_id: 3007,
        channel_count: channels,
        channel_labels: vec!["Kick".to_string()],
        ip: "10.0.0.5".to_string(),
        control_port: 7002,
    }
}

fn driver(name: &str, outputs: usize) -> AsioDriverInfo {
    AsioDriverInfo {
        name: name.to_string(),
        max_input_channels: 2,
        max_output_channels: outputs,
        default_sample_rate: None,
    }
}

#[test]
fn default_routes_are_sequential() {
    assert_eq!(default_routes(3, 2), vec![Some(0), Some(1), None]);
    assert_eq!(default_routes(2, 8), vec![Some(0), Some(1)]);
    assert_eq!(default_routes(0, 8), Vec::new());
    assert_eq!(default_routes(2, 0), vec![None, None]);
}

#[test]
fn validation_names_the_first_thing_that_is_missing() {
    let streams = vec![stream("a", 2), stream("empty", 0)];
    let drivers = vec![driver("Out", 4), driver("Silent", 0)];
    let mut session = new_asio_subscribe_session(1, NOW);
    assert_eq!(session.validate_session(&drivers, &streams), Err("← select a discovered stream"));
    session.config.selected_node_id = Some("gone".to_string());
    assert_eq!(
        session.validate_session(&drivers, &streams),
        Err("← selected stream is no longer available")
    );
    session.config.selected_node_id = Some("empty".to_string());
    assert_eq!(
        session.validate_session(&drivers, &streams),
        Err("← selected stream reports zero channels")
    );
    session.select_stream(&streams[0]);
    assert_eq!(
        session.validate_session(&drivers, &streams),
        Err("← select an ASIO output driver")
    );
    session.config.selected_driver = Some("gone".to_string());
    assert_eq!(
        session.validate_session(&drivers, &streams),
        Err("← selected ASIO driver is no longer available")
    );
    session.config.selected_driver = Some("Silent".to_string());
    assert_eq!(
        session.validate_session(&drivers, &streams),
        Err("← selected ASIO driver has no output channels")
    );
    session.select_driver(&drivers[0]);
    assert_eq!(session.validate_session(&drivers, &streams), Ok(()));
    session.config.output_routes.push(None);
    assert_eq!(
        session.validate_session(&drivers, &streams),
        Err("← routing map does not match the stream channel count")
    );
    session.clear_routes();
    assert_eq!(
        session.validate_session(&drivers, &streams),
        Err("← route at least one incoming channel")
    );
    session.set_route(1, Some(4));
    assert_eq!(
        session.validate_session(&drivers, &streams),
        Err("← one or more routes exceed the driver output count")
    );
    session.set_route(1, Some(3));
    session.config.bind_port = "70000".to_string();
    assert_eq!(session.validate_session(&drivers, &streams), Err("← enter a valid UDP port"));
    session.config.bind_port = "0".to_string();
    assert_eq!(session.validate_session(&drivers, &streams), Ok(()));
    assert!(session.start_enabled(NOW, &drivers, &streams));
}

#[test]
fn picking_stream_and_driver_in_either_order_is_enough() {
    let streams = vec![stream("a", 3)];
    let drivers = vec![driver("Out", 2)];
    let mut first = new_asio_subscribe_session(1, NOW);
    first.select_stream(&streams[0]);
    first.select_driver(&drivers[0]);
    assert_eq!(first.validate_session(&drivers, &streams), Ok(()));
    let mut second = new_asio_subscribe_session(1, NOW);
    second.select_driver(&drivers[0]);
    second.select_stream(&streams[0]);
    assert_eq!(second.validate_session(&drivers, &streams), Ok(()));
    assert_eq!(first.config.output_routes, second.config.output_routes);
}

#[test]
fn picking_the_selected_stream_again_keeps_the_routes() {
    let mut session = new_asio_subscribe_session(1, NOW);
    session.select_driver(&driver("Out", 8));
    session.select_stream(&stream("a", 2));
    session.set_route(0, Some(7));
    session.select_stream(&stream("a", 2));
    assert_eq!(session.route_of(0), Some(7));
    session.select_stream(&stream("b", 2));
    assert_eq!(session.route_of(0), Some(0));
    assert_eq!(session.route_of(9), None);
}

#[test]
fn quick_routes_put_the_first_two_channels_on_a_pair() {
    let mut session = new_asio_subscribe_session(1, NOW);
    session.select_stream(&stream("a", 3));
    session.select_driver(&driver("Out", 4));
    session.route_pair(OutputPair::ThreeFour);
    assert_eq!(session.config.output_routes, vec![Some(2), Some(3), None]);
    session.route_pair(OutputPair::SevenEight);
    assert_eq!(session.config.output_routes, vec![Some(2), Some(3), None]);
    session.route_pair(OutputPair::OneTwo);
    assert_eq!(session.config.output_routes, vec![Some(0), Some(1), None]);
    session.route_in_sequence();
    assert_eq!(session.config.output_routes, vec![Some(0), Some(1), Some(2)]);
    assert!(OutputPair::SevenEight.offered(2, 8));
    assert!(!OutputPair::SevenEight.offered(1, 8));
    assert_eq!(OutputPair::SevenEight.caption(), "Stream 1–2 → Out 7–8");
    session.clear_driver();
    assert_eq!(session.config.output_routes, vec![None, None, None]);
}

#[test]
fn routing_is_summed_up() {
    let mut session = new_asio_subscribe_session(1, NOW);
    session.select_stream(&stream("a", 3));
    assert_eq!(
        session.routing_summary(),
        ("0 of 3 incoming channel(s) routed".to_string(), Tone::Red)
    );
    session.set_route(2, Some(0));
    assert_eq!(
        session.routing_summary(),
        ("1 of 3 incoming channel(s) routed".to_string(), Tone::Green)
    );
    assert_eq!(session.session_channel_label(0), "Kick");
    assert_eq!(session.session_channel_label(1), "Channel 2");
}

#[test]
fn start_reports_the_first_thing_that_is_missing() {
    let streams = vec![stream("a", 2)];
    let mut locks = AsioDeviceLocks::new();
    let mut banners = Banners::new();
    let mut session = new_asio_subscribe_session(1, NOW);
    assert!(session.start_session(NOW, &streams, &mut locks, &mut banners).is_none());
    assert_eq!(banners.error.as_deref(), Some("Select a discovered stream first."));
    session.config.selected_node_id = Some("gone".to_string());
    assert!(session.start_session(NOW, &streams, &mut locks, &mut banners).is_none());
    assert_eq!(banners.error.as_deref(), Some("The selected stream is no longer available."));
    session.select_stream(&streams[0]);
    assert!(session.start_session(NOW, &streams, &mut locks, &mut banners).is_none());
    assert_eq!(banners.error.as_deref(), Some("Select an ASIO output driver first."));
    session.select_driver(&driver("Out", 2));
    session.config.bind_port = "0".to_string();
    assert!(session.start_session(NOW, &streams, &mut locks, &mut banners).is_none());
    assert_eq!(banners.error.as_deref(), Some("'0' is not a valid UDP port."));
    session.config.bind_port = "7051".to_string();
    session.config.output_routes.push(None);
    assert!(session.start_session(NOW, &streams, &mut locks, &mut banners).is_none());
    assert_eq!(
        banners.error.as_deref(),
        Some("The routing map no longer matches the selected stream.")
    );
    session.clear_routes();
    assert!(session.start_session(NOW, &streams, &mut locks, &mut banners).is_none());
    assert_eq!(
        banners.error.as_deref(),
        Some("Route at least one incoming channel before starting.")
    );
    session.route_in_sequence();
    assert!(reserve_asio_device(&mut locks, "Out").is_ok());
    assert!(session.start_session(NOW, &streams, &mut locks, &mut banners).is_none());
    assert!(banners.error.as_deref().unwrap().starts_with("ASIO driver 'Out' is already in use"));
    release_asio_device(&mut locks, "Out");
    assert!(session.start_session(NOW, &streams, &mut locks, &mut banners).is_some());
    assert_eq!(banners.error, None);
    assert!(reserve_asio_device(&mut locks, "Out").is_err());
}

#[test]
fn asio_playback_runs_from_request_to_end() {
    let streams = vec![stream("a", 2)];
    let mut locks = AsioDeviceLocks::new();
    let mut banners = Banners::new();
    let mut panel = AsioSubscribePanel::default();
    panel.add_session(NOW);
    panel.add_session(NOW);
    assert_eq!(panel.sessions[0].id, 1);
    assert_eq!(panel.sessions[1].id, 2);
    assert_eq!(panel.sessions[0].config.bind_port, "7051");
    let session = &mut panel.sessions[0];
    session.select_stream(&streams[0]);
    session.select_driver(&driver("Out", 2));
    session.config.record = true;
    let pending = session.start_session(NOW, &streams, &mut locks, &mut banners).unwrap();
    assert_eq!(pending.driver_name, "Out");
    assert_eq!(pending.request.port, 7051);
    let plan = session.publisher_answered(&pending, &Ok(()), &mut locks, &mut banners).unwrap();
    assert_eq!(plan.bind_addr, "0.0.0.0:7051");
    assert_eq!(plan.output_routes, vec![Some(0), Some(1)]);
    assert_eq!(plan.record_prefix.as_deref(), Some("asio_subscribe_3007_7051"));
    assert_eq!(session.control.status, "Starting 'Drums' → 'Out'...");
    assert!(session.control.running);

    let failure = Err("device lost".to_string());
    panel.worker_finished(1, &plan.origin, &failure, &mut locks, &mut banners);
    assert!(!panel.sessions[0].control.running);
    assert_eq!(panel.sessions[0].control.status, "Error: device lost");
    assert_eq!(panel.sessions[1].control.status, "Not started.");
    assert_eq!(
        banners.error.as_deref(),
        Some("ASIO Subscribe failed for 'Drums' on 'Stage' → 'Out': device lost")
    );
    assert!(reserve_asio_device(&mut locks, "Out").is_ok());

    panel.remove_session(0);
    panel.remove_session(5);
    assert_eq!(panel.sessions.len(), 1);
    panel.worker_finished(1, &plan.origin, &Ok(()), &mut locks, &mut banners);
    assert_eq!(panel.sessions[0].control.status, "Not started.");
    panel.worker_finished(2, &plan.origin, &Ok(()), &mut locks, &mut banners);
    assert_eq!(panel.sessions[0].control.status, "Stopped.");
}

#[test]
fn refused_asio_request_gives_the_driver_back() {
    let streams = vec![stream("a", 2)];
    let mut locks = AsioDeviceLocks::new();
    let mut banners = Banners::new();
    let mut session = new_asio_subscribe_session(1, NOW);
    session.select_stream(&streams[0]);
    session.select_driver(&driver("Out", 2));
    let pending = session.start_session(NOW, &streams, &mut locks, &mut banners).unwrap();
    let refused = Err("no route to host".to_string());
    assert!(session.publisher_answered(&pending, &refused, &mut locks, &mut banners).is_none());
    assert_eq!(
        banners.error.as_deref(),
        Some("Failed to subscribe to the publisher: no route to host")
    );
    assert!(!session.control.running);
    assert!(reserve_asio_device(&mut locks, "Out").is_ok());
}

#[test]
fn a_running_asio_session_stays_as_it_is() {
    let mut panel = AsioSubscribePanel::new();
    panel.add_session(NOW);
    panel.add_session(NOW);
    let session = &mut panel.sessions[0];
    session.select_stream(&stream("a", 2));
    session.select_driver(&driver("Out", 4));
    session.set_bind_port("7100".to_string());
    session.set_record(true);
    assert_eq!(session.config.bind_port, "7100");
    assert!(session.config.record);
    session.control.running = true;
    session.select_stream(&stream("b", 3));
    session.select_driver(&driver("Other", 8));
    session.clear_driver();
    session.set_bind_port("1".to_string());
    session.set_record(false);
    session.clear_routes();
    session.route_pair(OutputPair::ThreeFour);
    session.set_route(0, Some(3));
    session.config.output_routes = vec![Some(1), None];
    session.route_in_sequence();
    assert_eq!(session.config.selected_node_id.as_deref(), Some("a"));
    assert_eq!(session.config.selected_driver.as_deref(), Some("Out"));
    assert_eq!(session.config.incoming_channel_count, 2);
    assert_eq!(session.config.driver_output_count, 4);
    assert_eq!(session.config.bind_port, "7100");
    assert!(session.config.record);
    assert_eq!(session.config.output_routes, vec![Some(1), None]);
    panel.remove_session(0);
    assert_eq!(panel.sessions.len(), 2);
    panel.remove_session(1);
    assert_eq!(panel.sessions.len(), 1);
    assert_eq!(panel.sessions[0].id, 1);
    panel.sessions[0].control.stop(NOW);
    panel.remove_session(0);
    assert!(panel.sessions.is_empty());
    assert_eq!(panel.next_id, 3);
}
