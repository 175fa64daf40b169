//! The command-line receiver.

use openaudio::devices::DiscoveredStream;
use openaudio::receiver::{
    listing_line, next_value, parse_options, record_announcement, Invocation, JitterBuffer,
    Options, PlaybackAction, ReceiveEvent, ReceiveStats,
};

fn args(list: &[&str]) -> Vec<String> {
    list.iter().map(|text| text.to_string()).collect()
}

fn options(list: &[&str]) -> Options {
    match parse_options(&args(list)) {
        Ok(Invocation::Run(options)) => options,
        _ => panic!("not accepted"),
    }
}

fn refusal(list: &[&str]) -> String {
    match parse_options(&args(list)) {
        Err(message) => message,
        Ok(_) => panic!("accepted"),
    }
}

fn stream(node_id: &str, stream_name: &str) -> DiscoveredStream {
    DiscoveredStream {
        node_id: node_id.to_string(),
        node_name: "Stage".to_string(),
        stream_name: stream_name.to_string(),
        stream_id: 3007,
        channel_count: 2,
        channel_labels: args(&["L", "R"]),
        ip: "10.0.0.5".to_string(),
        control_port: 7002,
    }
}

#[test]
fn defaults_hold_without_arguments() {
    let options = options(&[]);
    assert!(!options.list);
    assert!(!options.inspect);
    assert_eq!(options.publisher, None);
    assert_eq!(options.stream_id, None);
    assert_eq!(options.receive_port, 7050);
    assert_eq!(options.seconds, 10);
}

#[test]
fn arguments_are_read_in_any_order() {
    let options = options(&[
        "--seconds", "5", "--inspect", "--stream-id", "3007", "--publisher", "10.0.0.5", "--port",
        "9000", "--list", "--stream-id", "42",
    ]);
    assert!(options.list);
    assert!(options.inspect);
    assert_eq!(options.publisher.as_deref(), Some("10.0.0.5"));
    assert_eq!(options.stream_id, Some(42));
    assert_eq!(options.receive_port, 9000);
    assert_eq!(options.seconds, 5);
}

#[test]
fn wrong_arguments_are_explained() {
    assert_eq!(refusal(&["--publisher"]), "--publisher requires a value");
    assert_eq!(refusal(&["--stream-id"]), "--stream-id requires a value");
    assert_eq!(refusal(&["--stream-id", "x"]), "--stream-id must be an integer");
    assert_eq!(refusal(&["--stream-id", "4294967296"]), "--stream-id must be an integer");
    assert_eq!(refusal(&["--port", "65536"]), "--port must be a valid UDP port");
    assert_eq!(refusal(&["--seconds", "-1"]), "--seconds must be an integer");
    assert_eq!(refusal(&["--wat"]), "unknown argument '--wat'; use --help");
    assert_eq!(refusal(&["--list", ""]), "unknown argument ''; use --help");
    assert_eq!(next_value(&args(&["a"]), 1, "--port"), Err("--port requires a value".to_string()));
    assert_eq!(next_value(&args(&["a", "b"]), 1, "--port"), Ok("b".to_string()));
}

#[test]
fn help_ends_the_arguments() {
    for list in [["--help", "--wat"], ["-h", "--port"]] {
        assert!(matches!(parse_options(&args(&list)), Ok(Invocation::Help)));
    }
    assert_eq!(refusal(&["--port", "x", "--help"]), "--port must be a valid UDP port");
    assert_eq!(options(&["--publisher", "--help"]).publisher.as_deref(), Some("--help"));
}

#[test]
fn plans_follow_the_options() {
    let plan = options(&[]).plan();
    assert!(plan.list);
    assert!(matches!(plan.subscription, Ok(None)));
    let plan = options(&["--stream-id", "1"]).plan();
    assert!(!plan.list);
    assert!(matches!(plan.subscription, Err(message)
        if message == "--publisher IP is required when subscribing"));
    let plan = options(&["--list", "--publisher", "h"]).plan();
    assert!(plan.list);
    assert!(matches!(plan.subscription, Err(message)
        if message == "--stream-id is required when subscribing"));
    let plan = options(&["--publisher", "h", "--stream-id", "9", "--inspect"]).plan();
    assert!(!plan.list);
    let subscription = match plan.subscription {
        Ok(Some(subscription)) => subscription,
        _ => panic!("no subscription"),
    };
    assert_eq!(subscription.publisher, "h");
    assert_eq!(subscription.stream_id, 9);
    assert!(subscription.inspect);
    assert_eq!(
        subscription.opening_line(),
        "Subscribed to h, stream 9; listening on UDP port 7050 for 10s."
    );
}

#[test]
fn announcements_replace_earlier_ones_of_their_node() {
    let mut streams = Vec::new();
    record_announcement(&mut streams, stream("a", "one"));
    record_announcement(&mut streams, stream("b", "two"));
    record_announcement(&mut streams, stream("a", "three"));
    assert_eq!(streams.len(), 2);
    assert_eq!(streams[0].stream_name, "three");
    assert_eq!(streams[1].stream_name, "two");
    let labels = format!("{:?}", streams[0].channel_labels);
    assert_eq!(
        listing_line(&streams[0], &labels),
        "Stage / three — 2ch @ labels [\"L\", \"R\"] — 10.0.0.5:7002 — stream 3007"
    );
}

#[test]
fn packets_and_losses_are_counted() {
    let events = [
        ReceiveEvent::FormatChanged { channels: 2, sample_rate: 48_000 },
        ReceiveEvent::Packet,
        ReceiveEvent::Packet,
        ReceiveEvent::Dropped(1),
        ReceiveEvent::Packet,
        ReceiveEvent::Disconnected,
        ReceiveEvent::Reconnected,
        ReceiveEvent::Packet,
    ];
    let mut stats = ReceiveStats::new();
    for event in events {
        assert_eq!(stats.handle(event, "127.0.0.1"), None);
    }
    assert_eq!(stats.packets, 4, "Should have received exactly 4 packets");
    assert_eq!(stats.dropped, 1, "Should have detected exactly 1 dropped packet (seq 2)");
    assert_eq!(
        stats.finished_line(),
        "Finished: packets=4, dropped=1, format=Some((2, 48000))"
    );
}

#[test]
fn progress_is_shown_with_every_hundredth_packet() {
    let mut stats = ReceiveStats::new();
    stats.handle(ReceiveEvent::Dropped(3), "h");
    for packet in 1..=250u64 {
        let line = stats.handle(ReceiveEvent::Packet, "h");
        if packet % 100 == 0 {
            assert_eq!(
                line,
                Some(format!("source=h packets={packet} dropped=3 format=None"))
            );
        } else {
            assert_eq!(line, None);
        }
    }
    assert_eq!(stats.finished_line(), "Finished: packets=250, dropped=3, format=None");
}

#[test]
fn formats_are_shown_like_debug_output() {
    let mut stats = ReceiveStats::new();
    let none: Option<(u16, u32)> = None;
    assert!(stats.finished_line().ends_with(&format!("format={none:?}")));
    stats.handle(ReceiveEvent::FormatChanged { channels: 6, sample_rate: 44_100 }, "h");
    let some = Some((6u16, 44_100u32));
    assert!(stats.finished_line().ends_with(&format!("format={some:?}")));
}

#[test]
fn playback_follows_the_events() {
    let mut stats = ReceiveStats::new();
    assert_eq!(
        stats.playback_action(ReceiveEvent::Packet, 48_000),
        PlaybackAction::Nothing
    );
    let change = ReceiveEvent::FormatChanged { channels: 2, sample_rate: 44_100 };
    stats.handle(change, "h");
    assert_eq!(stats.playback_action(change, 48_000), PlaybackAction::OpenOutput);
    assert_eq!(
        stats.playback_action(ReceiveEvent::Packet, 48_000),
        PlaybackAction::Buffer { channels: 2, resample_from: Some(44_100) }
    );
    assert_eq!(
        stats.playback_action(ReceiveEvent::Packet, 44_100),
        PlaybackAction::Buffer { channels: 2, resample_from: None }
    );
    assert_eq!(
        stats.playback_action(ReceiveEvent::Disconnected, 48_000),
        PlaybackAction::CloseOutput
    );
    assert_eq!(stats.playback_action(ReceiveEvent::Dropped(1), 1), PlaybackAction::Nothing);
    assert_eq!(stats.playback_action(ReceiveEvent::Reconnected, 1), PlaybackAction::Nothing);
}

#[test]
fn buffer_keeps_the_newest_fifth_of_a_second() {
    for rate in [0u32, 4, 5, 44_100, 48_000, 96_000, 4_294_967_295, 4_294_967_290] {
        assert_eq!((rate as f64 * 0.2) as usize, (rate / 5) as usize, "{rate}");
    }
    let mut buffer = JitterBuffer::new();
    assert_eq!(buffer.next_sample(), 0);
    buffer.extend(&vec![1, 2, 3, 4, 5], 10, 2);
    buffer.extend(&vec![6], 10, 2);
    for expected in [3, 4, 5, 6, 0] {
        assert_eq!(buffer.next_sample(), expected);
    }
    buffer.extend(&vec![7, 8], 10, 2);
    buffer.clear();
    assert_eq!(buffer.next_sample(), 0);
    buffer.extend(&vec![9], 4, 2);
    assert_eq!(buffer.next_sample(), 0);
}
