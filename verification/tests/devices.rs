//! Devices, drivers and discovered streams.

use openaudio::devices::{
    find_device, find_driver, find_stream, listing_order, lookup_driver, lookup_stream,
    order_by_key, snapshot_discovered_streams, AsioDriverInfo, DeviceInfo, DiscoveredStream,
    NameKey,
};

fn stream(node_id: &str, node_name: &str, stream_name: &str) -> DiscoveredStream {
    DiscoveredStream {
        node_id: node_id.to_string(),
        node_name: node_name.to_string(),
        stream_name: stream_name.to_string(),
        stream_id: 3001,
        channel_count: 2,
        channel_labels: vec!["L".to_string(), "R".to_string()],
        ip: "192.168.0.7".to_string(),
        control_port: 7001,
    }
}

fn driver(name: &str, rate: Option<u32>) -> AsioDriverInfo {
    AsioDriverInfo {
        name: name.to_string(),
        max_input_channels: 32,
        max_output_channels: 16,
        default_sample_rate: rate,
    }
}

#[test]
fn streams_are_listed_without_regard_to_case() {
    let entries = vec![
        stream("1", "zeta", "Main"),
        stream("2", "Alpha", "main"),
        stream("3", "ALPHA", "Aux"),
        stream("4", "Éclair", "x"),
        stream("5", "beta", "x"),
        stream("6", "éclair", "W"),
    ];
    let listed = snapshot_discovered_streams(&entries);
    let order: Vec<&str> = listed.iter().map(|s| s.node_id.as_str()).collect();
    assert_eq!(order, vec!["3", "2", "5", "1", "6", "4"]);
}

#[test]
fn listing_agrees_with_a_stable_sort() {
    let names = ["b", "A", "a", "B", "ß", "SS", "ss", "", "İ", "i"];
    let mut entries = Vec::new();
    for (i, node) in names.iter().enumerate() {
        for (j, title) in names.iter().enumerate() {
            entries.push(stream(&format!("{i}-{j}"), node, title));
        }
    }
    let mut expected: Vec<usize> = (0..entries.len()).collect();
    expected.sort_by_key(|&i| {
        (entries[i].node_name.to_lowercase(), entries[i].stream_name.to_lowercase())
    });
    assert_eq!(listing_order(&entries), expected);
    let listed = snapshot_discovered_streams(&entries);
    assert_eq!(listed.len(), entries.len());
    for (entry, &place) in listed.iter().zip(&expected) {
        assert_eq!(entry.node_id, entries[place].node_id);
        assert_eq!(entry.channel_labels, entries[place].channel_labels);
        assert_eq!(entry.ip, entries[place].ip);
        assert_eq!(entry.control_port, entries[place].control_port);
        assert_eq!(entry.stream_id, entries[place].stream_id);
    }
}

#[test]
fn keys_are_ordered_by_node_then_by_stream() {
    let key = |node: &str, stream: &str| NameKey {
        node: node.to_string(),
        stream: stream.to_string(),
    };
    let keys = vec![
        key("stage", "vocals"),
        key("booth", "main"),
        key("stage", "drums"),
        key("booth", "main"),
        key("", "z"),
        key("stage2", "a"),
        key("Stage", "a"),
    ];
    assert_eq!(order_by_key(&keys), vec![4, 6, 1, 3, 2, 0, 5]);
    assert_eq!(order_by_key(&Vec::new()), Vec::<usize>::new());
}

#[test]
fn lookups_find_the_first_entry_of_a_name() {
    let devices = vec![
        DeviceInfo { name: "Mic".to_string(), max_input_channels: 1, max_output_channels: 0 },
        DeviceInfo { name: "Mic".to_string(), max_input_channels: 2, max_output_channels: 0 },
    ];
    assert_eq!(find_device(&devices, "Mic"), Some(0));
    assert_eq!(find_device(&devices, "mic"), None);
    let drivers = vec![driver("A", None), driver("B", Some(48_000))];
    assert_eq!(find_driver(&drivers, "B"), Some(1));
    assert_eq!(find_driver(&drivers, "C"), None);
    assert_eq!(lookup_driver(&drivers, &Some("A".to_string())).unwrap().name, "A");
    assert!(lookup_driver(&drivers, &None).is_none());
    let streams = vec![stream("1", "a", "x"), stream("2", "b", "y")];
    assert_eq!(find_stream(&streams, "2"), Some(1));
    assert_eq!(lookup_stream(&streams, &Some("2".to_string())).unwrap().stream_name, "y");
    assert!(lookup_stream(&streams, &Some("3".to_string())).is_none());
    assert!(lookup_stream(&streams, &None).is_none());
}

#[test]
fn labels_name_streams_and_drivers() {
    let entry = stream("1", "Stage", "Drums");
    assert_eq!(entry.stream_label(), "Stage — \"Drums\"  •  2 ch  •  192.168.0.7");
    assert_eq!(entry.asio_stream_label(), "Stage — \"Drums\" (2ch, 192.168.0.7)");
    assert_eq!(driver("X32", None).publish_label(), "X32 (32 in / 16 out)");
    assert_eq!(driver("X32", None).subscribe_label(), "X32 (32 in / 16 out)");
    assert_eq!(
        driver("X32", Some(48_000)).subscribe_label(),
        "X32 (32 in / 16 out, 48000Hz)"
    );
}

#[test]
fn drivers_are_offered_by_their_channels() {
    let mut entry = driver("X32", None);
    assert!(entry.has_inputs());
    assert!(entry.has_outputs());
    entry.max_input_channels = 0;
    assert!(!entry.has_inputs());
    assert!(entry.has_outputs());
    entry.max_output_channels = 0;
    assert!(!entry.has_outputs());
}
