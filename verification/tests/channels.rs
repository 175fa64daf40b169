//! Channel labels and channel selections.

use openaudio::channels::{
    all_channels, announced_labels, default_label, default_labels, fit_labels, is_selected,
    toggle_channel, QuickSelection,
};

fn strings(list: &[&str]) -> Vec<String> {
    list.iter().map(|text| text.to_string()).collect()
}

#[test]
fn labels_are_numbered_from_one() {
    assert_eq!(default_label(0), "Channel 1");
    assert_eq!(default_label(31), "Channel 32");
    assert_eq!(default_labels(3), strings(&["Channel 1", "Channel 2", "Channel 3"]));
}

#[test]
fn fitting_labels_cuts_or_fills_the_list() {
    let mut labels = strings(&["Kick", "Snare", "Hat"]);
    fit_labels(&mut labels, 2);
    assert_eq!(labels, strings(&["Kick", "Snare"]));
    fit_labels(&mut labels, 4);
    assert_eq!(labels, strings(&["Kick", "Snare", "Channel 3", "Channel 4"]));
    fit_labels(&mut labels, 4);
    assert_eq!(labels.len(), 4);
}

#[test]
fn blank_and_missing_labels_are_announced_by_number() {
    let labels = strings(&["Kick", "  ", "Hat"]);
    let announced = announced_labels(&vec![2, 1, 7, 0], &labels);
    assert_eq!(announced, strings(&["Hat", "Channel 2", "Channel 8", "Kick"]));
}

#[test]
fn toggling_keeps_the_selection_in_order() {
    let mut selection = vec![0, 2, 5];
    toggle_channel(&mut selection, 3);
    assert_eq!(selection, vec![0, 2, 3, 5]);
    toggle_channel(&mut selection, 0);
    assert_eq!(selection, vec![2, 3, 5]);
    assert!(is_selected(&selection, 3));
    assert!(!is_selected(&selection, 0));
    let mut unordered = vec![5, 1, 5, 3];
    toggle_channel(&mut unordered, 2);
    assert_eq!(unordered, vec![1, 2, 3, 5]);
    let mut repeated = vec![4, 1, 4];
    toggle_channel(&mut repeated, 4);
    assert_eq!(repeated, vec![1]);
}

#[test]
fn toggling_twice_restores_an_ordered_selection() {
    for channel in 0..6usize {
        let mut selection = vec![1, 2, 4];
        toggle_channel(&mut selection, channel);
        toggle_channel(&mut selection, channel);
        assert_eq!(selection, vec![1, 2, 4]);
    }
}

#[test]
fn quick_selections_are_offered_by_channel_count() {
    assert!(QuickSelection::All.offered(0));
    assert!(!QuickSelection::FirstEight.offered(7));
    assert!(QuickSelection::FirstEight.offered(8));
    assert!(!QuickSelection::FirstSixteen.offered(15));
    assert!(QuickSelection::FirstThirtyTwo.offered(32));
    assert!(!QuickSelection::FirstThirtyTwo.offered(31));
    assert_eq!(QuickSelection::FirstTwo.caption(), "1–2");
    assert_eq!(QuickSelection::Nothing.caption(), "None");
    assert_eq!(QuickSelection::All.channels(3), vec![0, 1, 2]);
    assert_eq!(QuickSelection::Nothing.channels(3), Vec::<usize>::new());
    assert_eq!(QuickSelection::FirstTwo.channels(1), vec![0]);
    assert_eq!(QuickSelection::FirstTwo.channels(9), vec![0, 1]);
    assert_eq!(QuickSelection::FirstEight.channels(9), all_channels(8));
    assert_eq!(QuickSelection::FirstSixteen.channels(64).len(), 16);
    assert_eq!(QuickSelection::FirstThirtyTwo.channels(64).len(), 32);
}
