use mimium_plugin_core::control::{slider_slot_of, ControlSystemPlugin, SlotClaim};
use mimium_plugin_core::params::KnobBank;
use mimium_plugin_core::worker;

fn default_names() -> [String; 8] {
    KnobBank::new().snapshot_names()
}

#[test]
fn labels_take_default_slots_in_order() {
    let mut plugin = ControlSystemPlugin::new(default_names());
    assert_eq!(plugin.claim_or_assign_slot("Left Freq"), SlotClaim::Assigned(0));
    assert_eq!(plugin.claim_or_assign_slot("Right Freq"), SlotClaim::Assigned(1));
    assert_eq!(plugin.claim_or_assign_slot("Gain"), SlotClaim::Assigned(2));
    let result = plugin.compile_result();
    assert_eq!(result.slot_names[0], "Left Freq");
    assert_eq!(result.slot_names[2], "Gain");
    assert_eq!(result.slot_names[3], "Knob 4");
    assert!(result.overflow_labels.is_empty());
}

#[test]
fn second_claim_of_a_label_finds_its_slot() {
    let mut plugin = ControlSystemPlugin::new(default_names());
    assert_eq!(plugin.claim_or_assign_slot("Gain"), SlotClaim::Assigned(0));
    assert_eq!(plugin.claim_or_assign_slot("GAIN"), SlotClaim::Existing(0));
}

#[test]
fn existing_names_keep_their_slots() {
    let mut names = default_names();
    names[5] = "Cutoff".to_string();
    let mut plugin = ControlSystemPlugin::new(names);
    assert_eq!(plugin.claim_or_assign_slot("cutoff"), SlotClaim::Existing(5));
    assert_eq!(plugin.claim_or_assign_slot("Res"), SlotClaim::Assigned(0));
}

#[test]
fn renamed_slots_are_used_after_default_ones() {
    let names: [String; 8] = std::array::from_fn(|i| if i < 7 { format!("Old {i}") } else { "Knob 8".to_string() });
    let mut plugin = ControlSystemPlugin::new(names);
    // slot 7 still has its default name
    assert_eq!(plugin.claim_or_assign_slot("A"), SlotClaim::Assigned(7));
    // then the first unclaimed slot, whatever its name
    assert_eq!(plugin.claim_or_assign_slot("B"), SlotClaim::Assigned(0));
    assert_eq!(plugin.compile_result().slot_names[0], "B");
}

#[test]
fn wrong_default_number_is_not_a_default_name() {
    let mut names = default_names();
    names[0] = "Knob 2".to_string();
    names[1] = "Knob +02".to_string();
    let mut plugin = ControlSystemPlugin::new(names);
    // slot 0 is named "Knob 2" (not its own number); slot 1 "Knob +02" parses as 2
    assert_eq!(plugin.claim_or_assign_slot("X"), SlotClaim::Assigned(1));
}

#[test]
fn overflow_labels_are_sorted_and_unique() {
    let mut plugin = ControlSystemPlugin::new(default_names());
    for i in 0..8 {
        assert_eq!(plugin.claim_or_assign_slot(&format!("L{i}")), SlotClaim::Assigned(i));
    }
    assert_eq!(plugin.claim_or_assign_slot("zeta"), SlotClaim::Overflow);
    assert_eq!(plugin.claim_or_assign_slot("alpha"), SlotClaim::Overflow);
    assert_eq!(plugin.claim_or_assign_slot("zeta"), SlotClaim::Overflow);
    assert_eq!(slider_slot_of(SlotClaim::Overflow), 7);
    assert_eq!(plugin.compile_result().overflow_labels, vec!["alpha", "zeta"]);
}

#[test]
fn worker_plugin_collapses_label_whitespace() {
    let mut plugin = worker::ControlSystemPlugin::new(default_names());
    assert_eq!(plugin.claim_or_assign_slot("  Left \u{00A0}  Freq\t"), Some(0));
    assert_eq!(plugin.compile_result().slot_names[0], "Left Freq");
    assert_eq!(plugin.control_slot(None), 0);
    assert_eq!(plugin.control_slot(Some("left freq")), 0);
    assert_eq!(plugin.control_slot(Some("Gain")), 1);
}

#[test]
fn worker_plugin_overflows_to_last_slot() {
    let mut plugin = worker::ControlSystemPlugin::new(default_names());
    for i in 0..8 {
        assert_eq!(plugin.claim_or_assign_slot(&format!("L{i}")), Some(i));
    }
    assert_eq!(plugin.claim_or_assign_slot("extra"), None);
    assert_eq!(plugin.control_slot(Some("more")), 7);
}
