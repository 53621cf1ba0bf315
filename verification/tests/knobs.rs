use mimium_plugin_core::params::{
    normalize_name, param_id_for_index, param_index_from_id, KnobBank, DEFAULT_KNOB_VALUE_BITS,
    KNOB_COUNT,
};

#[test]
fn new_bank_has_default_names_and_half_values() {
    let bank = KnobBank::new();
    let names = bank.snapshot_names();
    for (i, name) in names.iter().enumerate() {
        assert_eq!(name, &format!("Knob {}", i + 1));
        assert_eq!(bank.value_bits(i), 0.5f64.to_bits());
    }
    assert_eq!(DEFAULT_KNOB_VALUE_BITS, 0.5f64.to_bits());
}

#[test]
fn set_name_normalizes_and_reads_back() {
    let mut bank = KnobBank::new();
    bank.set_name(2, "  Cutoff \t".to_string());
    assert_eq!(bank.name(2), "Cutoff");
    bank.set_name(3, "   ".to_string());
    assert_eq!(bank.name(3), "Knob 4");
    bank.set_name(KNOB_COUNT, "ignored".to_string());
    assert_eq!(bank.snapshot_names()[7], "Knob 8");
}

#[test]
fn name_out_of_range_is_empty() {
    let bank = KnobBank::new();
    assert_eq!(bank.name(8), "");
    assert_eq!(bank.name(usize::MAX), "");
}

#[test]
fn set_names_replaces_every_name() {
    let mut bank = KnobBank::new();
    let names: [String; KNOB_COUNT] = std::array::from_fn(|i| format!("n{i}"));
    bank.set_names(names.clone());
    assert_eq!(bank.snapshot_names(), names);
}

#[test]
fn value_bits_store_and_out_of_range() {
    let mut bank = KnobBank::new();
    bank.set_value_bits(1, 0.25f64.to_bits());
    assert_eq!(f64::from_bits(bank.value_bits(1)), 0.25);
    bank.set_value_bits(9, 1.0f64.to_bits());
    assert_eq!(bank.value_bits(9), 0);
    assert_eq!(f64::from_bits(bank.value_bits(9)), 0.0);
}

#[test]
fn normalize_name_cases() {
    assert_eq!(normalize_name(0, "  Gain  "), "Gain");
    assert_eq!(normalize_name(4, ""), "Knob 5");
    assert_eq!(normalize_name(9, "\u{3000}\n"), "Knob 10");
    assert_eq!(normalize_name(0, "a  b"), "a  b");
}

#[test]
fn normalize_name_is_idempotent() {
    for candidate in ["  x ", "", "Knob 3", "\u{00A0}y\u{00A0}"] {
        let once = normalize_name(2, candidate);
        assert_eq!(normalize_name(2, &once), once);
    }
}

#[test]
fn param_ids_roundtrip() {
    for i in 0..KNOB_COUNT {
        let id = param_id_for_index(i);
        assert_eq!(id, i as u32 + 1);
        assert_eq!(param_index_from_id(id), Some(i));
    }
    assert_eq!(param_index_from_id(0), None);
    assert_eq!(param_index_from_id(9), None);
    assert_eq!(param_index_from_id(u32::MAX), None);
}
