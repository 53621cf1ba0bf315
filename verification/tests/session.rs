use mimium_plugin_core::settings::{plugin_about_info, GlobalSettings};
use mimium_plugin_core::state::{decode_state, merge_names, PersistedState};
use mimium_plugin_core::ui::{plugin_message_script, PluginSession, UiEffect, UiRequest};

fn session() -> PluginSession {
    PluginSession::new(
        "fn dsp() { (0.0, 0.0) }".to_string(),
        GlobalSettings::with_library_path("/home/u/.mimium/lib"),
        Ok(()),
    )
}

fn tags(effects: &[UiEffect]) -> Vec<&'static str> {
    effects
        .iter()
        .map(|e| match e {
            UiEffect::QueueEditorState => "editor",
            UiEffect::QueueKnobState => "knobs",
            UiEffect::QueueGlobalSettings => "settings",
            UiEffect::QueueExampleList => "examples",
            UiEffect::QueueAboutInfo => "about",
            UiEffect::QueueSaveSettingsResult { .. } => "save_result",
            UiEffect::QueueClipboardReadResult { .. } => "clipboard_result",
            UiEffect::RequestCallback => "callback",
            UiEffect::Compile { .. } => "compile",
            UiEffect::SaveSettings { .. } => "save",
            UiEffect::LookupExample { .. } => "lookup",
            UiEffect::WriteClipboard { .. } => "write_clipboard",
            UiEffect::ReadClipboard { .. } => "read_clipboard",
            UiEffect::ApplyKnobValue { .. } => "value",
            UiEffect::SendEditorState => "send_editor",
        })
        .collect()
}

#[test]
fn new_session_feedback() {
    let s = session();
    assert!(s.compile_feedback.ok);
    assert_eq!(s.compile_feedback.message, "Compiled initial mimium program.");
    let failed = PluginSession::new(String::new(), GlobalSettings::with_library_path("x"), Err("boom".into()));
    assert!(!failed.compile_feedback.ok);
    assert_eq!(failed.compile_feedback.message, "Initial program failed to compile: boom");
    assert!(!failed.state_dirty);
}

#[test]
fn set_source_marks_dirty_and_sends_everything() {
    let mut s = session();
    let effects = s.handle_request(UiRequest::SetSource { source: Some("new".into()) });
    assert_eq!(s.current_source, "new");
    assert!(s.state_dirty);
    assert_eq!(tags(&effects), vec!["editor", "knobs", "settings", "examples", "about", "callback"]);
    assert!(s.take_dirty());
    assert!(!s.take_dirty());
    let effects = s.handle_request(UiRequest::SetSource { source: None });
    assert_eq!(s.current_source, "");
    assert_eq!(effects.len(), 6);
}

#[test]
fn compile_round_trip() {
    let mut s = session();
    let effects = s.handle_request(UiRequest::CompileSource);
    match &effects[..] {
        [UiEffect::Compile { source, library_path }] => {
            assert_eq!(source, "fn dsp() { (0.0, 0.0) }");
            assert_eq!(library_path, "/home/u/.mimium/lib");
        }
        _ => panic!("expected a compile"),
    }
    let names: [String; 8] = std::array::from_fn(|i| format!("C{i}"));
    let effects = s.compile_finished(Ok(names.clone()));
    assert_eq!(tags(&effects), vec!["editor", "knobs", "callback"]);
    assert_eq!(s.knobs.snapshot_names(), names);
    assert!(s.compile_feedback.ok);
    let effects = s.compile_finished(Err("type error".into()));
    assert_eq!(effects.len(), 3);
    assert!(!s.compile_feedback.ok);
    assert_eq!(s.compile_feedback.message, "type error");
    assert_eq!(s.knobs.snapshot_names(), names);
}

#[test]
fn set_knob_paths() {
    let mut s = session();
    assert!(s.handle_request(UiRequest::SetKnob { index: Some(8), name: Some("x".into()), has_value: true }).is_empty());
    assert!(s.handle_request(UiRequest::SetKnob { index: None, name: None, has_value: false }).is_empty());
    assert!(!s.state_dirty);
    let effects = s.handle_request(UiRequest::SetKnob { index: Some(3), name: Some(" Res ".into()), has_value: true });
    assert_eq!(tags(&effects), vec!["value", "knobs", "callback"]);
    assert!(matches!(effects[0], UiEffect::ApplyKnobValue { index: 3 }));
    assert_eq!(s.knobs.name(3), "Res");
    assert!(s.state_dirty);
    let effects = s.handle_request(UiRequest::SetKnob { index: Some(1), name: None, has_value: false });
    assert_eq!(tags(&effects), vec!["knobs", "callback"]);
}

#[test]
fn save_settings_paths() {
    let mut s = session();
    let effects = s.handle_request(UiRequest::SaveGlobalSettings { library_path: Some("   ".into()) });
    assert_eq!(tags(&effects), vec!["save_result", "settings", "callback"]);
    match &effects[0] {
        UiEffect::QueueSaveSettingsResult { ok, message } => {
            assert!(!ok);
            assert_eq!(message, "Library path must not be empty.");
        }
        _ => unreachable!(),
    }
    let effects = s.handle_request(UiRequest::SaveGlobalSettings { library_path: Some(" /new/lib ".into()) });
    match &effects[..] {
        [UiEffect::SaveSettings { library_path }] => assert_eq!(library_path, "/new/lib"),
        _ => panic!("expected a save"),
    }
    let effects = s.settings_saved("/new/lib".into(), Ok(()));
    assert_eq!(s.global_settings.library_path, "/new/lib");
    match &effects[0] {
        UiEffect::QueueSaveSettingsResult { ok, message } => {
            assert!(ok);
            assert_eq!(message, "Saved global settings.");
        }
        _ => unreachable!(),
    }
    let effects = s.settings_saved("/other".into(), Err("disk full".into()));
    assert_eq!(s.global_settings.library_path, "/new/lib");
    match &effects[0] {
        UiEffect::QueueSaveSettingsResult { ok, message } => {
            assert!(!ok);
            assert_eq!(message, "disk full");
        }
        _ => unreachable!(),
    }
}

#[test]
fn example_and_clipboard_flows() {
    let mut s = session();
    let effects = s.handle_request(UiRequest::LoadExample { filename: Some("sine.mmm".into()) });
    assert!(matches!(&effects[..], [UiEffect::LookupExample { filename }] if filename == "sine.mmm"));
    assert!(s.handle_request(UiRequest::LoadExample { filename: None }).is_empty());
    assert!(s.example_found(None).is_empty());
    assert!(!s.state_dirty);
    let effects = s.example_found(Some("fn dsp() { 0 }".into()));
    assert_eq!(tags(&effects), vec!["editor", "knobs", "examples", "callback"]);
    assert_eq!(s.current_source, "fn dsp() { 0 }");
    assert_eq!(s.compile_feedback.message, "Loaded example source. Press Compile to apply.");
    assert!(s.state_dirty);

    let effects = s.handle_request(UiRequest::ClipboardWrite { text: None });
    assert!(matches!(&effects[..], [UiEffect::WriteClipboard { text }] if text.is_empty()));
    let effects = s.handle_request(UiRequest::ClipboardRead { request_id: Some("r1".into()) });
    assert!(matches!(&effects[..], [UiEffect::ReadClipboard { request_id }] if request_id == "r1"));
    let effects = s.clipboard_read_finished("r1".into(), Err("no display".into()));
    match &effects[0] {
        UiEffect::QueueClipboardReadResult { request_id, ok, text, message } => {
            assert_eq!(request_id, "r1");
            assert!(!ok);
            assert!(text.is_none());
            assert_eq!(message, "Clipboard read failed: no display");
        }
        _ => unreachable!(),
    }
    let effects = s.clipboard_read_finished("r2".into(), Ok("hello".into()));
    match &effects[0] {
        UiEffect::QueueClipboardReadResult { ok, text, message, .. } => {
            assert!(ok);
            assert_eq!(text.as_deref(), Some("hello"));
            assert_eq!(message, "Clipboard read succeeded.");
        }
        _ => unreachable!(),
    }
}

#[test]
fn other_requests() {
    let mut s = session();
    assert_eq!(tags(&s.handle_request(UiRequest::RequestState)), vec!["editor", "knobs", "settings", "examples", "about", "callback"]);
    assert_eq!(tags(&s.handle_request(UiRequest::RequestGlobalSettings)), vec!["settings", "about", "callback"]);
    assert_eq!(tags(&s.handle_request(UiRequest::RequestExamples)), vec!["examples", "callback"]);
    assert!(s.handle_request(UiRequest::Unknown).is_empty());
    assert!(!s.state_dirty);
}

#[test]
fn save_then_restore_keeps_source_and_names() {
    let mut s = session();
    s.knobs.set_name(0, "Gain".into());
    let saved = s.persisted_snapshot();
    assert_eq!(saved.version, 2);
    let mut restored = PluginSession::new(String::new(), GlobalSettings::with_library_path("/lib"), Ok(()));
    let effects = restored.restore_begin(saved);
    assert_eq!(restored.current_source, s.current_source);
    assert_eq!(restored.knobs.snapshot_names(), s.knobs.snapshot_names());
    assert!(matches!(&effects[..], [UiEffect::Compile { library_path, .. }] if library_path == "/lib"));
    let effects = restored.restore_compiled(Err("oops".into()));
    assert!(matches!(&effects[..], [UiEffect::SendEditorState]));
    assert_eq!(
        restored.compile_feedback.message,
        "Loaded source from saved state, but compilation failed: oops"
    );
    let names: [String; 8] = std::array::from_fn(|i| format!("R{i}"));
    restored.restore_compiled(Ok(names.clone()));
    assert_eq!(restored.compile_feedback.message, "Loaded and compiled saved state.");
    assert_eq!(restored.knobs.snapshot_names(), names);
}

#[test]
fn decode_state_fallbacks() {
    assert!(decode_state(None, vec![]).unwrap().is_none());
    let parsed = PersistedState { version: 2, source: "x".into(), knob_names: None };
    let kept = decode_state(Some(parsed), b"{}".to_vec()).unwrap().unwrap();
    assert_eq!(kept.source, "x");
    let legacy = decode_state(None, "fn dsp() { 0 } é".as_bytes().to_vec()).unwrap().unwrap();
    assert_eq!(legacy.version, 1);
    assert_eq!(legacy.source, "fn dsp() { 0 } é");
    assert!(legacy.knob_names.is_none());
    assert_eq!(decode_state(None, vec![0xff, 0xfe]).err().unwrap(), "Invalid plugin state format.");
}

#[test]
fn merge_stored_names() {
    let current: [String; 8] = std::array::from_fn(|i| format!("Knob {}", i + 1));
    let merged = merge_names(current, &vec!["A".into(), "B".into()]);
    assert_eq!(merged[0], "A");
    assert_eq!(merged[1], "B");
    assert_eq!(merged[2], "Knob 3");
}

#[test]
fn about_and_script() {
    let about = plugin_about_info("0.1.0", None);
    assert_eq!(about.plugin_version, "0.1.0");
    assert_eq!(about.mimium_compiler_version, "dev");
    assert_eq!(about.repository_url, "https://github.com/mimium-org/mimium-audio-plugin");
    assert_eq!(plugin_about_info("1", Some("4.1.1")).mimium_compiler_version, "4.1.1");
    assert_eq!(
        plugin_message_script("{\"type\":\"x\"}"),
        "window.__onPluginMessage && window.__onPluginMessage({\"type\":\"x\"})"
    );
}
