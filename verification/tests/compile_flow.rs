use mimium_plugin_core::control::ControlCompileResult;
use mimium_plugin_core::params::KnobBank;
use mimium_plugin_core::program::{
    arg_type_from_signature, dispatch_feedback, finish_program, prepare_program,
    return_type_from_signature, select_worker_command, wasm_valtype_to_mimium_type,
    worker_request, CompileFeedback, PrimType, SignatureType, WasmValType, DEFAULT_SOURCE,
};
use mimium_plugin_core::worker::{
    failure_reply, finish_compile, fit_knob_names, invalid_request_reply, library_path_setting,
    normalize_name, success_reply, validate_channels, IoChannels, WorkerReply,
};

fn stereo() -> Option<IoChannels> {
    Some(IoChannels { input: 0, output: 2 })
}

#[test]
fn worker_normalize_name_cases() {
    assert_eq!(normalize_name(0, "  Left \t Freq "), "Left Freq");
    assert_eq!(normalize_name(0, "a\u{00A0}\u{00A0}b"), "a b");
    assert_eq!(normalize_name(0, "a\tb"), "ab");
    assert_eq!(normalize_name(3, "\u{0007}"), "Knob 4");
    assert_eq!(normalize_name(1, ""), "Knob 2");
    assert_eq!(normalize_name(0, "x \u{0001} y"), "x y");
}

#[test]
fn worker_normalize_is_idempotent() {
    for s in ["  a  b ", "\u{0007}x\u{2003}\u{2003}y", "", "Knob 3"] {
        let once = normalize_name(5, s);
        assert_eq!(normalize_name(5, &once), once);
    }
}

#[test]
fn channel_validation() {
    assert!(validate_channels(stereo()).is_ok());
    assert!(validate_channels(Some(IoChannels { input: 2, output: 2 })).is_ok());
    assert_eq!(
        validate_channels(None).unwrap_err(),
        "mimium source must define dsp() with stereo output"
    );
    assert_eq!(
        validate_channels(Some(IoChannels { input: 1, output: 2 })).unwrap_err(),
        "dsp() must expose 0 or 2 input / 2 output channels, but got 1 input / 2 output"
    );
    assert_eq!(
        validate_channels(Some(IoChannels { input: 0, output: 1 })).unwrap_err(),
        "dsp() must expose 0 or 2 input / 2 output channels, but got 0 input / 1 output"
    );
}

#[test]
fn fit_names_pads_and_cuts() {
    let short = fit_knob_names(vec!["a".to_string()]);
    assert_eq!(short[0], "a");
    assert_eq!(short[7], "");
    let long: Vec<String> = (0..10).map(|i| i.to_string()).collect();
    let fitted = fit_knob_names(long);
    assert_eq!(fitted[7], "7");
}

#[test]
fn finish_compile_reports_overflow() {
    let names: [String; 8] = std::array::from_fn(|i| format!("N{i}"));
    let ok = finish_compile(stereo(), ControlCompileResult { slot_names: names.clone(), overflow_labels: vec![] });
    assert_eq!(ok.unwrap(), names);
    let over = finish_compile(
        stereo(),
        ControlCompileResult { slot_names: names.clone(), overflow_labels: vec!["a".into(), "b".into()] },
    );
    assert_eq!(over.unwrap_err(), "Control! labels exceeded 8 knobs: a, b");
    let bad = finish_compile(None, ControlCompileResult { slot_names: names, overflow_labels: vec!["a".into()] });
    assert_eq!(bad.unwrap_err(), "mimium source must define dsp() with stereo output");
}

#[test]
fn replies_roundtrip_through_base64() {
    let names: [String; 8] = std::array::from_fn(|i| format!("K{i}"));
    let wasm = vec![0u8, 97, 115, 109, 1, 0, 0, 0];
    let reply = success_reply(&wasm, stereo(), &names);
    assert!(reply.ok);
    assert_eq!(reply.message, "Compiled in isolated process.");
    assert_eq!(reply.wasm_base64.as_deref(), Some("AGFzbQEAAAA="));
    let program = prepare_program(reply).unwrap();
    assert_eq!(program.wasm_bytes, wasm);
    assert_eq!(program.resolved_knob_names, names);
    assert_eq!(program.io_channels, stereo());
}

#[test]
fn prepare_program_errors() {
    let refused = failure_reply("syntax error".to_string());
    assert_eq!(prepare_program(refused).unwrap_err(), "syntax error");
    let missing = WorkerReply {
        ok: true,
        message: String::new(),
        wasm_base64: None,
        io_channels: stereo(),
        resolved_knob_names: vec![],
    };
    assert_eq!(prepare_program(missing).unwrap_err(), "compiler worker did not return wasm output");
    let garbage = WorkerReply {
        ok: true,
        message: String::new(),
        wasm_base64: Some("!!!".to_string()),
        io_channels: stereo(),
        resolved_knob_names: vec![],
    };
    let err = prepare_program(garbage).unwrap_err();
    assert!(err.starts_with("failed to decode worker wasm: "), "{err}");
    let mono = WorkerReply {
        ok: true,
        message: String::new(),
        wasm_base64: Some("AA==".to_string()),
        io_channels: Some(IoChannels { input: 0, output: 1 }),
        resolved_knob_names: vec![],
    };
    assert!(prepare_program(mono).unwrap_err().starts_with("dsp() must expose"));
    let names: [String; 8] = std::array::from_fn(|_| String::new());
    assert_eq!(
        finish_program(Err("bad".into()), None, names).err().unwrap(),
        "failed to decode worker wasm: bad"
    );
}

#[test]
fn invalid_request_message() {
    let r = invalid_request_reply("EOF while parsing");
    assert!(!r.ok);
    assert_eq!(r.message, "invalid compile request: EOF while parsing");
    assert!(r.resolved_knob_names.is_empty());
}

#[test]
fn request_carries_knob_names() {
    let mut knobs = KnobBank::new();
    knobs.set_name(0, "Gain".to_string());
    let req = worker_request(DEFAULT_SOURCE, &knobs, Some("/lib"));
    assert_eq!(req.source, DEFAULT_SOURCE);
    assert_eq!(req.library_path.as_deref(), Some("/lib"));
    assert_eq!(req.initial_knob_names.len(), 8);
    assert_eq!(req.initial_knob_names[0], "Gain");
    assert_eq!(req.initial_knob_names[1], "Knob 2");
    assert!(DEFAULT_SOURCE.contains("Control!(\"Left Freq\", 220.0)"));
}

#[test]
fn worker_command_selection() {
    assert_eq!(select_worker_command(Some("  /bin/w "), Some("near".into()), None, None), "/bin/w");
    assert_eq!(select_worker_command(Some("   "), Some("near".into()), None, None), "near");
    assert_eq!(select_worker_command(None, None, Some("dbg".into()), Some("rel".into())), "dbg");
    assert_eq!(select_worker_command(None, None, None, Some("rel".into())), "rel");
    assert_eq!(select_worker_command(None, None, None, None), "mimium-compiler-worker");
}

#[test]
fn library_path_env_value() {
    assert_eq!(library_path_setting(Some("  /x ")), Some("/x".to_string()));
    assert_eq!(library_path_setting(Some("  ")), None);
    assert_eq!(library_path_setting(None), None);
}

#[test]
fn signature_types() {
    assert_eq!(wasm_valtype_to_mimium_type(WasmValType::I64), PrimType::Int);
    assert_eq!(wasm_valtype_to_mimium_type(WasmValType::F32), PrimType::Numeric);
    match arg_type_from_signature(&vec![]) {
        SignatureType::Tuple(v) => assert!(v.is_empty()),
        _ => panic!("expected tuple"),
    }
    match return_type_from_signature(&vec![]) {
        SignatureType::Primitive(p) => assert_eq!(p, PrimType::Unit),
        _ => panic!("expected unit"),
    }
    match arg_type_from_signature(&vec![WasmValType::F64]) {
        SignatureType::Primitive(p) => assert_eq!(p, PrimType::Numeric),
        _ => panic!("expected primitive"),
    }
    match return_type_from_signature(&vec![WasmValType::I32, WasmValType::F64]) {
        SignatureType::Tuple(v) => assert_eq!(v, vec![PrimType::Int, PrimType::Numeric]),
        _ => panic!("expected tuple"),
    }
}

#[test]
fn feedback_constructors() {
    let ok = CompileFeedback::success("done");
    assert!(ok.ok);
    assert_eq!(ok.message, "done");
    let err = CompileFeedback::error("bad");
    assert!(!err.ok);
    let d = dispatch_feedback(None);
    assert!(d.ok);
    assert_eq!(
        d.message,
        "Compiled via worker process. The audio thread will swap the program on the next block."
    );
    assert_eq!(dispatch_feedback(Some("e")).message, "e");
}
