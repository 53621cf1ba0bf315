use mimium_plugin_core::examples::{builtin_examples, sorted_filenames};
use mimium_plugin_core::packaging::{
    artifact_steps, cargo_build_args, clap_wrapper_root_choice, clap_info_plist,
    compiler_worker_binary_name, env_or_default, package_dir_parts, package_plan, packaged_clap_name,
    staged_clap_bundle_name, parse_command, parse_package_args,
    push_format, rust_cdylib_name, wrapper_build_args, wrapper_bundle_name,
    wrapper_configure_args, wrapper_target_names, ArtifactStep, BuildProfile, Options,
    PackageCommand, PackageFormat, Platform, WrapperConfig, XtaskCommand,
};

fn args(list: &[&str]) -> Vec<String> {
    list.iter().map(|s| s.to_string()).collect()
}

fn options(list: &[&str], platform: Platform) -> Options {
    match parse_package_args(args(list), platform).unwrap() {
        PackageCommand::Package(o) => o,
        PackageCommand::Help => panic!("unexpected help"),
    }
}

#[test]
fn default_package_options() {
    let o = options(&[], Platform::Other);
    assert_eq!(o.profile, BuildProfile::Release);
    assert_eq!(o.formats, vec![PackageFormat::Clap]);
    assert!(!o.install);
}

#[test]
fn flags_and_formats() {
    let o = options(&["--debug", "--format", "vst3", "--install", "--format", "vst3", "--format", "clap"], Platform::Other);
    assert_eq!(o.profile, BuildProfile::Debug);
    assert!(o.install);
    assert_eq!(o.formats, vec![PackageFormat::Vst3, PackageFormat::Clap]);
    let all_mac = options(&["--all-formats"], Platform::MacOs);
    assert_eq!(all_mac.formats, vec![PackageFormat::Clap, PackageFormat::Vst3, PackageFormat::Au]);
    let all_linux = options(&["--format", "vst3", "--all-formats", "--release"], Platform::Other);
    assert_eq!(all_linux.formats, vec![PackageFormat::Vst3, PackageFormat::Clap]);
    assert_eq!(all_linux.profile, BuildProfile::Release);
}

#[test]
fn argument_errors_and_help() {
    assert_eq!(parse_package_args(args(&["--format"]), Platform::Other).err().unwrap(), "--format requires a value");
    assert_eq!(parse_package_args(args(&["--format", "lv2"]), Platform::Other).err().unwrap(), "unsupported format: lv2");
    assert_eq!(parse_package_args(args(&["--fast"]), Platform::Other).err().unwrap(), "unknown package flag: --fast");
    assert!(matches!(parse_package_args(args(&["--debug", "-h", "--bogus"]), Platform::Other), Ok(PackageCommand::Help)));
    assert!(matches!(parse_command(None), Ok(XtaskCommand::Usage)));
    assert!(matches!(parse_command(Some("--help")), Ok(XtaskCommand::Usage)));
    assert!(matches!(parse_command(Some("package")), Ok(XtaskCommand::Package)));
    assert_eq!(parse_command(Some("build")).err().unwrap(), "unknown xtask command: build");
}

#[test]
fn format_properties() {
    assert_eq!(PackageFormat::parse("au").unwrap(), PackageFormat::Au);
    assert_eq!(PackageFormat::Au.bundle_extension(), "component");
    assert_eq!(PackageFormat::Vst3.target_name(), Some("mimium_audio_plugin_vst3"));
    assert_eq!(PackageFormat::Clap.target_name(), None);
    assert!(PackageFormat::Au.requires_wrapper());
    assert!(!PackageFormat::Clap.requires_wrapper());
    assert_eq!(PackageFormat::Clap.install_dir(), "CLAP");
    assert_eq!(BuildProfile::Debug.cargo_flag(), None);
    assert_eq!(BuildProfile::Release.cargo_flag(), Some("--release"));
    assert_eq!(BuildProfile::Release.dir_name(), "release");
    assert_eq!(BuildProfile::Debug.cmake_name(), "Debug");
    let mut formats = vec![PackageFormat::Clap];
    push_format(&mut formats, PackageFormat::Clap);
    push_format(&mut formats, PackageFormat::Au);
    assert_eq!(formats, vec![PackageFormat::Clap, PackageFormat::Au]);
}

#[test]
fn names_of_artifacts() {
    assert_eq!(rust_cdylib_name(Platform::MacOs), "libmimium_audio_plugin.dylib");
    assert_eq!(rust_cdylib_name(Platform::Windows), "mimium_audio_plugin.dll");
    assert_eq!(rust_cdylib_name(Platform::Other), "libmimium_audio_plugin.so");
    assert_eq!(compiler_worker_binary_name(Platform::Windows), "mimium-compiler-worker.exe");
    assert_eq!(compiler_worker_binary_name(Platform::MacOs), "mimium-compiler-worker");
    assert_eq!(wrapper_bundle_name(PackageFormat::Vst3), "Mimium Audio Plugin.vst3");
    assert_eq!(staged_clap_bundle_name(Platform::MacOs), "Mimium Audio Plugin.clap");
    assert_eq!(staged_clap_bundle_name(Platform::Other), "mimium-audio-plugin.clap");
}

#[test]
fn plans_and_steps() {
    let au = Options { profile: BuildProfile::Release, formats: vec![PackageFormat::Au], install: false };
    assert_eq!(package_plan(&au, Platform::Other).err().unwrap(), "au packaging is only supported on macOS");
    let plan = package_plan(&au, Platform::MacOs).unwrap();
    assert!(!plan.stage_clap);
    assert!(plan.use_wrapper);
    let clap = Options { profile: BuildProfile::Debug, formats: vec![PackageFormat::Clap], install: true };
    let plan = package_plan(&clap, Platform::Other).unwrap();
    assert!(plan.stage_clap && !plan.use_wrapper);
    let steps = artifact_steps(&vec![PackageFormat::Vst3, PackageFormat::Clap], Some("/p/x.clap"));
    assert!(matches!(steps[0], ArtifactStep::StageWrapper(PackageFormat::Vst3)));
    assert!(matches!(&steps[1], ArtifactStep::UseClap(p) if p == "/p/x.clap"));
    let missing = artifact_steps(&vec![PackageFormat::Clap], None);
    assert!(matches!(missing[0], ArtifactStep::MissingClap));
}

#[test]
fn command_lines() {
    assert_eq!(cargo_build_args("mimium-audio-plugin", BuildProfile::Release), vec!["build", "-p", "mimium-audio-plugin", "--release"]);
    assert_eq!(cargo_build_args("w", BuildProfile::Debug), vec!["build", "-p", "w"]);
    assert_eq!(wrapper_target_names(&vec![PackageFormat::Clap, PackageFormat::Au, PackageFormat::Vst3]), vec!["mimium_audio_plugin_auv2", "mimium_audio_plugin_vst3"]);
    assert!(wrapper_build_args("b", &vec![PackageFormat::Clap], BuildProfile::Release, Platform::Other).is_none());
    assert_eq!(
        wrapper_build_args("b", &vec![PackageFormat::Vst3], BuildProfile::Release, Platform::Windows).unwrap(),
        vec!["--build", "b", "--config", "Release", "--target", "mimium_audio_plugin_vst3"]
    );
    assert_eq!(
        wrapper_build_args("b", &vec![PackageFormat::Vst3], BuildProfile::Release, Platform::MacOs).unwrap(),
        vec!["--build", "b", "--target", "mimium_audio_plugin_vst3"]
    );
    let config = WrapperConfig {
        packaging_dir: "pk".into(),
        build_dir: "bd".into(),
        wrapper_root: "wr".into(),
        clap_bundle: "cb".into(),
        version: "0.1.0".into(),
        auv2_manufacturer_name: "Mimium".into(),
        auv2_manufacturer_code: "Mimi".into(),
        auv2_subtype_code: "Mclp".into(),
        auv2_instrument_type: "aumu".into(),
        clap_sdk_root: None,
        vst3_sdk_root: Some("/v".into()),
    };
    let linux = wrapper_configure_args(&config, &vec![PackageFormat::Vst3], BuildProfile::Release, Platform::Other);
    assert_eq!(
        linux,
        vec![
            "-S", "pk", "-B", "bd", "-DCLAP_WRAPPER_ROOT=wr", "-DCLAP_PLUGIN_BUNDLE=cb",
            "-DCLAP_WRAPPER_OUTPUT_NAME=Mimium Audio Plugin",
            "-DCLAP_WRAPPER_BUNDLE_IDENTIFIER=org.mimium.mimium-audio-plugin",
            "-DCLAP_WRAPPER_BUNDLE_VERSION=0.1.0", "-DCLAP_WRAPPER_DOWNLOAD_DEPENDENCIES=TRUE",
            "-DVST3_SDK_ROOT=/v",
        ]
    );
    let mac = wrapper_configure_args(&config, &vec![PackageFormat::Au], BuildProfile::Debug, Platform::MacOs);
    assert_eq!(mac.len(), 17);
    assert_eq!(mac[10], "-DCLAP_WRAPPER_BUILD_AUV2=ON");
    assert_eq!(mac[14], "-DCLAP_WRAPPER_AUV2_INSTRUMENT_TYPE=aumu");
    assert_eq!(mac[16], "-DCMAKE_BUILD_TYPE=Debug");
}

#[test]
fn env_defaults_and_plist() {
    assert_eq!(env_or_default(Some(" Acme "), "Mimium"), " Acme ");
    assert_eq!(env_or_default(Some("  "), "Mimium"), "Mimium");
    assert_eq!(env_or_default(None, "Mimi"), "Mimi");
    let plist = clap_info_plist("1.2.3");
    assert!(plist.starts_with("<?xml version=\"1.0\" encoding=\"UTF-8\"?>\n"));
    assert!(plist.contains("<key>CFBundleExecutable</key>\n  <string>mimium-audio-plugin</string>"));
    assert!(plist.contains("<string>org.mimium.mimium-audio-plugin.clap</string>"));
    assert!(plist.contains("<key>CFBundleVersion</key>\n  <string>1.2.3</string>\n</dict>\n</plist>\n"));
    assert_eq!(plist.matches("1.2.3").count(), 2);
}

#[test]
fn examples_are_sorted() {
    let names = vec!["sine.mmm".to_string(), "fm.mmm".into(), "Noise.mmm".into(), "fm.mmm".into()];
    let sorted = sorted_filenames(&names);
    let mut expected = names.clone();
    expected.sort();
    assert_eq!(sorted, expected);
    let examples = builtin_examples(&names);
    let files: Vec<&str> = examples.iter().map(|e| e.filename.as_str()).collect();
    assert_eq!(files, vec!["Noise.mmm", "fm.mmm", "fm.mmm", "sine.mmm"]);
}

#[test]
fn clap_wrapper_lookup_order() {
    let default = "/work/third_party/clap-wrapper".to_string();
    assert_eq!(
        clap_wrapper_root_choice(Some("/opt/cw".to_string()), true, default.clone(), true).unwrap(),
        "/opt/cw"
    );
    assert_eq!(
        clap_wrapper_root_choice(Some("/opt/cw".to_string()), false, default.clone(), true).err().unwrap(),
        "CLAP_WRAPPER_ROOT does not exist: /opt/cw"
    );
    assert_eq!(clap_wrapper_root_choice(None, false, default.clone(), true).unwrap(), default);
    assert_eq!(
        clap_wrapper_root_choice(None, false, default.clone(), false).err().unwrap(),
        "clap-wrapper not found. Set CLAP_WRAPPER_ROOT or place it at /work/third_party/clap-wrapper"
    );
}

#[test]
fn release_package_lands_where_the_readme_says() {
    let mut parts = package_dir_parts(BuildProfile::Release);
    parts.push(packaged_clap_name());
    assert_eq!(parts.join("/"), "target/package/release/mimium-audio-plugin.clap");
    assert_eq!(package_dir_parts(BuildProfile::Debug).join("/"), "target/package/debug");
}
