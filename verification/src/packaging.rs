use vstd::prelude::*;

use crate::text::{push_str, str_eq, to_string};

verus! {

pub const PRODUCT_SLUG: &'static str = "mimium-audio-plugin";

pub const PRODUCT_NAME: &'static str = "Mimium Audio Plugin";

pub const CARGO_PACKAGE_NAME: &'static str = "mimium-audio-plugin";

pub const COMPILER_WORKER_PACKAGE_NAME: &'static str = "mimium-compiler-worker";

pub const BUNDLE_IDENTIFIER: &'static str = "org.mimium.mimium-audio-plugin";

/// The system the packages are built for.
#[derive(Clone, Copy, PartialEq, Eq, Structural, Debug)]
pub enum Platform {
    MacOs,
    Windows,
    Other,
}

#[derive(Clone, Copy, PartialEq, Eq, Structural, Debug)]
pub enum BuildProfile {
    Debug,
    Release,
}

impl BuildProfile {
    /// The flag that selects this profile for cargo.
    pub fn cargo_flag(self) -> (r: Option<&'static str>)
        ensures
            self == BuildProfile::Debug ==> r is None,
            self == BuildProfile::Release ==> (r matches Some(f) && f@ == "--release"@),
    {
        match self {
            BuildProfile::Debug => None,
            BuildProfile::Release => Some("--release"),
        }
    }

    /// The directory cargo builds this profile into.
    pub fn dir_name(self) -> (r: &'static str)
        ensures
            r@ == (if self == BuildProfile::Debug {
                "debug"@
            } else {
                "release"@
            }),
    {
        match self {
            BuildProfile::Debug => "debug",
            BuildProfile::Release => "release",
        }
    }

    /// The CMake build type of this profile.
    pub fn cmake_name(self) -> (r: &'static str)
        ensures
            r@ == (if self == BuildProfile::Debug {
                "Debug"@
            } else {
                "Release"@
            }),
    {
        match self {
            BuildProfile::Debug => "Debug",
            BuildProfile::Release => "Release",
        }
    }
}

#[derive(Clone, Copy, PartialEq, Eq, Structural, Debug)]
pub enum PackageFormat {
    Clap,
    Vst3,
    Au,
}

/// The format a `--format` value names.
pub open spec fn format_named(value: Seq<char>) -> Option<PackageFormat> {
    if value == "clap"@ {
        Some(PackageFormat::Clap)
    } else if value == "vst3"@ {
        Some(PackageFormat::Vst3)
    } else if value == "au"@ {
        Some(PackageFormat::Au)
    } else {
        None
    }
}

pub open spec fn spec_requires_wrapper(f: PackageFormat) -> bool {
    f == PackageFormat::Vst3 || f == PackageFormat::Au
}

pub open spec fn spec_bundle_extension(f: PackageFormat) -> Seq<char> {
    match f {
        PackageFormat::Clap => "clap"@,
        PackageFormat::Vst3 => "vst3"@,
        PackageFormat::Au => "component"@,
    }
}

pub open spec fn spec_target_name(f: PackageFormat) -> Option<Seq<char>> {
    match f {
        PackageFormat::Clap => None,
        PackageFormat::Vst3 => Some("mimium_audio_plugin_vst3"@),
        PackageFormat::Au => Some("mimium_audio_plugin_auv2"@),
    }
}

impl PackageFormat {
    /// The format a `--format` value names, or `unsupported format: {value}`.
    pub fn parse(value: &str) -> (r: Result<Self, String>)
        ensures
            match format_named(value@) {
                Some(f) => r == Ok::<PackageFormat, String>(f),
                None => r matches Err(e) && e@ == "unsupported format: "@ + value@,
            },
    {
        if str_eq(value, "clap") {
            Ok(PackageFormat::Clap)
        } else if str_eq(value, "vst3") {
            Ok(PackageFormat::Vst3)
        } else if str_eq(value, "au") {
            Ok(PackageFormat::Au)
        } else {
            let mut e = to_string("unsupported format: ");
            push_str(&mut e, value);
            Err(e)
        }
    }

    /// The wrapper's CMake target that builds this format; CLAP needs none.
    pub fn target_name(self) -> (r: Option<&'static str>)
        ensures
            match spec_target_name(self) {
                Some(t) => r matches Some(n) && n@ == t,
                None => r is None,
            },
    {
        match self {
            PackageFormat::Clap => None,
            PackageFormat::Vst3 => Some("mimium_audio_plugin_vst3"),
            PackageFormat::Au => Some("mimium_audio_plugin_auv2"),
        }
    }

    pub fn bundle_extension(self) -> (r: &'static str)
        ensures
            r@ == spec_bundle_extension(self),
    {
        match self {
            PackageFormat::Clap => "clap",
            PackageFormat::Vst3 => "vst3",
            PackageFormat::Au => "component",
        }
    }

    /// VST3 and AU are made by wrapping the CLAP build.
    pub fn requires_wrapper(self) -> (r: bool)
        ensures
            r == spec_requires_wrapper(self),
            r == (self != PackageFormat::Clap),
    {
        match self {
            PackageFormat::Clap => false,
            _ => true,
        }
    }

    /// The folder under `Plug-Ins` that this format installs into.
    pub fn install_dir(self) -> (r: &'static str)
        ensures
            r@ == match self {
                PackageFormat::Clap => "CLAP"@,
                PackageFormat::Vst3 => "VST3"@,
                PackageFormat::Au => "Components"@,
            },
    {
        match self {
            PackageFormat::Clap => "CLAP",
            PackageFormat::Vst3 => "VST3",
            PackageFormat::Au => "Components",
        }
    }
}

/// The list with `f` added at the end, unless it holds `f` already.
pub open spec fn with_format(formats: Seq<PackageFormat>, f: PackageFormat) -> Seq<PackageFormat> {
    if formats.contains(f) {
        formats
    } else {
        formats.push(f)
    }
}

pub fn contains_format(formats: &Vec<PackageFormat>, format: PackageFormat) -> (r: bool)
    ensures
        r == formats@.contains(format),
{
    let mut i: usize = 0;
    while i < formats.len()
        invariant
            i <= formats.len(),
            forall|j: int| 0 <= j < i ==> #[trigger] formats@[j] != format,
        decreases formats.len() - i,
    {
        if formats[i] == format {
            return true;
        }
        i = i + 1;
    }
    false
}

/// Adds a format unless it is listed already.
pub fn push_format(formats: &mut Vec<PackageFormat>, format: PackageFormat)
    ensures
        final(formats)@ == with_format(old(formats)@, format),
{
    if !contains_format(formats, format) {
        formats.push(format);
    }
}

/// Options of `xtask package`.
#[derive(Debug)]
pub struct Options {
    pub profile: BuildProfile,
    pub formats: Vec<PackageFormat>,
    pub install: bool,
}

/// What the `package` arguments ask for.
#[derive(Debug)]
pub enum PackageCommand {
    Package(Options),
    /// `--help` or `-h`: print the usage and stop.
    Help,
}

/// The meaning of the `package` arguments, as plain values.
pub enum ArgsOutcome {
    Package { profile: BuildProfile, formats: Seq<PackageFormat>, install: bool },
    Help,
    Failed { message: Seq<char> },
}

/// Reading the arguments from `i` on, with the options read so far. Later flags win;
/// formats are listed once each, in the order first named; CLAP when none is named.
pub open spec fn parse_args_from(
    args: Seq<Seq<char>>,
    i: int,
    profile: BuildProfile,
    formats: Seq<PackageFormat>,
    install: bool,
    platform: Platform,
) -> ArgsOutcome
    decreases args.len() - i,
{
    if i < 0 || i >= args.len() {
        ArgsOutcome::Package {
            profile,
            formats: if formats.len() == 0 {
                seq![PackageFormat::Clap]
            } else {
                formats
            },
            install,
        }
    } else {
        let arg = args[i];
        if arg == "--release"@ {
            parse_args_from(args, i + 1, BuildProfile::Release, formats, install, platform)
        } else if arg == "--debug"@ {
            parse_args_from(args, i + 1, BuildProfile::Debug, formats, install, platform)
        } else if arg == "--install"@ {
            parse_args_from(args, i + 1, profile, formats, true, platform)
        } else if arg == "--all-formats"@ {
            let both = with_format(with_format(formats, PackageFormat::Clap), PackageFormat::Vst3);
            let all = if platform == Platform::MacOs {
                with_format(both, PackageFormat::Au)
            } else {
                both
            };
            parse_args_from(args, i + 1, profile, all, install, platform)
        } else if arg == "--format"@ {
            if i + 1 >= args.len() {
                ArgsOutcome::Failed { message: "--format requires a value"@ }
            } else {
                match format_named(args[i + 1]) {
                    Some(f) => parse_args_from(
                        args,
                        i + 2,
                        profile,
                        with_format(formats, f),
                        install,
                        platform,
                    ),
                    None => ArgsOutcome::Failed { message: "unsupported format: "@ + args[i + 1] },
                }
            }
        } else if arg == "--help"@ || arg == "-h"@ {
            ArgsOutcome::Help
        } else {
            ArgsOutcome::Failed { message: "unknown package flag: "@ + arg }
        }
    }
}

pub open spec fn texts_of(args: Seq<String>) -> Seq<Seq<char>> {
    args.map_values(|s: String| s@)
}

/// What `parse_package_args` returns, as plain values.
pub open spec fn command_outcome(r: Result<PackageCommand, String>) -> ArgsOutcome {
    match r {
        Ok(PackageCommand::Package(o)) => ArgsOutcome::Package {
            profile: o.profile,
            formats: o.formats@,
            install: o.install,
        },
        Ok(PackageCommand::Help) => ArgsOutcome::Help,
        Err(e) => ArgsOutcome::Failed { message: e@ },
    }
}

/// Reads the arguments of `xtask package` (see `parse_args_from`): release profile, no
/// install and CLAP by default.
pub fn parse_package_args(args: Vec<String>, platform: Platform) -> (r: Result<PackageCommand, String>)
    ensures
        command_outcome(r) == parse_args_from(
            texts_of(args@),
            0,
            BuildProfile::Release,
            Seq::<PackageFormat>::empty(),
            false,
            platform,
        ),
{
    let ghost a = texts_of(args@);
    let mut profile = BuildProfile::Release;
    let mut formats: Vec<PackageFormat> = Vec::new();
    let mut install = false;
    let mut i: usize = 0;
    while i < args.len()
        invariant
            i <= args.len(),
            a == texts_of(args@),
            parse_args_from(a, i as int, profile, formats@, install, platform) == parse_args_from(
                a,
                0,
                BuildProfile::Release,
                Seq::<PackageFormat>::empty(),
                false,
                platform,
            ),
        decreases args.len() - i,
    {
        let arg = args[i].as_str();
        assert(a[i as int] == arg@);
        if str_eq(arg, "--release") {
            profile = BuildProfile::Release;
            i = i + 1;
        } else if str_eq(arg, "--debug") {
            profile = BuildProfile::Debug;
            i = i + 1;
        } else if str_eq(arg, "--install") {
            install = true;
            i = i + 1;
        } else if str_eq(arg, "--all-formats") {
            push_format(&mut formats, PackageFormat::Clap);
            push_format(&mut formats, PackageFormat::Vst3);
            if platform == Platform::MacOs {
                push_format(&mut formats, PackageFormat::Au);
            }
            i = i + 1;
        } else if str_eq(arg, "--format") {
            if i + 1 >= args.len() {
                return Err(to_string("--format requires a value"));
            }
            assert(a[i + 1] == args@[i + 1]@);
            let format = match PackageFormat::parse(args[i + 1].as_str()) {
                Ok(f) => f,
                Err(e) => return Err(e),
            };
            push_format(&mut formats, format);
            i = i + 2;
        } else if str_eq(arg, "--help") || str_eq(arg, "-h") {
            return Ok(PackageCommand::Help);
        } else {
            let mut e = to_string("unknown package flag: ");
            push_str(&mut e, arg);
            return Err(e);
        }
    }
    assert(a.len() == args.len());
    if formats.len() == 0 {
        formats.push(PackageFormat::Clap);
        assert(formats@ =~= seq![PackageFormat::Clap]);
    }
    Ok(PackageCommand::Package(Options { profile, formats, install }))
}

/// The name of the compiler worker's executable.
pub fn compiler_worker_binary_name(platform: Platform) -> (r: &'static str)
    ensures
        r@ == (if platform == Platform::Windows {
            "mimium-compiler-worker.exe"@
        } else {
            "mimium-compiler-worker"@
        }),
{
    if platform == Platform::Windows {
        "mimium-compiler-worker.exe"
    } else {
        "mimium-compiler-worker"
    }
}

/// Every `-` replaced by `_`.
pub open spec fn dashes_to_underscores(s: Seq<char>) -> Seq<char> {
    s.map_values(|c: char| if c == '-' { '_' } else { c })
}

/// The file name of the plugin's dynamic library as cargo builds it.
pub open spec fn spec_cdylib_name(platform: Platform) -> Seq<char> {
    let base = dashes_to_underscores(CARGO_PACKAGE_NAME@);
    match platform {
        Platform::MacOs => "lib"@ + base + ".dylib"@,
        Platform::Windows => base + ".dll"@,
        Platform::Other => "lib"@ + base + ".so"@,
    }
}

fn replace_dashes(s: &str) -> (r: String)
    ensures
        r@ == dashes_to_underscores(s@),
{
    let v = crate::text::chars_of(s);
    let mut r = String::new();
    let mut i: usize = 0;
    while i < v.len()
        invariant
            i <= v.len(),
            v@ == s@,
            r@ == dashes_to_underscores(s@).take(i as int),
        decreases v.len() - i,
    {
        let c = if v[i] == '-' {
            '_'
        } else {
            v[i]
        };
        crate::text::push_char(&mut r, c);
        assert(r@ =~= dashes_to_underscores(s@).take(i + 1));
        i = i + 1;
    }
    assert(dashes_to_underscores(s@).take(v.len() as int) =~= dashes_to_underscores(s@));
    r
}

/// The file name of the plugin's dynamic library as cargo builds it.
pub fn rust_cdylib_name(platform: Platform) -> (r: String)
    ensures
        r@ == spec_cdylib_name(platform),
{
    let base = replace_dashes(CARGO_PACKAGE_NAME);
    match platform {
        Platform::MacOs => {
            let mut r = to_string("lib");
            push_str(&mut r, base.as_str());
            push_str(&mut r, ".dylib");
            r
        },
        Platform::Windows => {
            let mut r = to_string(base.as_str());
            push_str(&mut r, ".dll");
            r
        },
        Platform::Other => {
            let mut r = to_string("lib");
            push_str(&mut r, base.as_str());
            push_str(&mut r, ".so");
            r
        },
    }
}

/// What `xtask` was asked to do.
#[derive(Debug)]
pub enum XtaskCommand {
    /// Print the usage.
    Usage,
    /// Package, with the arguments that follow.
    Package,
}

/// The meaning of the first argument: none or a help flag print the usage, `package`
/// packages, anything else is refused.
pub fn parse_command(first: Option<&str>) -> (r: Result<XtaskCommand, String>)
    ensures
        match first {
            None => r matches Ok(XtaskCommand::Usage),
            Some(c) => if c@ == "package"@ {
                r matches Ok(XtaskCommand::Package)
            } else if c@ == "help"@ || c@ == "--help"@ || c@ == "-h"@ {
                r matches Ok(XtaskCommand::Usage)
            } else {
                r matches Err(e) && e@ == "unknown xtask command: "@ + c@
            },
        },
{
    match first {
        None => Ok(XtaskCommand::Usage),
        Some(c) => if str_eq(c, "package") {
            Ok(XtaskCommand::Package)
        } else if str_eq(c, "help") || str_eq(c, "--help") || str_eq(c, "-h") {
            Ok(XtaskCommand::Usage)
        } else {
            let mut e = to_string("unknown xtask command: ");
            push_str(&mut e, c);
            Err(e)
        },
    }
}

/// The wrapper targets to build for these formats, in order.
pub open spec fn target_names(formats: Seq<PackageFormat>) -> Seq<Seq<char>>
    decreases formats.len(),
{
    if formats.len() == 0 {
        Seq::<Seq<char>>::empty()
    } else {
        let rest = target_names(formats.drop_last());
        match spec_target_name(formats.last()) {
            Some(t) => rest.push(t),
            None => rest,
        }
    }
}

pub fn wrapper_target_names(formats: &Vec<PackageFormat>) -> (r: Vec<String>)
    ensures
        texts_of(r@) == target_names(formats@),
{
    let mut r: Vec<String> = Vec::new();
    let mut i: usize = 0;
    while i < formats.len()
        invariant
            i <= formats.len(),
            texts_of(r@) == target_names(formats@.take(i as int)),
        decreases formats.len() - i,
    {
        assert(formats@.take(i + 1).drop_last() =~= formats@.take(i as int));
        match formats[i].target_name() {
            Some(t) => {
                r.push(to_string(t));
                assert(texts_of(r@) =~= target_names(formats@.take(i as int)).push(t@));
            },
            None => {},
        }
        i = i + 1;
    }
    assert(formats@.take(formats.len() as int) =~= formats@);
    r
}

/// What `package` builds, before it touches anything.
#[derive(Debug)]
pub struct PackagePlan {
    /// Stage the plain CLAP artifact.
    pub stage_clap: bool,
    /// Build the wrapped formats.
    pub use_wrapper: bool,
}

pub open spec fn any_requires_wrapper(formats: Seq<PackageFormat>) -> bool {
    exists|i: int| 0 <= i < formats.len() && spec_requires_wrapper(#[trigger] formats[i])
}

/// AU is refused off macOS; CLAP is staged when asked for, the wrapper used when a wrapped
/// format is asked for.
pub fn package_plan(options: &Options, platform: Platform) -> (r: Result<PackagePlan, String>)
    ensures
        platform != Platform::MacOs && options.formats@.contains(PackageFormat::Au) ==> (r matches Err(e)
            && e@ == "au packaging is only supported on macOS"@),
        !(platform != Platform::MacOs && options.formats@.contains(PackageFormat::Au)) ==> (r matches Ok(p)
            && p.stage_clap == options.formats@.contains(PackageFormat::Clap) && p.use_wrapper
            == any_requires_wrapper(options.formats@)),
        r matches Ok(p) ==> p.use_wrapper == (options.formats@.contains(PackageFormat::Vst3)
            || options.formats@.contains(PackageFormat::Au)),
{
    proof {
        law_wrapper_needed_for_vst3_and_au(options.formats@);
    }
    if platform != Platform::MacOs && contains_format(&options.formats, PackageFormat::Au) {
        return Err(to_string("au packaging is only supported on macOS"));
    }
    let stage_clap = contains_format(&options.formats, PackageFormat::Clap);
    let mut use_wrapper = false;
    let mut i: usize = 0;
    while i < options.formats.len()
        invariant
            i <= options.formats.len(),
            use_wrapper == exists|j: int|
                0 <= j < i && spec_requires_wrapper(#[trigger] options.formats@[j]),
        decreases options.formats.len() - i,
    {
        if options.formats[i].requires_wrapper() {
            use_wrapper = true;
        }
        i = i + 1;
    }
    Ok(PackagePlan { stage_clap, use_wrapper })
}

/// Where each packaged format comes from, in the order asked.
#[derive(Debug)]
pub enum ArtifactStep {
    /// The staged CLAP artifact, at this path.
    UseClap(String),
    /// CLAP was asked for but nothing was staged: `requested clap artifact is missing`.
    MissingClap,
    /// Copy the wrapper's build of this format into the package folder.
    StageWrapper(PackageFormat),
}

pub open spec fn step_for(f: PackageFormat, clap: Option<Seq<char>>, step: ArtifactStep) -> bool {
    match f {
        PackageFormat::Clap => match clap {
            Some(p) => step matches ArtifactStep::UseClap(q) && q@ == p,
            None => step matches ArtifactStep::MissingClap,
        },
        _ => step == ArtifactStep::StageWrapper(f),
    }
}

pub fn artifact_steps(formats: &Vec<PackageFormat>, clap_artifact: Option<&str>) -> (r: Vec<ArtifactStep>)
    ensures
        r@.len() == formats@.len(),
        forall|i: int|
            0 <= i < formats@.len() ==> step_for(
                formats@[i],
                match clap_artifact {
                    Some(p) => Some(p@),
                    None => None,
                },
                #[trigger] r@[i],
            ),
        forall|i: int|
            0 <= i < formats@.len() && formats@[i] != PackageFormat::Clap ==> #[trigger] r@[i]
                == ArtifactStep::StageWrapper(formats@[i]),
        forall|i: int|
            0 <= i < formats@.len() && formats@[i] == PackageFormat::Clap ==> match clap_artifact {
                Some(p) => #[trigger] r@[i] matches ArtifactStep::UseClap(q) && q@ == p@,
                None => r@[i] matches ArtifactStep::MissingClap,
            },
{
    let ghost clap = match clap_artifact {
        Some(p) => Some(p@),
        None => None,
    };
    let mut r: Vec<ArtifactStep> = Vec::new();
    let mut i: usize = 0;
    while i < formats.len()
        invariant
            i <= formats.len(),
            r@.len() == i,
            clap == match clap_artifact {
                Some(p) => Some(p@),
                None => None,
            },
            forall|j: int| 0 <= j < i ==> step_for(formats@[j], clap, #[trigger] r@[j]),
        decreases formats.len() - i,
    {
        let f = formats[i];
        let step = match f {
            PackageFormat::Clap => match clap_artifact {
                Some(p) => ArtifactStep::UseClap(to_string(p)),
                None => ArtifactStep::MissingClap,
            },
            _ => ArtifactStep::StageWrapper(f),
        };
        r.push(step);
        i = i + 1;
    }
    proof {
        assert forall|i: int|
            0 <= i < formats@.len() && formats@[i] != PackageFormat::Clap implies #[trigger] r@[i]
                == ArtifactStep::StageWrapper(formats@[i]) by {
            law_wrapped_steps_stage_their_own_format(formats@[i], clap, r@[i]);
        }
        assert forall|i: int|
            0 <= i < formats@.len() && formats@[i] == PackageFormat::Clap implies match clap_artifact {
                Some(p) => #[trigger] r@[i] matches ArtifactStep::UseClap(q) && q@ == p@,
                None => r@[i] matches ArtifactStep::MissingClap,
            } by {
            law_clap_step_uses_the_staged_artifact(clap, r@[i]);
        }
    }
    r
}

/// An environment value, unless it is missing or blank; the default otherwise.
pub fn env_or_default(value: Option<&str>, default: &str) -> (r: String)
    ensures
        r@ == match value {
            Some(v) => if crate::text::trim(v@).len() > 0 {
                v@
            } else {
                default@
            },
            None => default@,
        },
{
    match value {
        Some(v) => {
            let t = crate::text::trim_str(v);
            if t.as_str().is_empty() {
                to_string(default)
            } else {
                to_string(v)
            }
        },
        None => to_string(default),
    }
}

/// `{PRODUCT_NAME}.{extension}`: the bundle the wrapper builds for a format.
pub fn wrapper_bundle_name(format: PackageFormat) -> (r: String)
    ensures
        r@ == PRODUCT_NAME@ + "."@ + spec_bundle_extension(format),
{
    let mut r = to_string(PRODUCT_NAME);
    push_str(&mut r, ".");
    push_str(&mut r, format.bundle_extension());
    r
}

/// The packaged CLAP plugin, on every system: `{PRODUCT_SLUG}.clap` (a bundle of that name on
/// macOS, a file elsewhere).
pub fn packaged_clap_name() -> (r: String)
    ensures
        r@ == PRODUCT_SLUG@ + ".clap"@,
{
    let mut r = to_string(PRODUCT_SLUG);
    push_str(&mut r, ".clap");
    r
}

/// The folder, below the workspace root, that holds the packages of a profile.
pub fn package_dir_parts(profile: BuildProfile) -> (r: Vec<String>)
    ensures
        texts_of(r@) == seq!["target"@, "package"@, (if profile == BuildProfile::Debug {
            "debug"@
        } else {
            "release"@
        })],
{
    let mut r: Vec<String> = Vec::new();
    r.push(to_string("target"));
    r.push(to_string("package"));
    let dir = profile.dir_name();
    r.push(to_string(dir));
    assert(texts_of(r@) =~= seq!["target"@, "package"@, dir@]);
    r
}

/// The CLAP plugin staged for the clap-wrapper build (an internal step): a bundle named
/// after the product on macOS, a file named after the slug elsewhere.
pub fn staged_clap_bundle_name(platform: Platform) -> (r: String)
    ensures
        r@ == (if platform == Platform::MacOs {
            PRODUCT_NAME@ + ".clap"@
        } else {
            PRODUCT_SLUG@ + ".clap"@
        }),
{
    let mut r = if platform == Platform::MacOs {
        to_string(PRODUCT_NAME)
    } else {
        to_string(PRODUCT_SLUG)
    };
    push_str(&mut r, ".clap");
    r
}

/// The arguments of a cargo build of a package in a profile.
pub fn cargo_build_args(package: &str, profile: BuildProfile) -> (r: Vec<String>)
    ensures
        texts_of(r@) == if profile == BuildProfile::Release {
            seq!["build"@, "-p"@, package@, "--release"@]
        } else {
            seq!["build"@, "-p"@, package@]
        },
{
    let mut r: Vec<String> = Vec::new();
    r.push(to_string("build"));
    r.push(to_string("-p"));
    r.push(to_string(package));
    if let Some(flag) = profile.cargo_flag() {
        r.push(to_string(flag));
    }
    if profile == BuildProfile::Release {
        assert(texts_of(r@) =~= seq!["build"@, "-p"@, package@, "--release"@]);
    } else {
        assert(texts_of(r@) =~= seq!["build"@, "-p"@, package@]);
    }
    r
}

/// The arguments of the CMake build of the wrapper, or none when no wrapped format was asked
/// for.
pub fn wrapper_build_args(
    build_dir: &str,
    formats: &Vec<PackageFormat>,
    profile: BuildProfile,
    platform: Platform,
) -> (r: Option<Vec<String>>)
    ensures
        target_names(formats@).len() == 0 ==> r is None,
        target_names(formats@).len() > 0 ==> (r matches Some(args) && texts_of(args@) == seq![
            "--build"@,
            build_dir@,
        ] + (if platform == Platform::Windows {
            seq!["--config"@, (if profile == BuildProfile::Debug {
                "Debug"@
            } else {
                "Release"@
            })]
        } else {
            Seq::<Seq<char>>::empty()
        }) + seq!["--target"@] + target_names(formats@)),
{
    let names = wrapper_target_names(formats);
    if names.len() == 0 {
        return None;
    }
    let mut r: Vec<String> = Vec::new();
    r.push(to_string("--build"));
    r.push(to_string(build_dir));
    if platform == Platform::Windows {
        r.push(to_string("--config"));
        r.push(to_string(profile.cmake_name()));
    }
    r.push(to_string("--target"));
    let ghost head = texts_of(r@);
    let mut i: usize = 0;
    while i < names.len()
        invariant
            i <= names.len(),
            texts_of(r@) == head + texts_of(names@).take(i as int),
        decreases names.len() - i,
    {
        let n = names[i].clone();
        assert(n@ == texts_of(names@)[i as int]);
        let ghost prev = texts_of(r@);
        r.push(n);
        assert(texts_of(r@) =~= prev.push(texts_of(names@)[i as int]));
        assert(texts_of(r@) =~= head + texts_of(names@).take(i + 1));
        i = i + 1;
    }
    assert(texts_of(names@).take(names.len() as int) =~= texts_of(names@));
    if platform == Platform::Windows {
        assert(head =~= seq!["--build"@, build_dir@] + seq!["--config"@, (if profile
            == BuildProfile::Debug {
            "Debug"@
        } else {
            "Release"@
        })] + seq!["--target"@]);
    } else {
        assert(head =~= seq!["--build"@, build_dir@] + Seq::<Seq<char>>::empty() + seq![
            "--target"@,
        ]);
    }
    Some(r)
}

/// Where the wrapper build finds its inputs, and the AUv2 identity (values already defaulted).
#[derive(Debug)]
pub struct WrapperConfig {
    pub packaging_dir: String,
    pub build_dir: String,
    pub wrapper_root: String,
    pub clap_bundle: String,
    pub version: String,
    pub auv2_manufacturer_name: String,
    pub auv2_manufacturer_code: String,
    pub auv2_subtype_code: String,
    pub auv2_instrument_type: String,
    pub clap_sdk_root: Option<String>,
    pub vst3_sdk_root: Option<String>,
}

/// `-D{name}={value}`.
pub open spec fn define_arg(name: Seq<char>, value: Seq<char>) -> Seq<char> {
    "-D"@ + name + "="@ + value
}

pub open spec fn optional_define(name: Seq<char>, value: Option<String>) -> Seq<Seq<char>> {
    match value {
        Some(v) => seq![define_arg(name, v@)],
        None => Seq::<Seq<char>>::empty(),
    }
}

/// The arguments of the CMake configuration of the wrapper project.
pub open spec fn configure_args(
    c: WrapperConfig,
    formats: Seq<PackageFormat>,
    profile: BuildProfile,
    platform: Platform,
) -> Seq<Seq<char>> {
    seq![
        "-S"@,
        c.packaging_dir@,
        "-B"@,
        c.build_dir@,
        define_arg("CLAP_WRAPPER_ROOT"@, c.wrapper_root@),
        define_arg("CLAP_PLUGIN_BUNDLE"@, c.clap_bundle@),
        define_arg("CLAP_WRAPPER_OUTPUT_NAME"@, PRODUCT_NAME@),
        define_arg("CLAP_WRAPPER_BUNDLE_IDENTIFIER"@, BUNDLE_IDENTIFIER@),
        define_arg("CLAP_WRAPPER_BUNDLE_VERSION"@, c.version@),
        define_arg("CLAP_WRAPPER_DOWNLOAD_DEPENDENCIES"@, "TRUE"@),
    ] + (if platform == Platform::MacOs && formats.contains(PackageFormat::Au) {
        seq![
            define_arg("CLAP_WRAPPER_BUILD_AUV2"@, "ON"@),
            define_arg("CLAP_WRAPPER_AUV2_MANUFACTURER_NAME"@, c.auv2_manufacturer_name@),
            define_arg("CLAP_WRAPPER_AUV2_MANUFACTURER_CODE"@, c.auv2_manufacturer_code@),
            define_arg("CLAP_WRAPPER_AUV2_SUBTYPE_CODE"@, c.auv2_subtype_code@),
            define_arg("CLAP_WRAPPER_AUV2_INSTRUMENT_TYPE"@, c.auv2_instrument_type@),
        ]
    } else {
        Seq::<Seq<char>>::empty()
    }) + optional_define("CLAP_SDK_ROOT"@, c.clap_sdk_root) + optional_define(
        "VST3_SDK_ROOT"@,
        c.vst3_sdk_root,
    ) + (if platform == Platform::MacOs {
        seq![
            define_arg(
                "CMAKE_BUILD_TYPE"@,
                if profile == BuildProfile::Debug {
                    "Debug"@
                } else {
                    "Release"@
                },
            ),
        ]
    } else {
        Seq::<Seq<char>>::empty()
    })
}

fn define(name: &str, value: &str) -> (r: String)
    ensures
        r@ == define_arg(name@, value@),
{
    let mut r = to_string("-D");
    push_str(&mut r, name);
    push_str(&mut r, "=");
    push_str(&mut r, value);
    r
}

fn push_arg(args: &mut Vec<String>, arg: String)
    ensures
        texts_of(final(args)@) == texts_of(old(args)@).push(arg@),
{
    let ghost prev = texts_of(args@);
    let ghost a = arg@;
    args.push(arg);
    assert(texts_of(args@) =~= prev.push(a));
}

/// The arguments of the CMake configuration of the wrapper project (see `configure_args`).
pub fn wrapper_configure_args(
    c: &WrapperConfig,
    formats: &Vec<PackageFormat>,
    profile: BuildProfile,
    platform: Platform,
) -> (r: Vec<String>)
    ensures
        texts_of(r@) == configure_args(*c, formats@, profile, platform),
{
    let mut r: Vec<String> = Vec::new();
    push_arg(&mut r, to_string("-S"));
    push_arg(&mut r, c.packaging_dir.clone());
    push_arg(&mut r, to_string("-B"));
    push_arg(&mut r, c.build_dir.clone());
    push_arg(&mut r, define("CLAP_WRAPPER_ROOT", c.wrapper_root.as_str()));
    push_arg(&mut r, define("CLAP_PLUGIN_BUNDLE", c.clap_bundle.as_str()));
    push_arg(&mut r, define("CLAP_WRAPPER_OUTPUT_NAME", PRODUCT_NAME));
    push_arg(&mut r, define("CLAP_WRAPPER_BUNDLE_IDENTIFIER", BUNDLE_IDENTIFIER));
    push_arg(&mut r, define("CLAP_WRAPPER_BUNDLE_VERSION", c.version.as_str()));
    push_arg(&mut r, define("CLAP_WRAPPER_DOWNLOAD_DEPENDENCIES", "TRUE"));
    let ghost base = texts_of(r@);
    let au = platform == Platform::MacOs && contains_format(formats, PackageFormat::Au);
    if au {
        push_arg(&mut r, define("CLAP_WRAPPER_BUILD_AUV2", "ON"));
        push_arg(
            &mut r,
            define("CLAP_WRAPPER_AUV2_MANUFACTURER_NAME", c.auv2_manufacturer_name.as_str()),
        );
        push_arg(
            &mut r,
            define("CLAP_WRAPPER_AUV2_MANUFACTURER_CODE", c.auv2_manufacturer_code.as_str()),
        );
        push_arg(&mut r, define("CLAP_WRAPPER_AUV2_SUBTYPE_CODE", c.auv2_subtype_code.as_str()));
        push_arg(
            &mut r,
            define("CLAP_WRAPPER_AUV2_INSTRUMENT_TYPE", c.auv2_instrument_type.as_str()),
        );
    }
    let ghost with_au = texts_of(r@);
    if let Some(root) = &c.clap_sdk_root {
        push_arg(&mut r, define("CLAP_SDK_ROOT", root.as_str()));
    }
    let ghost with_clap = texts_of(r@);
    if let Some(root) = &c.vst3_sdk_root {
        push_arg(&mut r, define("VST3_SDK_ROOT", root.as_str()));
    }
    let ghost with_vst3 = texts_of(r@);
    if platform == Platform::MacOs {
        push_arg(&mut r, define("CMAKE_BUILD_TYPE", profile.cmake_name()));
    }
    proof {
        let spec = configure_args(*c, formats@, profile, platform);
        let head = seq![
            "-S"@,
            c.packaging_dir@,
            "-B"@,
            c.build_dir@,
            define_arg("CLAP_WRAPPER_ROOT"@, c.wrapper_root@),
            define_arg("CLAP_PLUGIN_BUNDLE"@, c.clap_bundle@),
            define_arg("CLAP_WRAPPER_OUTPUT_NAME"@, PRODUCT_NAME@),
            define_arg("CLAP_WRAPPER_BUNDLE_IDENTIFIER"@, BUNDLE_IDENTIFIER@),
            define_arg("CLAP_WRAPPER_BUNDLE_VERSION"@, c.version@),
            define_arg("CLAP_WRAPPER_DOWNLOAD_DEPENDENCIES"@, "TRUE"@),
        ];
        assert(base =~= head);
        let au_part = if platform == Platform::MacOs && formats@.contains(PackageFormat::Au) {
            seq![
                define_arg("CLAP_WRAPPER_BUILD_AUV2"@, "ON"@),
                define_arg("CLAP_WRAPPER_AUV2_MANUFACTURER_NAME"@, c.auv2_manufacturer_name@),
                define_arg("CLAP_WRAPPER_AUV2_MANUFACTURER_CODE"@, c.auv2_manufacturer_code@),
                define_arg("CLAP_WRAPPER_AUV2_SUBTYPE_CODE"@, c.auv2_subtype_code@),
                define_arg("CLAP_WRAPPER_AUV2_INSTRUMENT_TYPE"@, c.auv2_instrument_type@),
            ]
        } else {
            Seq::<Seq<char>>::empty()
        };
        assert(with_au =~= head + au_part);
        assert(with_clap =~= head + au_part + optional_define("CLAP_SDK_ROOT"@, c.clap_sdk_root));
        assert(with_vst3 =~= head + au_part + optional_define("CLAP_SDK_ROOT"@, c.clap_sdk_root)
            + optional_define("VST3_SDK_ROOT"@, c.vst3_sdk_root));
        assert(texts_of(r@) =~= spec);
    }
    r
}

pub const PLIST_HEAD: &'static str = "<?xml version=\"1.0\" encoding=\"UTF-8\"?>\n<!DOCTYPE plist PUBLIC \"-//Apple//DTD PLIST 1.0//EN\" \"http://www.apple.com/DTDs/PropertyList-1.0.dtd\">\n<plist version=\"1.0\">\n<dict>\n  <key>CFBundleDevelopmentRegion</key>\n  <string>en</string>\n  <key>CFBundleExecutable</key>\n  <string>";

pub const PLIST_AFTER_EXECUTABLE: &'static str = "</string>\n  <key>CFBundleIdentifier</key>\n  <string>";

pub const PLIST_AFTER_IDENTIFIER: &'static str = ".clap</string>\n  <key>CFBundleName</key>\n  <string>";

pub const PLIST_AFTER_NAME: &'static str = "</string>\n  <key>CFBundlePackageType</key>\n  <string>BNDL</string>\n  <key>CFBundleShortVersionString</key>\n  <string>";

pub const PLIST_AFTER_SHORT_VERSION: &'static str = "</string>\n  <key>CFBundleVersion</key>\n  <string>";

pub const PLIST_TAIL: &'static str = "</string>\n</dict>\n</plist>\n";

/// The `Info.plist` of the CLAP bundle for a plugin version.
pub open spec fn info_plist(version: Seq<char>) -> Seq<char> {
    PLIST_HEAD@ + PRODUCT_SLUG@ + PLIST_AFTER_EXECUTABLE@ + BUNDLE_IDENTIFIER@
        + PLIST_AFTER_IDENTIFIER@ + PRODUCT_NAME@ + PLIST_AFTER_NAME@ + version
        + PLIST_AFTER_SHORT_VERSION@ + version + PLIST_TAIL@
}

pub fn clap_info_plist(version: &str) -> (r: String)
    ensures
        r@ == info_plist(version@),
{
    let mut r = to_string(PLIST_HEAD);
    push_str(&mut r, PRODUCT_SLUG);
    push_str(&mut r, PLIST_AFTER_EXECUTABLE);
    push_str(&mut r, BUNDLE_IDENTIFIER);
    push_str(&mut r, PLIST_AFTER_IDENTIFIER);
    push_str(&mut r, PRODUCT_NAME);
    push_str(&mut r, PLIST_AFTER_NAME);
    push_str(&mut r, version);
    push_str(&mut r, PLIST_AFTER_SHORT_VERSION);
    push_str(&mut r, version);
    push_str(&mut r, PLIST_TAIL);
    r
}

/// Where clap-wrapper is looked for: a set `CLAP_WRAPPER_ROOT` first (an error when that path
/// does not exist), else the default place in the workspace, when it exists. The `*_exists`
/// arguments say whether each path exists.
pub fn clap_wrapper_root_choice(
    env_root: Option<String>,
    env_root_exists: bool,
    default_root: String,
    default_exists: bool,
) -> (r: Result<String, String>)
    ensures
        match env_root {
            Some(p) => if env_root_exists {
                r matches Ok(q) && q@ == p@
            } else {
                r matches Err(e) && e@ == "CLAP_WRAPPER_ROOT does not exist: "@ + p@
            },
            None => if default_exists {
                r matches Ok(q) && q@ == default_root@
            } else {
                r matches Err(e) && e@ == "clap-wrapper not found. Set CLAP_WRAPPER_ROOT or place it at "@
                    + default_root@
            },
        },
{
    match env_root {
        Some(p) => if env_root_exists {
            Ok(p)
        } else {
            let mut e = to_string("CLAP_WRAPPER_ROOT does not exist: ");
            push_str(&mut e, p.as_str());
            Err(e)
        },
        None => if default_exists {
            Ok(default_root)
        } else {
            let mut e = to_string("clap-wrapper not found. Set CLAP_WRAPPER_ROOT or place it at ");
            push_str(&mut e, default_root.as_str());
            Err(e)
        },
    }
}

/// Every list of formats that `parse_package_args` gives is non-empty and names each
/// format once; AU is among them only when asked for by name or on macOS.
pub proof fn law_parsed_formats_are_distinct(
    args: Seq<Seq<char>>,
    i: int,
    profile: BuildProfile,
    formats: Seq<PackageFormat>,
    install: bool,
    platform: Platform,
)
    requires
        formats.no_duplicates(),
    ensures
        parse_args_from(args, i, profile, formats, install, platform) matches ArgsOutcome::Package {
            formats: out,
            ..
        } ==> out.len() > 0 && out.no_duplicates(),
    decreases args.len() - i,
{
    if i < 0 || i >= args.len() {
        if formats.len() == 0 {
            assert(seq![PackageFormat::Clap].no_duplicates());
        }
    } else {
        let arg = args[i];
        if arg == "--release"@ || arg == "--debug"@ || arg == "--install"@ {
            law_parsed_formats_are_distinct(args, i + 1, BuildProfile::Release, formats, install, platform);
            law_parsed_formats_are_distinct(args, i + 1, BuildProfile::Debug, formats, install, platform);
            law_parsed_formats_are_distinct(args, i + 1, profile, formats, true, platform);
        } else if arg == "--all-formats"@ {
            let one = with_format(formats, PackageFormat::Clap);
            lemma_with_format_distinct(formats, PackageFormat::Clap);
            let both = with_format(one, PackageFormat::Vst3);
            lemma_with_format_distinct(one, PackageFormat::Vst3);
            lemma_with_format_distinct(both, PackageFormat::Au);
            let all = if platform == Platform::MacOs {
                with_format(both, PackageFormat::Au)
            } else {
                both
            };
            law_parsed_formats_are_distinct(args, i + 1, profile, all, install, platform);
        } else if arg == "--format"@ {
            if i + 1 < args.len() {
                if let Some(f) = format_named(args[i + 1]) {
                    lemma_with_format_distinct(formats, f);
                    law_parsed_formats_are_distinct(
                        args,
                        i + 2,
                        profile,
                        with_format(formats, f),
                        install,
                        platform,
                    );
                }
            }
        }
    }
}

proof fn lemma_with_format_distinct(formats: Seq<PackageFormat>, f: PackageFormat)
    requires
        formats.no_duplicates(),
    ensures
        with_format(formats, f).no_duplicates(),
        with_format(formats, f).contains(f),
{
    if !formats.contains(f) {
        let s = formats.push(f);
        assert(s[s.len() - 1] == f);
        assert forall|a: int, b: int| 0 <= a < s.len() && 0 <= b < s.len() && a != b implies s[a]
            != s[b] by {
            if a == s.len() - 1 {
                assert(formats[b] == s[b]);
            } else if b == s.len() - 1 {
                assert(formats[a] == s[a]);
            }
        }
    }
}

/// A format's name reads back as that format.
pub proof fn law_format_name_roundtrip(f: PackageFormat)
    ensures
        format_named(
            match f {
                PackageFormat::Clap => "clap"@,
                PackageFormat::Vst3 => "vst3"@,
                PackageFormat::Au => "au"@,
            },
        ) == Some(f),
{
    reveal_strlit("clap");
    reveal_strlit("vst3");
    reveal_strlit("au");
    assert("clap"@[0] != "vst3"@[0]);
    assert("clap"@[0] != "au"@[0]);
    assert("vst3"@[0] != "au"@[0]);
}

/// Exactly the formats other than CLAP are made by the wrapper, and they are exactly the
/// formats the wrapper has a build target for.
pub proof fn law_wrapper_formats(f: PackageFormat)
    ensures
        spec_requires_wrapper(f) <==> f != PackageFormat::Clap,
        spec_requires_wrapper(f) <==> spec_target_name(f) is Some,
{
}

/// A list of formats needs the wrapper exactly when it holds VST3 or AU.
pub proof fn law_wrapper_needed_for_vst3_and_au(formats: Seq<PackageFormat>)
    ensures
        any_requires_wrapper(formats) <==> (formats.contains(PackageFormat::Vst3)
            || formats.contains(PackageFormat::Au)),
{
    if any_requires_wrapper(formats) {
        let i = choose|i: int| 0 <= i < formats.len() && spec_requires_wrapper(#[trigger] formats[i]);
        law_wrapper_formats(formats[i]);
    }
    if formats.contains(PackageFormat::Vst3) {
        let i = choose|i: int| 0 <= i < formats.len() && formats[i] == PackageFormat::Vst3;
        assert(spec_requires_wrapper(formats[i]));
    }
    if formats.contains(PackageFormat::Au) {
        let i = choose|i: int| 0 <= i < formats.len() && formats[i] == PackageFormat::Au;
        assert(spec_requires_wrapper(formats[i]));
    }
}

/// A wrapped format's packaging step copies the wrapper's build of that same format.
pub proof fn law_wrapped_steps_stage_their_own_format(
    f: PackageFormat,
    clap: Option<Seq<char>>,
    step: ArtifactStep,
)
    requires
        f != PackageFormat::Clap,
        step_for(f, clap, step),
    ensures
        step == ArtifactStep::StageWrapper(f),
        step matches ArtifactStep::StageWrapper(g) && spec_bundle_extension(g) == spec_bundle_extension(f),
{
}

/// Whether `--format au` stands among the arguments from `i` on.
pub open spec fn names_format_au(args: Seq<Seq<char>>, i: int) -> bool {
    exists|j: int| 0 <= i <= j && j + 1 < args.len() && #[trigger] args[j] == "--format"@ && args[j + 1] == "au"@
}

proof fn lemma_with_format_contains(formats: Seq<PackageFormat>, f: PackageFormat, g: PackageFormat)
    ensures
        with_format(formats, f).contains(g) <==> (formats.contains(g) || f == g),
{
    if !formats.contains(f) {
        let s = formats.push(f);
        if s.contains(g) {
            let k = choose|k: int| 0 <= k < s.len() && s[k] == g;
            if k < formats.len() {
                assert(formats[k] == g);
            }
        }
        if formats.contains(g) {
            let k = choose|k: int| 0 <= k < formats.len() && formats[k] == g;
            assert(s[k] == g);
        }
        assert(s[s.len() - 1] == f);
    }
}

/// The parsed formats hold AU only when `--format au` was given or the packaging runs on
/// macOS: off macOS, `--all-formats` adds CLAP and VST3 alone.
pub proof fn law_au_only_on_request(
    args: Seq<Seq<char>>,
    i: int,
    profile: BuildProfile,
    formats: Seq<PackageFormat>,
    install: bool,
    platform: Platform,
)
    requires
        !formats.contains(PackageFormat::Au),
    ensures
        parse_args_from(args, i, profile, formats, install, platform) matches ArgsOutcome::Package {
            formats: out,
            ..
        } && out.contains(PackageFormat::Au) ==> platform == Platform::MacOs || names_format_au(args, i),
    decreases args.len() - i,
{
    if i < 0 || i >= args.len() {
        if formats.len() == 0 {
            let one = seq![PackageFormat::Clap];
            if one.contains(PackageFormat::Au) {
                let k = choose|k: int| 0 <= k < one.len() && one[k] == PackageFormat::Au;
                assert(one[k] == PackageFormat::Clap);
            }
        }
    } else {
        let arg = args[i];
        if arg == "--release"@ || arg == "--debug"@ || arg == "--install"@ {
            law_au_only_on_request(args, i + 1, BuildProfile::Release, formats, install, platform);
            law_au_only_on_request(args, i + 1, BuildProfile::Debug, formats, install, platform);
            law_au_only_on_request(args, i + 1, profile, formats, true, platform);
            lemma_names_format_au_from(args, i);
        } else if arg == "--all-formats"@ {
            if platform != Platform::MacOs {
                let one = with_format(formats, PackageFormat::Clap);
                lemma_with_format_contains(formats, PackageFormat::Clap, PackageFormat::Au);
                let both = with_format(one, PackageFormat::Vst3);
                lemma_with_format_contains(one, PackageFormat::Vst3, PackageFormat::Au);
                law_au_only_on_request(args, i + 1, profile, both, install, platform);
                lemma_names_format_au_from(args, i);
            }
        } else if arg == "--format"@ {
            if i + 1 < args.len() {
                if let Some(f) = format_named(args[i + 1]) {
                    if f == PackageFormat::Au {
                        assert(args[i + 1] == "au"@);
                        assert(names_format_au(args, i));
                    } else {
                        lemma_with_format_contains(formats, f, PackageFormat::Au);
                        law_au_only_on_request(
                            args,
                            i + 2,
                            profile,
                            with_format(formats, f),
                            install,
                            platform,
                        );
                        lemma_names_format_au_from(args, i);
                        lemma_names_format_au_from(args, i + 1);
                    }
                }
            }
        }
    }
}

proof fn lemma_names_format_au_from(args: Seq<Seq<char>>, i: int)
    requires
        0 <= i,
    ensures
        names_format_au(args, i + 1) ==> names_format_au(args, i),
{
    if names_format_au(args, i + 1) {
        let j = choose|j: int|
            0 <= i + 1 <= j && j + 1 < args.len() && #[trigger] args[j] == "--format"@ && args[j + 1] == "au"@;
        assert(args[j] == "--format"@);
    }
}

/// Each `-D` define of the wrapper's configuration carries the configuration field of its own
/// name; the AUv2 identity is passed on macOS when AU is asked for.
pub proof fn law_configure_defines_carry_their_fields(
    c: WrapperConfig,
    formats: Seq<PackageFormat>,
    profile: BuildProfile,
    platform: Platform,
)
    ensures
        configure_args(c, formats, profile, platform).contains(
            "-DCLAP_WRAPPER_ROOT="@ + c.wrapper_root@,
        ),
        configure_args(c, formats, profile, platform).contains(
            "-DCLAP_PLUGIN_BUNDLE="@ + c.clap_bundle@,
        ),
        configure_args(c, formats, profile, platform).contains(
            "-DCLAP_WRAPPER_BUNDLE_VERSION="@ + c.version@,
        ),
        configure_args(c, formats, profile, platform).take(4) == seq![
            "-S"@,
            c.packaging_dir@,
            "-B"@,
            c.build_dir@,
        ],
        configure_args(c, formats, profile, platform).contains(
            "-DCLAP_WRAPPER_OUTPUT_NAME=Mimium Audio Plugin"@,
        ),
        configure_args(c, formats, profile, platform).contains(
            "-DCLAP_WRAPPER_BUNDLE_IDENTIFIER=org.mimium.mimium-audio-plugin"@,
        ),
        c.clap_sdk_root matches Some(root) ==> configure_args(c, formats, profile, platform).contains(
            "-DCLAP_SDK_ROOT="@ + root@,
        ),
        c.vst3_sdk_root matches Some(root) ==> configure_args(c, formats, profile, platform).contains(
            "-DVST3_SDK_ROOT="@ + root@,
        ),
        platform == Platform::MacOs ==> configure_args(c, formats, profile, platform).last() == (
        if profile == BuildProfile::Debug {
            "-DCMAKE_BUILD_TYPE=Debug"@
        } else {
            "-DCMAKE_BUILD_TYPE=Release"@
        }),
        platform == Platform::MacOs && formats.contains(PackageFormat::Au) ==> {
            let args = configure_args(c, formats, profile, platform);
            &&& args.contains("-DCLAP_WRAPPER_AUV2_MANUFACTURER_NAME="@ + c.auv2_manufacturer_name@)
            &&& args.contains("-DCLAP_WRAPPER_AUV2_MANUFACTURER_CODE="@ + c.auv2_manufacturer_code@)
            &&& args.contains("-DCLAP_WRAPPER_AUV2_SUBTYPE_CODE="@ + c.auv2_subtype_code@)
            &&& args.contains("-DCLAP_WRAPPER_AUV2_INSTRUMENT_TYPE="@ + c.auv2_instrument_type@)
        },
{
    let args = configure_args(c, formats, profile, platform);
    reveal_strlit("-D");
    reveal_strlit("=");
    reveal_strlit("CLAP_WRAPPER_ROOT");
    reveal_strlit("-DCLAP_WRAPPER_ROOT=");
    assert("-DCLAP_WRAPPER_ROOT="@ =~= "-D"@ + "CLAP_WRAPPER_ROOT"@ + "="@);
    lemma_define_text("CLAP_WRAPPER_ROOT"@, "-DCLAP_WRAPPER_ROOT="@, c.wrapper_root@);
    assert(args[4] == "-DCLAP_WRAPPER_ROOT="@ + c.wrapper_root@);
    reveal_strlit("CLAP_PLUGIN_BUNDLE");
    reveal_strlit("-DCLAP_PLUGIN_BUNDLE=");
    assert("-DCLAP_PLUGIN_BUNDLE="@ =~= "-D"@ + "CLAP_PLUGIN_BUNDLE"@ + "="@);
    lemma_define_text("CLAP_PLUGIN_BUNDLE"@, "-DCLAP_PLUGIN_BUNDLE="@, c.clap_bundle@);
    assert(args[5] == "-DCLAP_PLUGIN_BUNDLE="@ + c.clap_bundle@);
    reveal_strlit("CLAP_WRAPPER_BUNDLE_VERSION");
    reveal_strlit("-DCLAP_WRAPPER_BUNDLE_VERSION=");
    assert("-DCLAP_WRAPPER_BUNDLE_VERSION="@ =~= "-D"@ + "CLAP_WRAPPER_BUNDLE_VERSION"@ + "="@);
    lemma_define_text("CLAP_WRAPPER_BUNDLE_VERSION"@, "-DCLAP_WRAPPER_BUNDLE_VERSION="@, c.version@);
    assert(args[8] == "-DCLAP_WRAPPER_BUNDLE_VERSION="@ + c.version@);
    assert(args.take(4) =~= seq!["-S"@, c.packaging_dir@, "-B"@, c.build_dir@]);
    reveal_strlit("CLAP_WRAPPER_OUTPUT_NAME");
    reveal_strlit("Mimium Audio Plugin");
    reveal_strlit("-DCLAP_WRAPPER_OUTPUT_NAME=Mimium Audio Plugin");
    assert(args[6] =~= "-DCLAP_WRAPPER_OUTPUT_NAME=Mimium Audio Plugin"@);
    reveal_strlit("CLAP_WRAPPER_BUNDLE_IDENTIFIER");
    reveal_strlit("org.mimium.mimium-audio-plugin");
    reveal_strlit("-DCLAP_WRAPPER_BUNDLE_IDENTIFIER=org.mimium.mimium-audio-plugin");
    assert(args[7] =~= "-DCLAP_WRAPPER_BUNDLE_IDENTIFIER=org.mimium.mimium-audio-plugin"@);
    let au_len: int = if platform == Platform::MacOs && formats.contains(PackageFormat::Au) {
        5
    } else {
        0
    };
    let clap_len: int = if c.clap_sdk_root is Some { 1 } else { 0 };
    if let Some(root) = c.clap_sdk_root {
        reveal_strlit("CLAP_SDK_ROOT");
        reveal_strlit("-DCLAP_SDK_ROOT=");
        assert("-DCLAP_SDK_ROOT="@ =~= "-D"@ + "CLAP_SDK_ROOT"@ + "="@);
        lemma_define_text("CLAP_SDK_ROOT"@, "-DCLAP_SDK_ROOT="@, root@);
        assert(args[10 + au_len] == "-DCLAP_SDK_ROOT="@ + root@);
    }
    if let Some(root) = c.vst3_sdk_root {
        reveal_strlit("VST3_SDK_ROOT");
        reveal_strlit("-DVST3_SDK_ROOT=");
        assert("-DVST3_SDK_ROOT="@ =~= "-D"@ + "VST3_SDK_ROOT"@ + "="@);
        lemma_define_text("VST3_SDK_ROOT"@, "-DVST3_SDK_ROOT="@, root@);
        assert(args[10 + au_len + clap_len] == "-DVST3_SDK_ROOT="@ + root@);
    }
    if platform == Platform::MacOs {
        reveal_strlit("CMAKE_BUILD_TYPE");
        reveal_strlit("Debug");
        reveal_strlit("Release");
        reveal_strlit("-DCMAKE_BUILD_TYPE=Debug");
        reveal_strlit("-DCMAKE_BUILD_TYPE=Release");
        assert(args.last() =~= (if profile == BuildProfile::Debug {
            "-DCMAKE_BUILD_TYPE=Debug"@
        } else {
            "-DCMAKE_BUILD_TYPE=Release"@
        }));
    }
    if platform == Platform::MacOs && formats.contains(PackageFormat::Au) {
        reveal_strlit("CLAP_WRAPPER_AUV2_MANUFACTURER_NAME");
        reveal_strlit("-DCLAP_WRAPPER_AUV2_MANUFACTURER_NAME=");
        assert("-DCLAP_WRAPPER_AUV2_MANUFACTURER_NAME="@ =~= "-D"@ + "CLAP_WRAPPER_AUV2_MANUFACTURER_NAME"@ + "="@);
        lemma_define_text("CLAP_WRAPPER_AUV2_MANUFACTURER_NAME"@, "-DCLAP_WRAPPER_AUV2_MANUFACTURER_NAME="@, c.auv2_manufacturer_name@);
        assert(args[11] == "-DCLAP_WRAPPER_AUV2_MANUFACTURER_NAME="@ + c.auv2_manufacturer_name@);
        reveal_strlit("CLAP_WRAPPER_AUV2_MANUFACTURER_CODE");
        reveal_strlit("-DCLAP_WRAPPER_AUV2_MANUFACTURER_CODE=");
        assert("-DCLAP_WRAPPER_AUV2_MANUFACTURER_CODE="@ =~= "-D"@ + "CLAP_WRAPPER_AUV2_MANUFACTURER_CODE"@ + "="@);
        lemma_define_text("CLAP_WRAPPER_AUV2_MANUFACTURER_CODE"@, "-DCLAP_WRAPPER_AUV2_MANUFACTURER_CODE="@, c.auv2_manufacturer_code@);
        assert(args[12] == "-DCLAP_WRAPPER_AUV2_MANUFACTURER_CODE="@ + c.auv2_manufacturer_code@);
        reveal_strlit("CLAP_WRAPPER_AUV2_SUBTYPE_CODE");
        reveal_strlit("-DCLAP_WRAPPER_AUV2_SUBTYPE_CODE=");
        assert("-DCLAP_WRAPPER_AUV2_SUBTYPE_CODE="@ =~= "-D"@ + "CLAP_WRAPPER_AUV2_SUBTYPE_CODE"@ + "="@);
        lemma_define_text("CLAP_WRAPPER_AUV2_SUBTYPE_CODE"@, "-DCLAP_WRAPPER_AUV2_SUBTYPE_CODE="@, c.auv2_subtype_code@);
        assert(args[13] == "-DCLAP_WRAPPER_AUV2_SUBTYPE_CODE="@ + c.auv2_subtype_code@);
        reveal_strlit("CLAP_WRAPPER_AUV2_INSTRUMENT_TYPE");
        reveal_strlit("-DCLAP_WRAPPER_AUV2_INSTRUMENT_TYPE=");
        assert("-DCLAP_WRAPPER_AUV2_INSTRUMENT_TYPE="@ =~= "-D"@ + "CLAP_WRAPPER_AUV2_INSTRUMENT_TYPE"@ + "="@);
        lemma_define_text("CLAP_WRAPPER_AUV2_INSTRUMENT_TYPE"@, "-DCLAP_WRAPPER_AUV2_INSTRUMENT_TYPE="@, c.auv2_instrument_type@);
        assert(args[14] == "-DCLAP_WRAPPER_AUV2_INSTRUMENT_TYPE="@ + c.auv2_instrument_type@);
    }
}

/// `define_arg(name, value)` is the text `-D{name}={value}`.
proof fn lemma_define_text(name: Seq<char>, prefix: Seq<char>, value: Seq<char>)
    requires
        prefix == "-D"@ + name + "="@,
    ensures
        define_arg(name, value) == prefix + value,
{
    assert(define_arg(name, value) =~= prefix + value);
}

/// One `<key>`/`<string>` entry of a property list.
pub open spec fn plist_entry(key: Seq<char>, value: Seq<char>) -> Seq<char> {
    "<key>"@ + key + "</key>\n  <string>"@ + value + "</string>"@
}

/// Whether `text` holds `part` somewhere.
pub open spec fn holds_text(text: Seq<char>, part: Seq<char>) -> bool {
    exists|pre: Seq<char>, post: Seq<char>| text == pre + part + post
}

/// The bundle's property list names the product, runs the plugin binary named after the slug,
/// carries the bundle identifier with `.clap`, and gives the version twice.
pub proof fn law_plist_describes_the_bundle(version: Seq<char>)
    ensures
        holds_text(info_plist(version), plist_entry("CFBundleName"@, "Mimium Audio Plugin"@)),
        holds_text(info_plist(version), plist_entry("CFBundleExecutable"@, "mimium-audio-plugin"@)),
        holds_text(
            info_plist(version),
            plist_entry("CFBundleIdentifier"@, "org.mimium.mimium-audio-plugin.clap"@),
        ),
        holds_text(info_plist(version), plist_entry("CFBundleShortVersionString"@, version)),
        holds_text(info_plist(version), plist_entry("CFBundleVersion"@, version)),
{
    reveal_strlit("<key>");
    reveal_strlit("</key>\n  <string>");
    reveal_strlit("</string>");
    reveal_strlit("CFBundleName");
    reveal_strlit("CFBundleExecutable");
    reveal_strlit("CFBundleIdentifier");
    reveal_strlit("CFBundleShortVersionString");
    reveal_strlit("CFBundleVersion");
    reveal_strlit("Mimium Audio Plugin");
    reveal_strlit("mimium-audio-plugin");
    reveal_strlit("org.mimium.mimium-audio-plugin");
    reveal_strlit("org.mimium.mimium-audio-plugin.clap");
    reveal_strlit(".clap");
    reveal_strlit("\n  ");
    reveal_strlit("<?xml version=\"1.0\" encoding=\"UTF-8\"?>\n<!DOCTYPE plist PUBLIC \"-//Apple//DTD PLIST 1.0//EN\" \"http://www.apple.com/DTDs/PropertyList-1.0.dtd\">\n<plist version=\"1.0\">\n<dict>\n  <key>CFBundleDevelopmentRegion</key>\n  <string>en</string>\n  <key>CFBundleExecutable</key>\n  <string>");
    reveal_strlit("</string>\n  <key>CFBundleIdentifier</key>\n  <string>");
    reveal_strlit(".clap</string>\n  <key>CFBundleName</key>\n  <string>");
    reveal_strlit("</string>\n  <key>CFBundlePackageType</key>\n  <string>BNDL</string>\n  <key>CFBundleShortVersionString</key>\n  <string>");
    reveal_strlit("</string>\n  <key>CFBundleVersion</key>\n  <string>");
    reveal_strlit("</string>\n</dict>\n</plist>\n");
    let head = PLIST_HEAD@;
    let open_exec = "<key>"@ + "CFBundleExecutable"@ + "</key>\n  <string>"@;
    let head_pre = head.take(head.len() - open_exec.len());
    assert(head =~= head_pre + open_exec);
    let after_exec = PLIST_AFTER_EXECUTABLE@;
    let open_id = "<key>"@ + "CFBundleIdentifier"@ + "</key>\n  <string>"@;
    assert(after_exec =~= "</string>"@ + "\n  "@ + open_id);
    let after_id = PLIST_AFTER_IDENTIFIER@;
    let open_name = "<key>"@ + "CFBundleName"@ + "</key>\n  <string>"@;
    assert(after_id =~= ".clap"@ + "</string>"@ + "\n  "@ + open_name);
    let after_name = PLIST_AFTER_NAME@;
    let open_short = "<key>"@ + "CFBundleShortVersionString"@ + "</key>\n  <string>"@;
    let mid_name = after_name.subrange(9, after_name.len() - open_short.len());
    assert(after_name =~= "</string>"@ + mid_name + open_short);
    let after_short = PLIST_AFTER_SHORT_VERSION@;
    let open_version = "<key>"@ + "CFBundleVersion"@ + "</key>\n  <string>"@;
    assert(after_short =~= "</string>"@ + "\n  "@ + open_version);
    let tail = PLIST_TAIL@;
    let tail_post = tail.skip(9);
    assert(tail =~= "</string>"@ + tail_post);
    assert(BUNDLE_IDENTIFIER@ + ".clap"@ =~= "org.mimium.mimium-audio-plugin.clap"@);
    let p = info_plist(version);
    let slug = PRODUCT_SLUG@;
    let name = PRODUCT_NAME@;
    let ident = BUNDLE_IDENTIFIER@;
    // executable
    let e = plist_entry("CFBundleExecutable"@, "mimium-audio-plugin"@);
    let e_post = "\n  "@ + open_id + ident + after_id + name + after_name + version + after_short + version + tail;
    assert(p =~= head_pre + e + e_post);
    // identifier
    let i = plist_entry("CFBundleIdentifier"@, "org.mimium.mimium-audio-plugin.clap"@);
    let i_pre = head + slug + "</string>"@ + "\n  "@;
    let i_post = "\n  "@ + open_name + name + after_name + version + after_short + version + tail;
    assert(p =~= i_pre + i + i_post);
    // name
    let n = plist_entry("CFBundleName"@, "Mimium Audio Plugin"@);
    let n_pre = head + slug + after_exec + ident + ".clap"@ + "</string>"@ + "\n  "@;
    let n_post = mid_name + open_short + version + after_short + version + tail;
    assert(p =~= n_pre + n + n_post);
    // short version
    let sv = plist_entry("CFBundleShortVersionString"@, version);
    let sv_pre = head + slug + after_exec + ident + after_id + name + "</string>"@ + mid_name;
    let sv_post = "\n  "@ + open_version + version + tail;
    assert(p =~= sv_pre + sv + sv_post);
    // version
    let v = plist_entry("CFBundleVersion"@, version);
    let v_pre = head + slug + after_exec + ident + after_id + name + after_name + version + "</string>"@ + "\n  "@;
    assert(p =~= v_pre + v + tail_post);
}

/// Whether the flag stands among the arguments from `i` on.
pub open spec fn flag_given(args: Seq<Seq<char>>, i: int, flag: Seq<char>) -> bool {
    exists|j: int| 0 <= i <= j < args.len() && #[trigger] args[j] == flag
}

proof fn lemma_flag_given_from(args: Seq<Seq<char>>, i: int, flag: Seq<char>)
    requires
        0 <= i,
    ensures
        flag_given(args, i + 1, flag) ==> flag_given(args, i, flag),
        flag_given(args, i + 2, flag) ==> flag_given(args, i, flag),
        i < args.len() && args[i] == flag ==> flag_given(args, i, flag),
{
    if flag_given(args, i + 1, flag) {
        let j = choose|j: int| 0 <= i + 1 <= j < args.len() && #[trigger] args[j] == flag;
        assert(args[j] == flag);
    }
    if flag_given(args, i + 2, flag) {
        let j = choose|j: int| 0 <= i + 2 <= j < args.len() && #[trigger] args[j] == flag;
        assert(args[j] == flag);
    }
    if i < args.len() && args[i] == flag {
        assert(args[i] == flag);
    }
}

/// The profile named by the last `--debug` or `--release` from `i` on, or `profile` when
/// neither is given.
pub open spec fn last_profile(args: Seq<Seq<char>>, i: int, profile: BuildProfile) -> BuildProfile
    decreases args.len() - i,
{
    if i < 0 || i >= args.len() {
        profile
    } else {
        let next = if args[i] == "--debug"@ {
            BuildProfile::Debug
        } else if args[i] == "--release"@ {
            BuildProfile::Release
        } else {
            profile
        };
        last_profile(args, i + 1, next)
    }
}

/// Installing is asked for exactly by `--install`, and the last of `--debug` and `--release`
/// decides the profile (release when neither is given).
pub proof fn law_flags_set_their_options(
    args: Seq<Seq<char>>,
    i: int,
    profile: BuildProfile,
    formats: Seq<PackageFormat>,
    install: bool,
    platform: Platform,
)
    requires
        0 <= i,
    ensures
        parse_args_from(args, i, profile, formats, install, platform) matches ArgsOutcome::Package {
            profile: out_profile,
            install: out_install,
            ..
        } ==> {
            &&& out_install == (install || flag_given(args, i, "--install"@))
            &&& out_profile == last_profile(args, i, profile)
        },
    decreases args.len() - i,
{
    reveal_strlit("--install");
    reveal_strlit("--release");
    reveal_strlit("--debug");
    reveal_strlit("--all-formats");
    reveal_strlit("--format");
    reveal_strlit("clap");
    reveal_strlit("vst3");
    reveal_strlit("au");
    lemma_flag_given_from(args, i, "--install"@);
    lemma_flag_given_from(args, i, "--debug"@);
    lemma_flag_given_from(args, i, "--release"@);
    if i < args.len() {
        let arg = args[i];
        if arg == "--release"@ {
            law_flags_set_their_options(args, i + 1, BuildProfile::Release, formats, install, platform);
            assert("--release"@[2] != "--install"@[2]);
        } else if arg == "--debug"@ {
            law_flags_set_their_options(args, i + 1, BuildProfile::Debug, formats, install, platform);
            assert("--debug"@.len() != "--install"@.len());
        } else if arg == "--install"@ {
            law_flags_set_their_options(args, i + 1, profile, formats, true, platform);
        } else if arg == "--all-formats"@ {
            let both = with_format(with_format(formats, PackageFormat::Clap), PackageFormat::Vst3);
            let all = if platform == Platform::MacOs {
                with_format(both, PackageFormat::Au)
            } else {
                both
            };
            law_flags_set_their_options(args, i + 1, profile, all, install, platform);
            assert("--all-formats"@ != "--install"@);
            assert("--all-formats"@ != "--debug"@);
            assert("--all-formats"@ != "--release"@);
        } else if arg == "--format"@ {
            if i + 1 < args.len() {
                if let Some(f) = format_named(args[i + 1]) {
                    law_flags_set_their_options(
                        args,
                        i + 2,
                        profile,
                        with_format(formats, f),
                        install,
                        platform,
                    );
                    assert("--format"@ != "--install"@);
                    assert("--format"@ != "--debug"@);
                    assert("--format"@ != "--release"@);
                    assert(args[i + 1].len() <= 4);
                    assert(last_profile(args, i + 1, profile) == last_profile(args, i + 2, profile));
                    if flag_given(args, i, "--install"@) {
                        let j = choose|j: int| 0 <= i <= j < args.len() && #[trigger] args[j] == "--install"@;
                        if j > i + 1 {
                            assert(flag_given(args, i + 2, "--install"@));
                        }
                    }
                    if flag_given(args, i, "--debug"@) {
                        let j = choose|j: int| 0 <= i <= j < args.len() && #[trigger] args[j] == "--debug"@;
                        if j > i + 1 {
                            assert(flag_given(args, i + 2, "--debug"@));
                        }
                    }
                    if flag_given(args, i, "--release"@) {
                        let j = choose|j: int| 0 <= i <= j < args.len() && #[trigger] args[j] == "--release"@;
                        if j > i + 1 {
                            assert(flag_given(args, i + 2, "--release"@));
                        }
                    }
                }
            }
        }
    } else {
        if flag_given(args, i, "--install"@) {
            let j = choose|j: int| 0 <= i <= j < args.len() && #[trigger] args[j] == "--install"@;
        }
    }
}

/// The CLAP step uses the staged CLAP artifact at the very path given, and reports it
/// missing exactly when nothing was staged.
pub proof fn law_clap_step_uses_the_staged_artifact(clap: Option<Seq<char>>, step: ArtifactStep)
    requires
        step_for(PackageFormat::Clap, clap, step),
    ensures
        clap matches Some(p) ==> step matches ArtifactStep::UseClap(q) && q@ == p,
        clap is None ==> step matches ArtifactStep::MissingClap,
{
}

/// The wrapper builds the VST3 target exactly when VST3 is asked for, and the AUv2 target
/// exactly when AU is asked for.
pub proof fn law_wrapper_targets_follow_formats(formats: Seq<PackageFormat>)
    ensures
        target_names(formats).contains("mimium_audio_plugin_vst3"@) <==> formats.contains(
            PackageFormat::Vst3,
        ),
        target_names(formats).contains("mimium_audio_plugin_auv2"@) <==> formats.contains(
            PackageFormat::Au,
        ),
    decreases formats.len(),
{
    reveal_strlit("mimium_audio_plugin_vst3");
    reveal_strlit("mimium_audio_plugin_auv2");
    assert("mimium_audio_plugin_vst3"@[20] != "mimium_audio_plugin_auv2"@[20]);
    if formats.len() > 0 {
        let rest = formats.drop_last();
        let last = formats.last();
        law_wrapper_targets_follow_formats(rest);
        lemma_push_contains(rest, last, PackageFormat::Vst3);
        lemma_push_contains(rest, last, PackageFormat::Au);
        assert(formats =~= rest.push(last));
        let t = target_names(rest);
        match spec_target_name(last) {
            Some(n) => {
                lemma_push_contains(t, n, "mimium_audio_plugin_vst3"@);
                lemma_push_contains(t, n, "mimium_audio_plugin_auv2"@);
            },
            None => {},
        }
    } else {
        assert(target_names(formats) =~= Seq::<Seq<char>>::empty());
    }
}

proof fn lemma_push_contains<A>(s: Seq<A>, x: A, y: A)
    ensures
        s.push(x).contains(y) <==> (s.contains(y) || x == y),
{
    let t = s.push(x);
    if t.contains(y) {
        let k = choose|k: int| 0 <= k < t.len() && t[k] == y;
        if k < s.len() {
            assert(s[k] == y);
        }
    }
    if s.contains(y) {
        let k = choose|k: int| 0 <= k < s.len() && s[k] == y;
        assert(t[k] == y);
    }
    assert(t[s.len() as int] == x);
}

/// Different formats make bundles with different extensions; the CLAP and VST3 extensions are
/// the names `--format` takes for them.
pub proof fn law_bundle_extensions(f: PackageFormat, g: PackageFormat)
    ensures
        f != g ==> spec_bundle_extension(f) != spec_bundle_extension(g),
        f != PackageFormat::Au ==> format_named(spec_bundle_extension(f)) == Some(f),
{
    reveal_strlit("clap");
    reveal_strlit("vst3");
    reveal_strlit("au");
    reveal_strlit("component");
    assert("clap"@[0] != "vst3"@[0]);
    assert("clap"@.len() != "component"@.len());
    assert("vst3"@.len() != "component"@.len());
    assert("clap"@.len() != "au"@.len());
    assert("vst3"@.len() != "au"@.len());
}

} // verus!
