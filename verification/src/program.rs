use base64::Engine;
use vstd::prelude::*;

use crate::params::{KnobBank, KNOB_COUNT};
use crate::text::{push_str, texts, trim, trim_str};
use crate::worker::{
    channels_error, fit_knob_names, fitted_name, validate_channels, validate_channels_fails,
    IoChannels, WorkerReply,
};

verus! {

/// The outcome of a compilation as the editor shows it.
#[derive(Debug)]
pub struct CompileFeedback {
    pub ok: bool,
    pub message: String,
}

impl CompileFeedback {
    pub fn success(message: &str) -> (f: Self)
        ensures
            f.ok,
            f.message@ == message@,
    {
        let mut m = String::new();
        push_str(&mut m, message);
        CompileFeedback { ok: true, message: m }
    }

    pub fn error(message: &str) -> (f: Self)
        ensures
            !f.ok,
            f.message@ == message@,
    {
        let mut m = String::new();
        push_str(&mut m, message);
        CompileFeedback { ok: false, message: m }
    }

    pub fn duplicate(&self) -> (f: Self)
        ensures
            f.ok == self.ok,
            f.message@ == self.message@,
    {
        CompileFeedback { ok: self.ok, message: self.message.clone() }
    }
}

/// What the plugin asks the compiler worker.
#[derive(Debug)]
pub struct WorkerRequest {
    pub source: String,
    pub library_path: Option<String>,
    pub initial_knob_names: Vec<String>,
}

/// The request for compiling `source`: the knobs' current names go along, so that labels
/// keep their slots.
pub fn worker_request(source: &str, knobs: &KnobBank, library_path: Option<&str>) -> (r:
    WorkerRequest)
    ensures
        r.source@ == source@,
        match library_path {
            Some(p) => r.library_path matches Some(q) && q@ == p@,
            None => r.library_path is None,
        },
        texts(r.initial_knob_names@) == knobs.names_view(),
{
    let mut s = String::new();
    push_str(&mut s, source);
    let library_path = match library_path {
        Some(p) => {
            let mut q = String::new();
            push_str(&mut q, p);
            Some(q)
        },
        None => None,
    };
    let names = knobs.snapshot_names();
    let mut initial: Vec<String> = Vec::new();
    let mut i: usize = 0;
    while i < KNOB_COUNT
        invariant
            i <= KNOB_COUNT,
            initial@.len() == i,
            forall|j: int| 0 <= j < i ==> #[trigger] initial@[j]@ == names@[j]@,
        decreases KNOB_COUNT - i,
    {
        initial.push(names[i].clone());
        i = i + 1;
    }
    proof {
        broadcast use crate::params::group_knob_bank;

        assert(texts(initial@) =~= knobs.names_view());
    }
    WorkerRequest { source: s, library_path, initial_knob_names: initial }
}

/// A compiled program as the plugin receives it from the worker.
#[derive(Debug)]
pub struct DecodedProgram {
    pub wasm_bytes: Vec<u8>,
    pub io_channels: Option<IoChannels>,
    pub resolved_knob_names: [String; KNOB_COUNT],
}

/// The bytes that standard base64 text decodes to, or the decoder's error message.
pub uninterp spec fn base64_standard_decoding(text: Seq<char>) -> Result<Seq<u8>, Seq<char>>;

/// Trusted: `base64::engine::general_purpose::STANDARD.decode`; its result, and the text of
/// its error, are named.
#[verifier::external_body]
fn decode_base64(text: &str) -> (r: Result<Vec<u8>, String>)
    ensures
        match (r, base64_standard_decoding(text@)) {
            (Ok(bytes), Ok(expected)) => bytes@ == expected,
            (Err(e), Err(expected)) => e@ == expected,
            _ => false,
        },
{
    match base64::engine::general_purpose::STANDARD.decode(text) {
        Ok(bytes) => Ok(bytes),
        Err(error) => Err(error.to_string()),
    }
}

/// What a worker reply gives, up to the Wasm text that still has to be decoded.
pub open spec fn reply_error(reply: WorkerReply) -> Option<Seq<char>> {
    if !reply.ok {
        Some(reply.message@)
    } else if reply.wasm_base64 is None {
        Some("compiler worker did not return wasm output"@)
    } else if validate_channels_fails(reply.io_channels) {
        Some(channels_error(reply.io_channels))
    } else {
        None
    }
}

/// Turns a worker reply into a program: a refusal passes its message on, a missing program
/// or unfit channels are errors, the names are fitted to the knobs and the Wasm is decoded.
pub fn prepare_program(reply: WorkerReply) -> (r: Result<DecodedProgram, String>)
    ensures
        reply_error(reply) matches Some(e) ==> (r matches Err(m) && m@ == e),
        reply_error(reply) is None ==> ({
            let decoded = base64_standard_decoding(reply.wasm_base64->0@);
            match decoded {
                Ok(bytes) => r matches Ok(p) && p.wasm_bytes@ == bytes && p.io_channels
                    == reply.io_channels && forall|i: int|
                    0 <= i < KNOB_COUNT ==> #[trigger] p.resolved_knob_names@[i]@ == fitted_name(
                        texts(reply.resolved_knob_names@),
                        i,
                    ),
                Err(e) => r matches Err(m) && m@ == "failed to decode worker wasm: "@ + e,
            }
        }),
{
    if !reply.ok {
        return Err(reply.message);
    }
    let wasm_base64 = match reply.wasm_base64 {
        Some(w) => w,
        None => {
            let mut e = String::new();
            push_str(&mut e, "compiler worker did not return wasm output");
            return Err(e);
        },
    };
    match validate_channels(reply.io_channels) {
        Err(e) => return Err(e),
        Ok(()) => {},
    }
    let names = fit_knob_names(reply.resolved_knob_names);
    let decoded = decode_base64(wasm_base64.as_str());
    finish_program(decoded, reply.io_channels, names)
}

/// The last step of `prepare_program`, on the decoder's result.
pub fn finish_program(
    decoded: Result<Vec<u8>, String>,
    io: Option<IoChannels>,
    names: [String; KNOB_COUNT],
) -> (r: Result<DecodedProgram, String>)
    ensures
        match decoded {
            Ok(bytes) => r matches Ok(p) && p.wasm_bytes@ == bytes@ && p.io_channels == io
                && p.resolved_knob_names@ == names@,
            Err(e) => r matches Err(m) && m@ == "failed to decode worker wasm: "@ + e@,
        },
{
    match decoded {
        Ok(bytes) => Ok(DecodedProgram { wasm_bytes: bytes, io_channels: io, resolved_knob_names: names }),
        Err(e) => {
            let mut m = String::new();
            push_str(&mut m, "failed to decode worker wasm: ");
            push_str(&mut m, e.as_str());
            Err(m)
        },
    }
}

/// A setting's value trimmed, unless it is missing or blank.
pub open spec fn non_blank(value: Option<&str>) -> Option<Seq<char>> {
    match value {
        Some(v) => if trim(v@).len() > 0 {
            Some(trim(v@))
        } else {
            None
        },
        None => None,
    }
}

/// Which worker binary to start: a non-blank `MIMIUM_COMPILER_WORKER_BIN` (trimmed), else
/// the one beside the plugin, else the debug build, else the release build (each when it
/// exists), else the bare name.
pub fn select_worker_command(
    env_value: Option<&str>,
    near_plugin: Option<String>,
    debug_build: Option<String>,
    release_build: Option<String>,
) -> (r: String)
    ensures
        r@ == match non_blank(env_value) {
            Some(t) => t,
            None => match (near_plugin, debug_build, release_build) {
                (Some(p), _, _) => p@,
                (None, Some(d), _) => d@,
                (None, None, Some(rl)) => rl@,
                (None, None, None) => "mimium-compiler-worker"@,
            },
        },
{
    if let Some(v) = env_value {
        let t = trim_str(v);
        if !t.as_str().is_empty() {
            return t;
        }
    }
    if let Some(p) = near_plugin {
        return p;
    }
    if let Some(d) = debug_build {
        return d;
    }
    if let Some(rl) = release_build {
        return rl;
    }
    let mut s = String::new();
    push_str(&mut s, "mimium-compiler-worker");
    s
}

/// A value type of a Wasm function signature.
#[derive(Clone, Copy, PartialEq, Eq, Structural, Debug)]
pub enum WasmValType {
    I32,
    I64,
    F32,
    F64,
}

/// The primitive mimium types that Wasm signatures map to.
#[derive(Clone, Copy, PartialEq, Eq, Structural, Debug)]
pub enum PrimType {
    Int,
    Numeric,
    Unit,
}

/// The mimium type of a parameter list or result list.
#[derive(Debug)]
pub enum SignatureType {
    Primitive(PrimType),
    Tuple(Vec<PrimType>),
}

/// Integers become `int`, floats become `number`.
pub open spec fn spec_prim_of(v: WasmValType) -> PrimType {
    match v {
        WasmValType::I32 | WasmValType::I64 => PrimType::Int,
        WasmValType::F32 | WasmValType::F64 => PrimType::Numeric,
    }
}

pub fn wasm_valtype_to_mimium_type(valtype: WasmValType) -> (t: PrimType)
    ensures
        t == spec_prim_of(valtype),
{
    match valtype {
        WasmValType::I32 => PrimType::Int,
        WasmValType::I64 => PrimType::Int,
        WasmValType::F32 => PrimType::Numeric,
        WasmValType::F64 => PrimType::Numeric,
    }
}

/// The mimium types of several Wasm value types, in order.
pub open spec fn prims_of(parts: Seq<WasmValType>) -> Seq<PrimType> {
    parts.map_values(|v: WasmValType| spec_prim_of(v))
}

fn prim_list(parts: &Vec<WasmValType>) -> (r: Vec<PrimType>)
    ensures
        r@ == prims_of(parts@),
{
    let mut r: Vec<PrimType> = Vec::new();
    let mut i: usize = 0;
    while i < parts.len()
        invariant
            i <= parts.len(),
            r@ == prims_of(parts@).take(i as int),
        decreases parts.len() - i,
    {
        r.push(wasm_valtype_to_mimium_type(parts[i]));
        assert(r@ =~= prims_of(parts@).take(i + 1));
        i = i + 1;
    }
    assert(prims_of(parts@).take(parts.len() as int) =~= prims_of(parts@));
    r
}

/// The argument type: the empty tuple for no parameter, the parameter's type for one, the
/// tuple of their types for several.
pub fn arg_type_from_signature(parts: &Vec<WasmValType>) -> (t: SignatureType)
    ensures
        parts@.len() == 1 ==> t == SignatureType::Primitive(spec_prim_of(parts@[0])),
        parts@.len() != 1 ==> (t matches SignatureType::Tuple(v) && v@ == prims_of(parts@)),
{
    if parts.len() == 1 {
        SignatureType::Primitive(wasm_valtype_to_mimium_type(parts[0]))
    } else {
        SignatureType::Tuple(prim_list(parts))
    }
}

/// The result type: unit for no result, the result's type for one, the tuple of their types
/// for several.
pub fn return_type_from_signature(parts: &Vec<WasmValType>) -> (t: SignatureType)
    ensures
        parts@.len() == 0 ==> t == SignatureType::Primitive(PrimType::Unit),
        parts@.len() == 1 ==> t == SignatureType::Primitive(spec_prim_of(parts@[0])),
        parts@.len() > 1 ==> (t matches SignatureType::Tuple(v) && v@ == prims_of(parts@)),
{
    if parts.len() == 0 {
        SignatureType::Primitive(PrimType::Unit)
    } else if parts.len() == 1 {
        SignatureType::Primitive(wasm_valtype_to_mimium_type(parts[0]))
    } else {
        SignatureType::Tuple(prim_list(parts))
    }
}

/// The program text a new plugin instance starts with.
pub const DEFAULT_SOURCE: &'static str = "let twopi = 6.283185307179586

fn phasor(freq: float) {
  (self + freq / samplerate) % 1.0
}

fn dsp() {
    let left_freq = Control!(\"Left Freq\", 220.0)
    let right_freq = Control!(\"Right Freq\", 330.0)
    let gain = Control!(\"Gain\", 0.18)
    let left = sin(phasor(left_freq) * twopi) * gain
    let right = sin(phasor(right_freq) * twopi) * gain
  (left, right)
}";

/// Which request to the persistent worker this is.
#[derive(Clone, Copy, PartialEq, Eq, Structural, Debug)]
pub enum PoolAttempt {
    First,
    AfterRestart,
}

/// What the worker pool does after a request.
#[derive(Debug)]
pub enum PoolNext<R> {
    Finished(Result<R, String>),
    /// The first request failed: start a new worker and ask again.
    RestartAndRetry,
}

/// An answer ends the request; a first failure restarts the worker once; a failure after the
/// restart ends the request with its message.
pub fn after_worker_request<R>(attempt: PoolAttempt, result: Result<R, String>) -> (next: PoolNext<R>)
    ensures
        match (attempt, result) {
            (_, Ok(r)) => next matches PoolNext::Finished(Ok(x)) && x == r,
            (PoolAttempt::First, Err(_)) => next matches PoolNext::RestartAndRetry,
            (PoolAttempt::AfterRestart, Err(e)) => next matches PoolNext::Finished(Err(m)) && m@
                == "compiler worker request failed after restart: "@ + e@,
        },
{
    match result {
        Ok(r) => PoolNext::Finished(Ok(r)),
        Err(e) => match attempt {
            PoolAttempt::First => PoolNext::RestartAndRetry,
            PoolAttempt::AfterRestart => {
                let mut m = String::new();
                push_str(&mut m, "compiler worker request failed after restart: ");
                push_str(&mut m, e.as_str());
                PoolNext::Finished(Err(m))
            },
        },
    }
}

/// The feedback for a compilation the worker ran in the background.
pub fn dispatch_feedback(error: Option<&str>) -> (f: CompileFeedback)
    ensures
        match error {
            None => f.ok && f.message@ == crate::ui::COMPILED_MESSAGE@,
            Some(e) => !f.ok && f.message@ == e@,
        },
{
    match error {
        None => CompileFeedback::success(crate::ui::COMPILED_MESSAGE),
        Some(e) => CompileFeedback::error(e),
    }
}

} // verus!
