use vstd::prelude::*;

use crate::params::{KnobBank, KNOB_COUNT};
use crate::program::CompileFeedback;
use crate::settings::GlobalSettings;
use crate::state::{merge_names, merged_name, PersistedState, STATE_VERSION};
use crate::text::{push_str, texts, trim, trim_str};

verus! {

/// A message from the editor page, as the plugin reads it.
#[derive(Debug)]
pub enum UiRequest {
    /// `set_source`: the editor's text changed.
    SetSource { source: Option<String> },
    /// `compile_source`: compile the current text.
    CompileSource,
    /// `request_state`: send everything the page shows.
    RequestState,
    /// `set_knob`: rename a knob and/or move it (`has_value`: a value came along).
    SetKnob { index: Option<usize>, name: Option<String>, has_value: bool },
    /// `request_global_settings`.
    RequestGlobalSettings,
    /// `save_global_settings`.
    SaveGlobalSettings { library_path: Option<String> },
    /// `request_examples`.
    RequestExamples,
    /// `load_example`.
    LoadExample { filename: Option<String> },
    /// `clipboard_write`.
    ClipboardWrite { text: Option<String> },
    /// `clipboard_read`.
    ClipboardRead { request_id: Option<String> },
    /// Any other message, which is ignored.
    Unknown,
}

/// What the plugin does in answer, in order. Messages that show state (editor, knobs,
/// settings) are made from the session as it stands after the call that returned them.
#[allow(inconsistent_fields)]
pub enum UiEffect {
    QueueEditorState,
    QueueKnobState,
    QueueGlobalSettings,
    QueueExampleList,
    QueueAboutInfo,
    QueueSaveSettingsResult { ok: bool, message: String },
    QueueClipboardReadResult { request_id: String, ok: bool, text: Option<String>, message: String },
    RequestCallback,
    /// Compile `source`; the outcome goes to `PluginSession::compile_finished`.
    Compile { source: String, library_path: String },
    /// Save the settings with this library path; the outcome goes to
    /// `PluginSession::settings_saved`.
    SaveSettings { library_path: String },
    /// Look the example up; the outcome goes to `PluginSession::example_found`.
    LookupExample { filename: String },
    WriteClipboard { text: String },
    /// Read the clipboard; the outcome goes to `PluginSession::clipboard_read_finished`.
    ReadClipboard { request_id: String },
    /// Move the knob at `index` to the value that came with the message.
    ApplyKnobValue { index: usize },
    /// Send the editor state to the open editor straight away.
    SendEditorState,
}

/// `UiEffect` with texts in place of strings.
#[allow(inconsistent_fields)]
pub enum UiEffectView {
    QueueEditorState,
    QueueKnobState,
    QueueGlobalSettings,
    QueueExampleList,
    QueueAboutInfo,
    QueueSaveSettingsResult { ok: bool, message: Seq<char> },
    QueueClipboardReadResult {
        request_id: Seq<char>,
        ok: bool,
        text: Option<Seq<char>>,
        message: Seq<char>,
    },
    RequestCallback,
    Compile { source: Seq<char>, library_path: Seq<char> },
    SaveSettings { library_path: Seq<char> },
    LookupExample { filename: Seq<char> },
    WriteClipboard { text: Seq<char> },
    ReadClipboard { request_id: Seq<char> },
    ApplyKnobValue { index: usize },
    SendEditorState,
}

pub open spec fn opt_text(o: Option<String>) -> Option<Seq<char>> {
    match o {
        Some(s) => Some(s@),
        None => None,
    }
}

/// The text of an optional string, empty when missing.
pub open spec fn text_or_empty(o: Option<String>) -> Seq<char> {
    match o {
        Some(s) => s@,
        None => Seq::<char>::empty(),
    }
}

impl View for UiEffect {
    type V = UiEffectView;

    open spec fn view(&self) -> UiEffectView {
        match self {
            UiEffect::QueueEditorState => UiEffectView::QueueEditorState,
            UiEffect::QueueKnobState => UiEffectView::QueueKnobState,
            UiEffect::QueueGlobalSettings => UiEffectView::QueueGlobalSettings,
            UiEffect::QueueExampleList => UiEffectView::QueueExampleList,
            UiEffect::QueueAboutInfo => UiEffectView::QueueAboutInfo,
            UiEffect::QueueSaveSettingsResult { ok, message } => UiEffectView::QueueSaveSettingsResult {
                ok: *ok,
                message: message@,
            },
            UiEffect::QueueClipboardReadResult { request_id, ok, text, message } =>
                UiEffectView::QueueClipboardReadResult {
                request_id: request_id@,
                ok: *ok,
                text: opt_text(*text),
                message: message@,
            },
            UiEffect::RequestCallback => UiEffectView::RequestCallback,
            UiEffect::Compile { source, library_path } => UiEffectView::Compile {
                source: source@,
                library_path: library_path@,
            },
            UiEffect::SaveSettings { library_path } => UiEffectView::SaveSettings {
                library_path: library_path@,
            },
            UiEffect::LookupExample { filename } => UiEffectView::LookupExample {
                filename: filename@,
            },
            UiEffect::WriteClipboard { text } => UiEffectView::WriteClipboard { text: text@ },
            UiEffect::ReadClipboard { request_id } => UiEffectView::ReadClipboard {
                request_id: request_id@,
            },
            UiEffect::ApplyKnobValue { index } => UiEffectView::ApplyKnobValue { index: *index },
            UiEffect::SendEditorState => UiEffectView::SendEditorState,
        }
    }
}

pub open spec fn effects_view(v: Seq<UiEffect>) -> Seq<UiEffectView> {
    v.map_values(|e: UiEffect| e@)
}

/// Everything the page shows, in the order the plugin queues it.
pub open spec fn full_state_effects() -> Seq<UiEffectView> {
    seq![
        UiEffectView::QueueEditorState,
        UiEffectView::QueueKnobState,
        UiEffectView::QueueGlobalSettings,
        UiEffectView::QueueExampleList,
        UiEffectView::QueueAboutInfo,
        UiEffectView::RequestCallback,
    ]
}

/// What follows a change of the program text or its outcome.
pub open spec fn editor_effects() -> Seq<UiEffectView> {
    seq![
        UiEffectView::QueueEditorState,
        UiEffectView::QueueKnobState,
        UiEffectView::RequestCallback,
    ]
}

pub const COMPILED_MESSAGE: &'static str =
    "Compiled via worker process. The audio thread will swap the program on the next block.";

pub const EXAMPLE_LOADED_MESSAGE: &'static str = "Loaded example source. Press Compile to apply.";

pub const SETTINGS_SAVED_MESSAGE: &'static str = "Saved global settings.";

pub const EMPTY_LIBRARY_PATH_MESSAGE: &'static str = "Library path must not be empty.";

/// The state one plugin instance shares between its editor, its host callbacks and its
/// audio thread: the program text, the last compile outcome, the knobs, whether the host
/// should save the state again, and the global settings.
pub struct PluginSession {
    pub current_source: String,
    pub compile_feedback: CompileFeedback,
    pub knobs: KnobBank,
    pub state_dirty: bool,
    pub global_settings: GlobalSettings,
}

/// Two banks with the same names and values.
pub open spec fn same_knobs(a: KnobBank, b: KnobBank) -> bool {
    a.names_view() == b.names_view() && a.value_bits_view() == b.value_bits_view()
}

pub open spec fn same_feedback(a: CompileFeedback, b: CompileFeedback) -> bool {
    a.ok == b.ok && a.message@ == b.message@
}

/// Nothing but what the named fields hold changed.
pub open spec fn same_session(a: PluginSession, b: PluginSession) -> bool {
    &&& a.current_source@ == b.current_source@
    &&& same_feedback(a.compile_feedback, b.compile_feedback)
    &&& same_knobs(a.knobs, b.knobs)
    &&& a.state_dirty == b.state_dirty
    &&& a.global_settings.library_path@ == b.global_settings.library_path@
}

fn new_string(s: &str) -> (r: String)
    ensures
        r@ == s@,
{
    let mut r = String::new();
    push_str(&mut r, s);
    r
}

fn string_or_empty(o: Option<String>) -> (r: String)
    ensures
        r@ == text_or_empty(o),
{
    match o {
        Some(s) => s,
        None => String::new(),
    }
}

impl PluginSession {
    /// A session on the given program text and settings; its first compile outcome
    /// reads as the initial compilation's.
    pub fn new(source: String, settings: GlobalSettings, initial: Result<(), String>) -> (s: Self)
        ensures
            s.current_source@ == source@,
            s.global_settings.library_path@ == settings.library_path@,
            !s.state_dirty,
            forall|i: int|
                0 <= i < KNOB_COUNT ==> #[trigger] s.knobs.names_view()[i]
                    == crate::text::default_knob_name(i as nat),
            forall|i: int|
                0 <= i < KNOB_COUNT ==> #[trigger] s.knobs.value_bits_view()[i]
                    == crate::params::DEFAULT_KNOB_VALUE_BITS,
            match initial {
                Ok(()) => s.compile_feedback.ok && s.compile_feedback.message@
                    == "Compiled initial mimium program."@,
                Err(e) => !s.compile_feedback.ok && s.compile_feedback.message@
                    == "Initial program failed to compile: "@ + e@,
            },
    {
        let feedback = match initial {
            Ok(()) => CompileFeedback::success("Compiled initial mimium program."),
            Err(e) => {
                let mut m = new_string("Initial program failed to compile: ");
                push_str(&mut m, e.as_str());
                CompileFeedback::error(m.as_str())
            },
        };
        PluginSession {
            current_source: source,
            compile_feedback: feedback,
            knobs: KnobBank::new(),
            state_dirty: false,
            global_settings: settings,
        }
    }

    /// The outcome of a compilation that the editor asked for: the knobs take the names the
    /// compiler resolved, and the outcome is shown.
    pub fn compile_finished(&mut self, result: Result<[String; KNOB_COUNT], String>) -> (effects:
        Vec<UiEffect>)
        ensures
            final(self).current_source@ == old(self).current_source@,
            final(self).state_dirty == old(self).state_dirty,
            final(self).global_settings.library_path@ == old(self).global_settings.library_path@,
            final(self).knobs.value_bits_view() == old(self).knobs.value_bits_view(),
            match result {
                Ok(names) => {
                    &&& forall|i: int|
                        0 <= i < KNOB_COUNT ==> #[trigger] final(self).knobs.names_view()[i]
                            == names@[i]@
                    &&& final(self).compile_feedback.ok
                    &&& final(self).compile_feedback.message@ == COMPILED_MESSAGE@
                },
                Err(e) => {
                    &&& final(self).knobs.names_view() == old(self).knobs.names_view()
                    &&& !final(self).compile_feedback.ok
                    &&& final(self).compile_feedback.message@ == e@
                },
            },
            effects_view(effects@) == editor_effects(),
    {
        match result {
            Ok(names) => {
                self.knobs.set_names(names);
                self.compile_feedback = CompileFeedback::success(COMPILED_MESSAGE);
            },
            Err(e) => {
                self.compile_feedback = CompileFeedback::error(e.as_str());
            },
        }
        let mut effects: Vec<UiEffect> = Vec::new();
        effects.push(UiEffect::QueueEditorState);
        effects.push(UiEffect::QueueKnobState);
        effects.push(UiEffect::RequestCallback);
        assert(effects_view(effects@) =~= editor_effects());
        effects
    }

    /// The outcome of saving the settings: on success the session takes the new library
    /// path. Either way the page hears the outcome and the settings.
    pub fn settings_saved(&mut self, library_path: String, result: Result<(), String>) -> (effects:
        Vec<UiEffect>)
        ensures
            final(self).current_source@ == old(self).current_source@,
            same_feedback(final(self).compile_feedback, old(self).compile_feedback),
            same_knobs(final(self).knobs, old(self).knobs),
            final(self).state_dirty == old(self).state_dirty,
            final(self).global_settings.library_path@ == match result {
                Ok(()) => library_path@,
                Err(_) => old(self).global_settings.library_path@,
            },
            effects_view(effects@) == seq![
                UiEffectView::QueueSaveSettingsResult {
                    ok: result is Ok,
                    message: match result {
                        Ok(()) => SETTINGS_SAVED_MESSAGE@,
                        Err(e) => e@,
                    },
                },
                UiEffectView::QueueGlobalSettings,
                UiEffectView::RequestCallback,
            ],
    {
        let ok = result.is_ok();
        let message = match result {
            Ok(()) => {
                self.global_settings = GlobalSettings { library_path };
                new_string(SETTINGS_SAVED_MESSAGE)
            },
            Err(e) => e,
        };
        let ghost mv = message@;
        let mut effects: Vec<UiEffect> = Vec::new();
        effects.push(UiEffect::QueueSaveSettingsResult { ok, message });
        effects.push(UiEffect::QueueGlobalSettings);
        effects.push(UiEffect::RequestCallback);
        assert(effects_view(effects@) =~= seq![
            UiEffectView::QueueSaveSettingsResult { ok, message: mv },
            UiEffectView::QueueGlobalSettings,
            UiEffectView::RequestCallback,
        ]);
        effects
    }

    /// The source of an example the editor asked for; an unknown example changes nothing.
    pub fn example_found(&mut self, source: Option<String>) -> (effects: Vec<UiEffect>)
        ensures
            match source {
                Some(s) => {
                    &&& final(self).current_source@ == s@
                    &&& final(self).state_dirty
                    &&& final(self).compile_feedback.ok
                    &&& final(self).compile_feedback.message@ == EXAMPLE_LOADED_MESSAGE@
                    &&& same_knobs(final(self).knobs, old(self).knobs)
                    &&& final(self).global_settings.library_path@
                        == old(self).global_settings.library_path@
                    &&& effects_view(effects@) == seq![
                        UiEffectView::QueueEditorState,
                        UiEffectView::QueueKnobState,
                        UiEffectView::QueueExampleList,
                        UiEffectView::RequestCallback,
                    ]
                },
                None => same_session(*final(self), *old(self)) && effects@.len() == 0,
            },
    {
        let mut effects: Vec<UiEffect> = Vec::new();
        match source {
            None => {},
            Some(s) => {
                self.current_source = s;
                self.state_dirty = true;
                self.compile_feedback = CompileFeedback::success(EXAMPLE_LOADED_MESSAGE);
                effects.push(UiEffect::QueueEditorState);
                effects.push(UiEffect::QueueKnobState);
                effects.push(UiEffect::QueueExampleList);
                effects.push(UiEffect::RequestCallback);
                assert(effects_view(effects@) =~= seq![
                    UiEffectView::QueueEditorState,
                    UiEffectView::QueueKnobState,
                    UiEffectView::QueueExampleList,
                    UiEffectView::RequestCallback,
                ]);
            },
        }
        effects
    }

    /// The outcome of a clipboard read, for the page request that asked.
    pub fn clipboard_read_finished(&self, request_id: String, result: Result<String, String>) -> (effects: Vec<UiEffect>)
        ensures
            effects_view(effects@) == seq![
                UiEffectView::QueueClipboardReadResult {
                    request_id: request_id@,
                    ok: result is Ok,
                    text: match result {
                        Ok(t) => Some(t@),
                        Err(_) => None,
                    },
                    message: match result {
                        Ok(_) => "Clipboard read succeeded."@,
                        Err(e) => "Clipboard read failed: "@ + e@,
                    },
                },
                UiEffectView::RequestCallback,
            ],
    {
        let ghost rv = request_id@;
        let (ok, text, message) = match result {
            Ok(t) => (true, Some(t), new_string("Clipboard read succeeded.")),
            Err(e) => {
                let mut m = new_string("Clipboard read failed: ");
                push_str(&mut m, e.as_str());
                (false, None, m)
            },
        };
        let ghost tv = opt_text(text);
        let ghost mv = message@;
        let mut effects: Vec<UiEffect> = Vec::new();
        effects.push(UiEffect::QueueClipboardReadResult { request_id, ok, text, message });
        effects.push(UiEffect::RequestCallback);
        assert(effects_view(effects@) =~= seq![
            UiEffectView::QueueClipboardReadResult { request_id: rv, ok, text: tv, message: mv },
            UiEffectView::RequestCallback,
        ]);
        effects
    }

    /// Whether the host should be told that the state changed; the flag is cleared.
    pub fn take_dirty(&mut self) -> (was_dirty: bool)
        ensures
            was_dirty == old(self).state_dirty,
            !final(self).state_dirty,
            final(self).current_source@ == old(self).current_source@,
            same_feedback(final(self).compile_feedback, old(self).compile_feedback),
            same_knobs(final(self).knobs, old(self).knobs),
            final(self).global_settings.library_path@ == old(self).global_settings.library_path@,
    {
        let was = self.state_dirty;
        self.state_dirty = false;
        was
    }

    /// What the host stores: the program text and the knob names, under the current state
    /// version.
    pub fn persisted_snapshot(&self) -> (s: PersistedState)
        ensures
            s.version == STATE_VERSION,
            s.source@ == self.current_source@,
            s.knob_names matches Some(names) && texts(names@) == self.knobs.names_view(),
    {
        let names = self.knobs.snapshot_names();
        let mut v: Vec<String> = Vec::new();
        let mut i: usize = 0;
        while i < KNOB_COUNT
            invariant
                i <= KNOB_COUNT,
                v@.len() == i,
                forall|j: int| 0 <= j < i ==> #[trigger] v@[j]@ == names@[j]@,
            decreases KNOB_COUNT - i,
        {
            v.push(names[i].clone());
            i = i + 1;
        }
        proof {
            broadcast use crate::params::group_knob_bank;

            assert(texts(v@) =~= self.knobs.names_view());
        }
        PersistedState {
            version: STATE_VERSION,
            source: self.current_source.clone(),
            knob_names: Some(v),
        }
    }

    /// Restores stored state: stored names replace the current ones, the stored text becomes
    /// the program text, and the text is compiled. (Stored knob values are the caller's.)
    pub fn restore_begin(&mut self, state: PersistedState) -> (effects: Vec<UiEffect>)
        ensures
            final(self).current_source@ == state.source@,
            forall|i: int|
                0 <= i < KNOB_COUNT ==> #[trigger] final(self).knobs.names_view()[i] == match state.knob_names {
                    Some(names) => merged_name(old(self).knobs.names_view(), texts(names@), i),
                    None => old(self).knobs.names_view()[i],
                },
            final(self).knobs.value_bits_view() == old(self).knobs.value_bits_view(),
            same_feedback(final(self).compile_feedback, old(self).compile_feedback),
            final(self).state_dirty == old(self).state_dirty,
            final(self).global_settings.library_path@ == old(self).global_settings.library_path@,
            effects_view(effects@) == seq![
                UiEffectView::Compile {
                    source: state.source@,
                    library_path: old(self).global_settings.library_path@,
                },
            ],
    {
        proof {
            broadcast use crate::params::group_knob_bank;

        }
        match state.knob_names {
            Some(names) => {
                let current = self.knobs.snapshot_names();
                let next = merge_names(current, &names);
                proof {
                    assert(texts(current@) =~= old(self).knobs.names_view());
                }
                self.knobs.set_names(next);
            },
            None => {},
        }
        self.current_source = state.source;
        let mut effects: Vec<UiEffect> = Vec::new();
        let source = self.current_source.clone();
        let library_path = self.global_settings.library_path.clone();
        effects.push(UiEffect::Compile { source, library_path });
        assert(effects_view(effects@) =~= seq![
            UiEffectView::Compile {
                source: state.source@,
                library_path: old(self).global_settings.library_path@,
            },
        ]);
        effects
    }

    /// The outcome of compiling restored state: the knobs take the resolved names, and the
    /// open editor is told.
    pub fn restore_compiled(&mut self, result: Result<[String; KNOB_COUNT], String>) -> (effects:
        Vec<UiEffect>)
        ensures
            final(self).current_source@ == old(self).current_source@,
            final(self).state_dirty == old(self).state_dirty,
            final(self).global_settings.library_path@ == old(self).global_settings.library_path@,
            final(self).knobs.value_bits_view() == old(self).knobs.value_bits_view(),
            match result {
                Ok(names) => {
                    &&& forall|i: int|
                        0 <= i < KNOB_COUNT ==> #[trigger] final(self).knobs.names_view()[i]
                            == names@[i]@
                    &&& final(self).compile_feedback.ok
                    &&& final(self).compile_feedback.message@ == "Loaded and compiled saved state."@
                },
                Err(e) => {
                    &&& final(self).knobs.names_view() == old(self).knobs.names_view()
                    &&& !final(self).compile_feedback.ok
                    &&& final(self).compile_feedback.message@
                        == "Loaded source from saved state, but compilation failed: "@ + e@
                },
            },
            effects_view(effects@) == seq![UiEffectView::SendEditorState],
    {
        match result {
            Ok(names) => {
                self.knobs.set_names(names);
                self.compile_feedback = CompileFeedback::success("Loaded and compiled saved state.");
            },
            Err(e) => {
                let mut m = new_string("Loaded source from saved state, but compilation failed: ");
                push_str(&mut m, e.as_str());
                self.compile_feedback = CompileFeedback::error(m.as_str());
            },
        }
        let mut effects: Vec<UiEffect> = Vec::new();
        effects.push(UiEffect::SendEditorState);
        assert(effects_view(effects@) =~= seq![UiEffectView::SendEditorState]);
        effects
    }

    /// Handles one message of the editor page.
    pub fn handle_request(&mut self, request: UiRequest) -> (effects: Vec<UiEffect>)
        ensures
            match request {
                UiRequest::SetSource { source } => {
                    &&& final(self).current_source@ == text_or_empty(source)
                    &&& final(self).state_dirty
                    &&& same_feedback(final(self).compile_feedback, old(self).compile_feedback)
                    &&& same_knobs(final(self).knobs, old(self).knobs)
                    &&& final(self).global_settings.library_path@
                        == old(self).global_settings.library_path@
                    &&& effects_view(effects@) == full_state_effects()
                },
                UiRequest::CompileSource => {
                    &&& same_session(*final(self), *old(self))
                    &&& effects_view(effects@) == seq![
                        UiEffectView::Compile {
                            source: old(self).current_source@,
                            library_path: old(self).global_settings.library_path@,
                        },
                    ]
                },
                UiRequest::RequestState => {
                    &&& same_session(*final(self), *old(self))
                    &&& effects_view(effects@) == full_state_effects()
                },
                UiRequest::SetKnob { index, name, has_value } => match index {
                    Some(i) if i < KNOB_COUNT => {
                        &&& final(self).current_source@ == old(self).current_source@
                        &&& same_feedback(final(self).compile_feedback, old(self).compile_feedback)
                        &&& final(self).global_settings.library_path@
                            == old(self).global_settings.library_path@
                        &&& final(self).state_dirty
                        &&& final(self).knobs.value_bits_view() == old(self).knobs.value_bits_view()
                        &&& final(self).knobs.names_view() == match name {
                            Some(n) => old(self).knobs.names_view().update(
                                i as int,
                                crate::params::normalized_name(i as nat, n@),
                            ),
                            None => old(self).knobs.names_view(),
                        }
                        &&& effects_view(effects@) == if has_value {
                            seq![
                                UiEffectView::ApplyKnobValue { index: i },
                                UiEffectView::QueueKnobState,
                                UiEffectView::RequestCallback,
                            ]
                        } else {
                            seq![UiEffectView::QueueKnobState, UiEffectView::RequestCallback]
                        }
                    },
                    _ => same_session(*final(self), *old(self)) && effects@.len() == 0,
                },
                UiRequest::RequestGlobalSettings => {
                    &&& same_session(*final(self), *old(self))
                    &&& effects_view(effects@) == seq![
                        UiEffectView::QueueGlobalSettings,
                        UiEffectView::QueueAboutInfo,
                        UiEffectView::RequestCallback,
                    ]
                },
                UiRequest::SaveGlobalSettings { library_path } => {
                    &&& same_session(*final(self), *old(self))
                    &&& effects_view(effects@) == if trim(text_or_empty(library_path)).len() == 0 {
                        seq![
                            UiEffectView::QueueSaveSettingsResult {
                                ok: false,
                                message: EMPTY_LIBRARY_PATH_MESSAGE@,
                            },
                            UiEffectView::QueueGlobalSettings,
                            UiEffectView::RequestCallback,
                        ]
                    } else {
                        seq![
                            UiEffectView::SaveSettings {
                                library_path: trim(text_or_empty(library_path)),
                            },
                        ]
                    }
                },
                UiRequest::RequestExamples => {
                    &&& same_session(*final(self), *old(self))
                    &&& effects_view(effects@) == seq![
                        UiEffectView::QueueExampleList,
                        UiEffectView::RequestCallback,
                    ]
                },
                UiRequest::LoadExample { filename } => {
                    &&& same_session(*final(self), *old(self))
                    &&& effects_view(effects@) == match filename {
                        Some(f) => seq![UiEffectView::LookupExample { filename: f@ }],
                        None => Seq::<UiEffectView>::empty(),
                    }
                },
                UiRequest::ClipboardWrite { text } => {
                    &&& same_session(*final(self), *old(self))
                    &&& effects_view(effects@) == seq![
                        UiEffectView::WriteClipboard { text: text_or_empty(text) },
                    ]
                },
                UiRequest::ClipboardRead { request_id } => {
                    &&& same_session(*final(self), *old(self))
                    &&& effects_view(effects@) == seq![
                        UiEffectView::ReadClipboard { request_id: text_or_empty(request_id) },
                    ]
                },
                UiRequest::Unknown => same_session(*final(self), *old(self)) && effects@.len()
                    == 0,
            },
    {
        let mut effects: Vec<UiEffect> = Vec::new();
        match request {
            UiRequest::SetSource { source } => {
                self.current_source = string_or_empty(source);
                self.state_dirty = true;
                effects.push(UiEffect::QueueEditorState);
                effects.push(UiEffect::QueueKnobState);
                effects.push(UiEffect::QueueGlobalSettings);
                effects.push(UiEffect::QueueExampleList);
                effects.push(UiEffect::QueueAboutInfo);
                effects.push(UiEffect::RequestCallback);
                assert(effects_view(effects@) =~= full_state_effects());
            },
            UiRequest::CompileSource => {
                effects.push(
                    UiEffect::Compile {
                        source: self.current_source.clone(),
                        library_path: self.global_settings.library_path.clone(),
                    },
                );
                assert(effects_view(effects@) =~= seq![
                    UiEffectView::Compile {
                        source: self.current_source@,
                        library_path: self.global_settings.library_path@,
                    },
                ]);
            },
            UiRequest::RequestState => {
                effects.push(UiEffect::QueueEditorState);
                effects.push(UiEffect::QueueKnobState);
                effects.push(UiEffect::QueueGlobalSettings);
                effects.push(UiEffect::QueueExampleList);
                effects.push(UiEffect::QueueAboutInfo);
                effects.push(UiEffect::RequestCallback);
                assert(effects_view(effects@) =~= full_state_effects());
            },
            UiRequest::SetKnob { index, name, has_value } => {
                let i = match index {
                    Some(i) => i,
                    None => usize::MAX,
                };
                if i >= KNOB_COUNT {
                    return effects;
                }
                if let Some(n) = name {
                    self.knobs.set_name(i, n);
                }
                if has_value {
                    effects.push(UiEffect::ApplyKnobValue { index: i });
                }
                self.state_dirty = true;
                effects.push(UiEffect::QueueKnobState);
                effects.push(UiEffect::RequestCallback);
                if has_value {
                    assert(effects_view(effects@) =~= seq![
                        UiEffectView::ApplyKnobValue { index: i },
                        UiEffectView::QueueKnobState,
                        UiEffectView::RequestCallback,
                    ]);
                } else {
                    assert(effects_view(effects@) =~= seq![
                        UiEffectView::QueueKnobState,
                        UiEffectView::RequestCallback,
                    ]);
                }
            },
            UiRequest::RequestGlobalSettings => {
                effects.push(UiEffect::QueueGlobalSettings);
                effects.push(UiEffect::QueueAboutInfo);
                effects.push(UiEffect::RequestCallback);
                assert(effects_view(effects@) =~= seq![
                    UiEffectView::QueueGlobalSettings,
                    UiEffectView::QueueAboutInfo,
                    UiEffectView::RequestCallback,
                ]);
            },
            UiRequest::SaveGlobalSettings { library_path } => {
                let given = string_or_empty(library_path);
                let trimmed = trim_str(given.as_str());
                if trimmed.as_str().is_empty() {
                    effects.push(
                        UiEffect::QueueSaveSettingsResult {
                            ok: false,
                            message: new_string(EMPTY_LIBRARY_PATH_MESSAGE),
                        },
                    );
                    effects.push(UiEffect::QueueGlobalSettings);
                    effects.push(UiEffect::RequestCallback);
                    assert(effects_view(effects@) =~= seq![
                        UiEffectView::QueueSaveSettingsResult {
                            ok: false,
                            message: EMPTY_LIBRARY_PATH_MESSAGE@,
                        },
                        UiEffectView::QueueGlobalSettings,
                        UiEffectView::RequestCallback,
                    ]);
                } else {
                    let ghost t = trimmed@;
                    effects.push(UiEffect::SaveSettings { library_path: trimmed });
                    assert(effects_view(effects@) =~= seq![
                        UiEffectView::SaveSettings { library_path: t },
                    ]);
                }
            },
            UiRequest::RequestExamples => {
                effects.push(UiEffect::QueueExampleList);
                effects.push(UiEffect::RequestCallback);
                assert(effects_view(effects@) =~= seq![
                    UiEffectView::QueueExampleList,
                    UiEffectView::RequestCallback,
                ]);
            },
            UiRequest::LoadExample { filename } => {
                match filename {
                    Some(f) => {
                        let ghost fv = f@;
                        effects.push(UiEffect::LookupExample { filename: f });
                        assert(effects_view(effects@) =~= seq![
                            UiEffectView::LookupExample { filename: fv },
                        ]);
                    },
                    None => {
                        assert(effects_view(effects@) =~= Seq::<UiEffectView>::empty());
                    },
                }
            },
            UiRequest::ClipboardWrite { text } => {
                let t = string_or_empty(text);
                let ghost tv = t@;
                effects.push(UiEffect::WriteClipboard { text: t });
                assert(effects_view(effects@) =~= seq![UiEffectView::WriteClipboard { text: tv }]);
            },
            UiRequest::ClipboardRead { request_id } => {
                let id = string_or_empty(request_id);
                let ghost iv = id@;
                effects.push(UiEffect::ReadClipboard { request_id: id });
                assert(effects_view(effects@) =~= seq![
                    UiEffectView::ReadClipboard { request_id: iv },
                ]);
            },
            UiRequest::Unknown => {},
        }
        effects
    }
}

/// Restoring what a session saved gives back its program text and knob names, whatever the
/// restoring session held before: `persisted_snapshot` followed by `restore_begin`.
pub proof fn law_restore_of_snapshot(
    saved: PluginSession,
    snapshot: PersistedState,
    before: PluginSession,
    after: PluginSession,
)
    requires
        // what `saved.persisted_snapshot()` gives
        snapshot.source@ == saved.current_source@,
        snapshot.knob_names matches Some(names) && texts(names@) == saved.knobs.names_view(),
        // what `restore_begin(snapshot)` leaves of `before`
        after.current_source@ == snapshot.source@,
        forall|i: int|
            0 <= i < KNOB_COUNT ==> #[trigger] after.knobs.names_view()[i] == match snapshot.knob_names {
                Some(names) => merged_name(before.knobs.names_view(), texts(names@), i),
                None => before.knobs.names_view()[i],
            },
    ensures
        after.current_source@ == saved.current_source@,
        after.knobs.names_view() == saved.knobs.names_view(),
{
    broadcast use crate::params::group_knob_bank;

    assert(after.knobs.names_view() =~= saved.knobs.names_view());
}

/// The script that hands a JSON message to the editor page.
pub fn plugin_message_script(json: &str) -> (js: String)
    ensures
        js@ == "window.__onPluginMessage && window.__onPluginMessage("@ + json@ + ")"@,
{
    let mut js = new_string("window.__onPluginMessage && window.__onPluginMessage(");
    push_str(&mut js, json);
    push_str(&mut js, ")");
    js
}

} // verus!
