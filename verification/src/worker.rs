use base64::Engine;
use vstd::prelude::*;

use crate::control::{
    claimed_after_claim, expected_claim, names_after_claim, slider_slot, ControlCompileResult, NameStyle, SlotClaim, SlotTable,
};
use crate::params::KNOB_COUNT;
use crate::text::{
    decimal, decimal_string, join_strings, join_texts, push_str, strictly_sorted, texts,
    chars_of, default_knob_name, default_knob_name_string, is_ascii_control,
    is_ascii_control_char, is_whitespace, is_whitespace_char, lemma_default_knob_name_trimmed,
    lemma_trim_shape, string_of, trim, trim_chars,
};

verus! {

/// Drops ASCII control characters, turns every other whitespace character into a space, and
/// keeps only the first of several spaces in a row.
pub open spec fn collapse_spaces(s: Seq<char>) -> Seq<char>
    decreases s.len(),
{
    if s.len() == 0 {
        s
    } else {
        let r = collapse_spaces(s.drop_last());
        let c = s.last();
        if is_ascii_control(c) {
            r
        } else if is_whitespace(c) {
            if r.len() > 0 && r.last() == ' ' {
                r
            } else {
                r.push(' ')
            }
        } else {
            r.push(c)
        }
    }
}

/// The name the compiler gives a knob for a `Control!` label: the label trimmed, cleaned of
/// control characters, with runs of whitespace made one space, trimmed again; the default
/// name when nothing is left.
pub open spec fn collapsed_name(index: nat, label: Seq<char>) -> Seq<char> {
    let t = trim(label);
    if t.len() == 0 {
        default_knob_name(index)
    } else {
        let f = trim(collapse_spaces(t));
        if f.len() == 0 {
            default_knob_name(index)
        } else {
            f
        }
    }
}

/// Text in the form that `collapse_spaces` gives: no control characters, no whitespace but
/// the plain space, and no two spaces in a row.
pub open spec fn is_clean_text(s: Seq<char>) -> bool {
    &&& forall|i: int| 0 <= i < s.len() ==> !is_ascii_control(#[trigger] s[i])
    &&& forall|i: int| 0 <= i < s.len() && is_whitespace(#[trigger] s[i]) ==> s[i] == ' '
    &&& forall|i: int| 0 <= i < s.len() - 1 && #[trigger] s[i] == ' ' ==> s[i + 1] != ' '
}

/// `collapse_spaces` on a character vector.
pub fn collapse_spaces_chars(v: &Vec<char>) -> (r: Vec<char>)
    ensures
        r@ == collapse_spaces(v@),
{
    let mut out: Vec<char> = Vec::new();
    let mut prev_space = false;
    let mut i: usize = 0;
    while i < v.len()
        invariant
            i <= v.len(),
            out@ == collapse_spaces(v@.take(i as int)),
            prev_space == (out@.len() > 0 && out@.last() == ' '),
        decreases v.len() - i,
    {
        let ch = v[i];
        proof {
            assert(v@.take(i + 1).drop_last() =~= v@.take(i as int));
            assert(v@.take(i + 1).last() == ch);
        }
        if is_ascii_control_char(ch) {
            i = i + 1;
            continue;
        }
        let next = if is_whitespace_char(ch) {
            ' '
        } else {
            ch
        };
        if next == ' ' {
            if prev_space {
                i = i + 1;
                continue;
            }
            prev_space = true;
        } else {
            prev_space = false;
        }
        out.push(next);
        i = i + 1;
    }
    assert(v@.take(v.len() as int) =~= v@);
    out
}

/// The name of a knob for a `Control!` label, as the compiler worker cleans it.
pub fn normalize_name(index: usize, name: &str) -> (r: String)
    requires
        index < usize::MAX,
    ensures
        r@ == collapsed_name(index as nat, name@),
{
    let chars = chars_of(name);
    let trimmed = trim_chars(&chars);
    if trimmed.len() == 0 {
        return default_knob_name_string(index);
    }
    let normalized = collapse_spaces_chars(&trimmed);
    let final_name = trim_chars(&normalized);
    if final_name.len() == 0 {
        default_knob_name_string(index)
    } else {
        string_of(&final_name)
    }
}

proof fn lemma_collapse_clean(s: Seq<char>)
    ensures
        is_clean_text(collapse_spaces(s)),
    decreases s.len(),
{
    if s.len() > 0 {
        lemma_collapse_clean(s.drop_last());
        let r = collapse_spaces(s.drop_last());
        let out = collapse_spaces(s);
        assert forall|i: int| 0 <= i < out.len() - 1 && #[trigger] out[i] == ' ' implies out[i
            + 1] != ' ' by {
            if out.len() > r.len() && i == out.len() - 2 {
                assert(out[i] == r.last());
            } else {
                assert(out[i] == r[i]);
                assert(out[i + 1] == r[i + 1]);
            }
        }
        assert forall|i: int| 0 <= i < out.len() implies !is_ascii_control(#[trigger] out[i]) by {
            if i < r.len() {
                assert(out[i] == r[i]);
            }
        }
        assert forall|i: int| 0 <= i < out.len() && is_whitespace(#[trigger] out[i]) implies out[i]
            == ' ' by {
            if i < r.len() {
                assert(out[i] == r[i]);
            }
        }
    }
}

proof fn lemma_collapse_fixed(s: Seq<char>)
    requires
        is_clean_text(s),
    ensures
        collapse_spaces(s) == s,
    decreases s.len(),
{
    if s.len() > 0 {
        let p = s.drop_last();
        assert(is_clean_text(p)) by {
            assert forall|i: int| 0 <= i < p.len() - 1 && #[trigger] p[i] == ' ' implies p[i + 1]
                != ' ' by {
                assert(s[i] == p[i]);
                assert(s[i + 1] == p[i + 1]);
            }
            assert forall|i: int| 0 <= i < p.len() implies !is_ascii_control(#[trigger] p[i]) by {
                assert(s[i] == p[i]);
            }
            assert forall|i: int| 0 <= i < p.len() && is_whitespace(#[trigger] p[i]) implies p[i]
                == ' ' by {
                assert(s[i] == p[i]);
            }
        }
        lemma_collapse_fixed(p);
        assert(!is_ascii_control(s[s.len() - 1]));
        if s.len() >= 2 && s.last() == ' ' {
            assert(s[s.len() - 2] != ' ');
        }
        assert(p.push(s.last()) =~= s);
    }
}

proof fn lemma_clean_subrange(s: Seq<char>, lo: int, hi: int)
    requires
        is_clean_text(s),
        0 <= lo <= hi <= s.len(),
    ensures
        is_clean_text(s.subrange(lo, hi)),
{
    let t = s.subrange(lo, hi);
    assert forall|i: int| 0 <= i < t.len() - 1 && #[trigger] t[i] == ' ' implies t[i + 1] != ' ' by {
        assert(t[i] == s[i + lo]);
        assert(t[i + 1] == s[i + 1 + lo]);
    }
    assert forall|i: int| 0 <= i < t.len() implies !is_ascii_control(#[trigger] t[i]) by {
        assert(t[i] == s[i + lo]);
    }
    assert forall|i: int| 0 <= i < t.len() && is_whitespace(#[trigger] t[i]) implies t[i] == ' ' by {
        assert(t[i] == s[i + lo]);
    }
}

/// A name the compiler worker gives a knob is not empty, has no control characters, no
/// whitespace but single spaces between words, and no space at either end; cleaning it
/// again gives it back unchanged. A label of nothing but whitespace and ASCII control
/// characters gives the default name.
pub proof fn law_collapsed_name_clean(index: nat, label: Seq<char>)
    ensures
        collapsed_name(index, label).len() > 0,
        collapsed_name(index, label) == trim(collapsed_name(index, label)),
        is_clean_text(collapsed_name(index, label)),
        collapsed_name(index, collapsed_name(index, label)) == collapsed_name(index, label),
        blank_label(label) ==> collapsed_name(index, label) == default_knob_name(index),
{
    if blank_label(label) {
        lemma_blank_label_default(index, label);
    }
    let n = collapsed_name(index, label);
    lemma_default_knob_name_trimmed(index);
    let t = trim(label);
    if t.len() > 0 {
        let c = collapse_spaces(t);
        lemma_collapse_clean(t);
        crate::text::lemma_trim_subrange(c);
        let f = trim(c);
        let (lo, hi) = choose|lo: int, hi: int|
            0 <= lo <= hi <= c.len() && trim(c) == c.subrange(lo, hi);
        lemma_clean_subrange(c, lo, hi);
        crate::text::lemma_trim_idempotent(c);
    }
    assert(is_clean_text(n)) by {
        if n == default_knob_name(index) {
            lemma_default_name_clean(index);
        }
    }
    crate::text::lemma_trim_idempotent(n);
    lemma_trim_shape(n);
    // cleaning `n` again
    lemma_collapse_fixed(n);
}

/// A label of whitespace and ASCII control characters only.
pub open spec fn blank_label(label: Seq<char>) -> bool {
    forall|i: int| 0 <= i < label.len() ==> is_whitespace(#[trigger] label[i]) || is_ascii_control(label[i])
}

proof fn lemma_collapse_blank(s: Seq<char>)
    requires
        blank_label(s),
    ensures
        forall|i: int| 0 <= i < collapse_spaces(s).len() ==> #[trigger] collapse_spaces(s)[i] == ' ',
    decreases s.len(),
{
    if s.len() > 0 {
        let d = s.drop_last();
        assert forall|i: int| 0 <= i < d.len() implies is_whitespace(#[trigger] d[i]) || is_ascii_control(d[i]) by {
            assert(d[i] == s[i]);
        }
        lemma_collapse_blank(d);
        let r = collapse_spaces(d);
        assert(is_whitespace(s[s.len() - 1]) || is_ascii_control(s[s.len() - 1]));
        let full = collapse_spaces(s);
        assert forall|i: int| 0 <= i < full.len() implies #[trigger] full[i] == ' ' by {
            if i < r.len() {
                assert(full[i] == r[i]);
            }
        }
    }
}

proof fn lemma_blank_label_default(index: nat, label: Seq<char>)
    requires
        blank_label(label),
    ensures
        collapsed_name(index, label) == default_knob_name(index),
{
    let t = trim(label);
    if t.len() > 0 {
        crate::text::lemma_trim_subrange(label);
        let (lo, hi) = choose|lo: int, hi: int|
            0 <= lo <= hi <= label.len() && trim(label) == label.subrange(lo, hi);
        assert forall|i: int| 0 <= i < t.len() implies is_whitespace(#[trigger] t[i]) || is_ascii_control(t[i]) by {
            assert(t[i] == label[i + lo]);
        }
        let c = collapse_spaces(t);
        lemma_collapse_blank(t);
        crate::text::lemma_trim_subrange(c);
        let (lo2, hi2) = choose|lo2: int, hi2: int|
            0 <= lo2 <= hi2 <= c.len() && trim(c) == c.subrange(lo2, hi2);
        lemma_trim_shape(c);
        if trim(c).len() > 0 {
            assert(trim(c)[0] == c[lo2]);
            assert(is_whitespace(' '));
        }
    }
}

proof fn lemma_default_name_clean(index: nat)
    ensures
        is_clean_text(default_knob_name(index)),
{
    crate::text::lemma_default_knob_name_digits(index);
}

/// The `Control!` slot table of the compiler worker: labels name slots by the worker's rule
/// (cleaned and collapsed).
pub struct ControlSystemPlugin {
    table: SlotTable,
}

impl ControlSystemPlugin {
    pub closed spec fn slot_names_view(self) -> Seq<Seq<char>> {
        self.table.names_view()
    }

    pub closed spec fn claimed_view(self) -> Seq<bool> {
        self.table.claimed_view()
    }

    pub closed spec fn overflow_view(self) -> Seq<Seq<char>> {
        self.table.overflow_view()
    }

    /// A table over the given slot names, with nothing claimed.
    pub fn new(slot_names: [String; KNOB_COUNT]) -> (p: Self)
        ensures
            forall|i: int|
                0 <= i < KNOB_COUNT ==> #[trigger] p.slot_names_view()[i] == slot_names@[i]@,
            forall|i: int| 0 <= i < KNOB_COUNT ==> !#[trigger] p.claimed_view()[i],
            p.slot_names_view().len() == KNOB_COUNT,
            p.claimed_view().len() == KNOB_COUNT,
            p.overflow_view().len() == 0,
    {
        ControlSystemPlugin { table: SlotTable::new(slot_names) }
    }

    /// The slot names and the sorted labels that found no slot.
    pub fn compile_result(&self) -> (r: ControlCompileResult)
        ensures
            forall|i: int|
                0 <= i < KNOB_COUNT ==> #[trigger] r.slot_names@[i]@ == self.slot_names_view()[i],
            texts(r.overflow_labels@) == self.overflow_view(),
            strictly_sorted(texts(r.overflow_labels@)),
    {
        self.table.compile_result()
    }

    /// Binds a label to a slot (see `expected_claim`); an assigned slot takes the cleaned label
    /// as its name. `None` when every slot is taken.
    pub fn claim_or_assign_slot(&mut self, label: &str) -> (r: Option<usize>)
        ensures
            match expected_claim(old(self).slot_names_view(), old(self).claimed_view(), label@) {
                SlotClaim::Existing(i) => {
                    &&& r == Some(i)
                    &&& final(self).slot_names_view() == old(self).slot_names_view()
                    &&& final(self).claimed_view() == old(self).claimed_view().update(i as int, true)
                    &&& final(self).overflow_view() == old(self).overflow_view()
                },
                SlotClaim::Assigned(i) => {
                    &&& r == Some(i)
                    &&& final(self).slot_names_view() == old(self).slot_names_view().update(
                        i as int,
                        collapsed_name(i as nat, label@),
                    )
                    &&& final(self).claimed_view() == old(self).claimed_view().update(i as int, true)
                    &&& final(self).overflow_view() == old(self).overflow_view()
                },
                SlotClaim::Overflow => {
                    &&& r is None
                    &&& final(self).slot_names_view() == old(self).slot_names_view()
                    &&& final(self).claimed_view() == old(self).claimed_view()
                    &&& forall|t: Seq<char>|
                        final(self).overflow_view().contains(t) <==> (old(
                            self,
                        ).overflow_view().contains(t) || t == label@)
                },
            },
            r matches Some(i) ==> i < KNOB_COUNT,
    {
        match self.table.claim(label, NameStyle::Collapsed) {
            SlotClaim::Existing(i) => Some(i),
            SlotClaim::Assigned(i) => Some(i),
            SlotClaim::Overflow => None,
        }
    }

    /// The slot a `Control!` call reads: the first argument's label claims one; without a
    /// label it is slot 0, and a label that found no slot reads the last one.
    pub fn control_slot(&mut self, label: Option<&str>) -> (slot: usize)
        ensures
            label is None ==> slot == 0 && *final(self) == *old(self),
            label matches Some(l) ==> slot == slider_slot(
                expected_claim(old(self).slot_names_view(), old(self).claimed_view(), l@),
            ),
            label matches Some(l) ==> final(self).slot_names_view() == names_after_claim(
                old(self).slot_names_view(),
                old(self).claimed_view(),
                l@,
                NameStyle::Collapsed,
            ),
            label matches Some(l) ==> final(self).claimed_view() == claimed_after_claim(
                old(self).slot_names_view(),
                old(self).claimed_view(),
                l@,
            ),
            label matches Some(l) ==> forall|t: Seq<char>|
                final(self).overflow_view().contains(t) <==> (old(self).overflow_view().contains(
                    t,
                ) || (t == l@ && expected_claim(
                    old(self).slot_names_view(),
                    old(self).claimed_view(),
                    l@,
                ) == SlotClaim::Overflow)),
            slot < KNOB_COUNT,
    {
        match label {
            None => 0,
            Some(l) => match self.claim_or_assign_slot(l) {
                Some(i) => i,
                None => KNOB_COUNT - 1,
            },
        }
    }
}

/// The worker's slot table holds one name and one claim flag per knob.
pub broadcast proof fn lemma_worker_plugin_len(p: ControlSystemPlugin)
    ensures
        #[trigger] p.slot_names_view().len() == KNOB_COUNT,
        p.claimed_view().len() == KNOB_COUNT,
{
    crate::control::lemma_slot_table_len(p.table);
}

/// Inputs and outputs of a compiled `dsp()`.
#[derive(Clone, Copy, PartialEq, Eq, Structural, Debug)]
pub struct IoChannels {
    pub input: u32,
    pub output: u32,
}

pub open spec fn channels_message(input: u32, output: u32) -> Seq<char> {
    "dsp() must expose 0 or 2 input / 2 output channels, but got "@ + decimal(input as nat)
        + " input / "@ + decimal(output as nat) + " output"@
}

/// A program must have `dsp()` with 0 or 2 inputs and 2 outputs.
pub fn validate_channels(io: Option<IoChannels>) -> (r: Result<(), String>)
    ensures
        match io {
            None => r matches Err(e) && e@ == "mimium source must define dsp() with stereo output"@,
            Some(info) => if (info.input != 0 && info.input != 2) || info.output != 2 {
                r matches Err(e) && e@ == channels_message(info.input, info.output)
            } else {
                r is Ok
            },
        },
{
    let info = match io {
        None => {
            let mut e = String::new();
            push_str(&mut e, "mimium source must define dsp() with stereo output");
            return Err(e);
        },
        Some(info) => info,
    };
    if (info.input != 0 && info.input != 2) || info.output != 2 {
        let mut e = String::new();
        push_str(&mut e, "dsp() must expose 0 or 2 input / 2 output channels, but got ");
        let input = decimal_string(info.input as usize);
        push_str(&mut e, input.as_str());
        push_str(&mut e, " input / ");
        let output = decimal_string(info.output as usize);
        push_str(&mut e, output.as_str());
        push_str(&mut e, " output");
        return Err(e);
    }
    Ok(())
}

/// A knob name list cut or padded with empty names to one name per knob.
pub open spec fn fitted_name(names: Seq<Seq<char>>, i: int) -> Seq<char> {
    if i < names.len() {
        names[i]
    } else {
        Seq::<char>::empty()
    }
}

fn name_or_empty(names: &Vec<String>, i: usize) -> (r: String)
    ensures
        r@ == fitted_name(texts(names@), i as int),
{
    if i < names.len() {
        names[i].clone()
    } else {
        String::new()
    }
}

/// One name per knob: the first names of the list, padded with empty names.
pub fn fit_knob_names(names: Vec<String>) -> (r: [String; KNOB_COUNT])
    ensures
        forall|i: int|
            0 <= i < KNOB_COUNT ==> #[trigger] r@[i]@ == fitted_name(texts(names@), i),
{
    [
        name_or_empty(&names, 0),
        name_or_empty(&names, 1),
        name_or_empty(&names, 2),
        name_or_empty(&names, 3),
        name_or_empty(&names, 4),
        name_or_empty(&names, 5),
        name_or_empty(&names, 6),
        name_or_empty(&names, 7),
    ]
}

pub open spec fn overflow_message(labels: Seq<Seq<char>>) -> Seq<char> {
    "Control! labels exceeded "@ + decimal(KNOB_COUNT as nat) + " knobs: "@ + join_texts(
        labels,
        ", "@,
    )
}

/// After the program compiled: the channels must fit, and no label may have overflowed.
/// Gives back the names the slots ended with.
pub fn finish_compile(io: Option<IoChannels>, result: ControlCompileResult) -> (r: Result<
    [String; KNOB_COUNT],
    String,
>)
    ensures
        validate_channels_fails(io) ==> (r matches Err(e) && e@ == channels_error(io)),
        !validate_channels_fails(io) && result.overflow_labels.len() > 0 ==> (r matches Err(e)
            && e@ == overflow_message(texts(result.overflow_labels@))),
        !validate_channels_fails(io) && result.overflow_labels.len() == 0 ==> (r matches Ok(
            names,
        ) && names@ == result.slot_names@),
{
    match validate_channels(io) {
        Err(e) => return Err(e),
        Ok(()) => {},
    }
    if result.overflow_labels.len() > 0 {
        let mut e = String::new();
        push_str(&mut e, "Control! labels exceeded ");
        let count = decimal_string(KNOB_COUNT);
        push_str(&mut e, count.as_str());
        push_str(&mut e, " knobs: ");
        let labels = join_strings(&result.overflow_labels, ", ");
        push_str(&mut e, labels.as_str());
        return Err(e);
    }
    Ok(result.slot_names)
}

/// Whether `validate_channels` refuses these channels.
pub open spec fn validate_channels_fails(io: Option<IoChannels>) -> bool {
    match io {
        None => true,
        Some(info) => (info.input != 0 && info.input != 2) || info.output != 2,
    }
}

/// The message `validate_channels` refuses these channels with.
pub open spec fn channels_error(io: Option<IoChannels>) -> Seq<char> {
    match io {
        None => "mimium source must define dsp() with stereo output"@,
        Some(info) => channels_message(info.input, info.output),
    }
}

/// The result of base64 encoding with the standard alphabet and padding.
pub uninterp spec fn base64_standard_encoding(bytes: Seq<u8>) -> Seq<char>;

/// Trusted: `base64::engine::general_purpose::STANDARD.encode`; its result is named.
#[verifier::external_body]
fn encode_base64(bytes: &[u8]) -> (r: String)
    ensures
        r@ == base64_standard_encoding(bytes@),
{
    base64::engine::general_purpose::STANDARD.encode(bytes)
}

/// What the worker answers a compile request with.
#[derive(Debug)]
pub struct WorkerReply {
    pub ok: bool,
    pub message: String,
    pub wasm_base64: Option<String>,
    pub io_channels: Option<IoChannels>,
    pub resolved_knob_names: Vec<String>,
}

/// A refusal with the given message and no program.
pub fn failure_reply(message: String) -> (r: WorkerReply)
    ensures
        !r.ok,
        r.message@ == message@,
        r.wasm_base64 is None,
        r.io_channels is None,
        r.resolved_knob_names@.len() == 0,
{
    WorkerReply {
        ok: false,
        message,
        wasm_base64: None,
        io_channels: None,
        resolved_knob_names: Vec::new(),
    }
}

/// The refusal of a request that could not be decoded.
pub fn invalid_request_reply(error: &str) -> (r: WorkerReply)
    ensures
        !r.ok,
        r.message@ == "invalid compile request: "@ + error@,
        r.wasm_base64 is None,
        r.io_channels is None,
        r.resolved_knob_names@.len() == 0,
{
    let mut message = String::new();
    push_str(&mut message, "invalid compile request: ");
    push_str(&mut message, error);
    failure_reply(message)
}

/// The answer for a program that compiled: its Wasm in base64, its channels and the slot
/// names.
pub fn success_reply(wasm: &[u8], io: Option<IoChannels>, names: &[String; KNOB_COUNT]) -> (r:
    WorkerReply)
    ensures
        r.ok,
        r.message@ == "Compiled in isolated process."@,
        r.wasm_base64 matches Some(w) && w@ == base64_standard_encoding(wasm@),
        r.io_channels == io,
        texts(r.resolved_knob_names@) == texts(names@),
{
    let mut message = String::new();
    push_str(&mut message, "Compiled in isolated process.");
    let encoded = encode_base64(wasm);
    let mut resolved: Vec<String> = Vec::new();
    let mut i: usize = 0;
    while i < KNOB_COUNT
        invariant
            i <= KNOB_COUNT,
            resolved@.len() == i,
            forall|j: int| 0 <= j < i ==> #[trigger] resolved@[j]@ == names@[j]@,
        decreases KNOB_COUNT - i,
    {
        resolved.push(names[i].clone());
        i = i + 1;
    }
    assert(texts(resolved@) =~= texts(names@));
    WorkerReply {
        ok: true,
        message,
        wasm_base64: Some(encoded),
        io_channels: io,
        resolved_knob_names: resolved,
    }
}

/// The library path the compiler sees: the given one trimmed, or none when it is blank.
pub fn library_path_setting(value: Option<&str>) -> (r: Option<String>)
    ensures
        match value {
            Some(v) => if trim(v@).len() > 0 {
                r matches Some(s) && s@ == trim(v@)
            } else {
                r is None
            },
            None => r is None,
        },
{
    match value {
        None => None,
        Some(v) => {
            let t = crate::text::trim_str(v);
            if t.as_str().is_empty() {
                None
            } else {
                Some(t)
            }
        },
    }
}

} // verus!
