use vstd::prelude::*;

use crate::params::KNOB_COUNT;
use crate::text::{push_str, texts};

verus! {

/// The plugin state that the host stores, but for the knob values (kept by the caller).
#[derive(Debug)]
pub struct PersistedState {
    pub version: u32,
    pub source: String,
    pub knob_names: Option<Vec<String>>,
}

/// The version that `save` writes.
pub const STATE_VERSION: u32 = 2;

pub const INVALID_STATE_MESSAGE: &'static str = "Invalid plugin state format.";

/// Trusted: `String::from_utf8`, which std documents as succeeding exactly on valid UTF-8
/// and then holding the decoded text.
#[verifier::external_body]
fn utf8_string(bytes: Vec<u8>) -> (r: Option<String>)
    ensures
        r is Some <==> vstd::utf8::valid_utf8(bytes@),
        r matches Some(s) ==> s@ == vstd::utf8::decode_utf8(bytes@),
{
    String::from_utf8(bytes).ok()
}

/// Reads stored state: nothing stored means nothing to restore; state that parsed is taken
/// as it is; otherwise the bytes are taken as the program text of the first state version,
/// when they are UTF-8.
pub fn decode_state(parsed: Option<PersistedState>, data: Vec<u8>) -> (r: Result<
    Option<PersistedState>,
    String,
>)
    ensures
        data@.len() == 0 ==> r matches Ok(None),
        data@.len() > 0 && parsed is Some ==> r == Ok::<Option<PersistedState>, String>(parsed),
        data@.len() > 0 && parsed is None ==> if vstd::utf8::valid_utf8(data@) {
            r matches Ok(Some(s)) && s.version == 1 && s.source@ == vstd::utf8::decode_utf8(data@)
                && s.knob_names is None
        } else {
            r matches Err(e) && e@ == INVALID_STATE_MESSAGE@
        },
{
    if data.len() == 0 {
        return Ok(None);
    }
    if let Some(state) = parsed {
        return Ok(Some(state));
    }
    match utf8_string(data) {
        Some(source) => Ok(Some(PersistedState { version: 1, source, knob_names: None })),
        None => {
            let mut e = String::new();
            push_str(&mut e, INVALID_STATE_MESSAGE);
            Err(e)
        },
    }
}

/// A knob's name after restoring: the stored name where one was stored, else the current one.
pub open spec fn merged_name(current: Seq<Seq<char>>, stored: Seq<Seq<char>>, i: int) -> Seq<char> {
    if i < stored.len() {
        stored[i]
    } else {
        current[i]
    }
}

/// The current names with the first stored names written over them.
pub fn merge_names(current: [String; KNOB_COUNT], stored: &Vec<String>) -> (r: [String; KNOB_COUNT])
    ensures
        forall|i: int|
            0 <= i < KNOB_COUNT ==> #[trigger] r@[i]@ == merged_name(
                texts(current@),
                texts(stored@),
                i,
            ),
{
    let mut next = current;
    let mut i: usize = 0;
    while i < KNOB_COUNT && i < stored.len()
        invariant
            i <= KNOB_COUNT,
            i <= stored.len(),
            forall|j: int| 0 <= j < i ==> #[trigger] next@[j]@ == stored@[j]@,
            forall|j: int| i <= j < KNOB_COUNT ==> #[trigger] next@[j]@ == current@[j]@,
        decreases KNOB_COUNT - i,
    {
        next[i] = stored[i].clone();
        i = i + 1;
    }
    assert forall|j: int| 0 <= j < KNOB_COUNT implies #[trigger] next@[j]@ == merged_name(
        texts(current@),
        texts(stored@),
        j,
    ) by {
        if j < i {
            assert(texts(stored@)[j] == stored@[j]@);
        } else {
            assert(texts(current@)[j] == current@[j]@);
        }
    }
    next
}

} // verus!
