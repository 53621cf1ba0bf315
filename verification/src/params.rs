use vstd::prelude::*;

use crate::text::{
    chars_of, default_knob_name, default_knob_name_string, lemma_default_knob_name_trimmed,
    lemma_trim_idempotent, replaced_string, string_of, trim, trim_chars,
};

verus! {

/// Number of automatable knobs the plugin exposes.
pub const KNOB_COUNT: usize = 8;

/// Bit pattern of the `f64` value 0.5, the value every knob starts at.
pub const DEFAULT_KNOB_VALUE_BITS: u64 = 0x3FE0_0000_0000_0000;

/// The name a knob gets for a candidate name: the candidate without surrounding whitespace,
/// or the knob's default name when nothing is left.
pub open spec fn normalized_name(index: nat, candidate: Seq<char>) -> Seq<char> {
    if trim(candidate).len() == 0 {
        default_knob_name(index)
    } else {
        trim(candidate)
    }
}

/// Names and values of the knobs. A value is kept as the bit pattern of its `f64`.
pub struct KnobBank {
    names: Vec<String>,
    values: Vec<u64>,
}

impl KnobBank {
    #[verifier::type_invariant]
    closed spec fn shape(self) -> bool {
        self.names.len() == KNOB_COUNT && self.values.len() == KNOB_COUNT
    }

    /// The name of each knob.
    pub closed spec fn names_view(self) -> Seq<Seq<char>> {
        Seq::new(KNOB_COUNT as nat, |i: int| self.names@[i]@)
    }

    /// The bit pattern of each knob's value.
    pub closed spec fn value_bits_view(self) -> Seq<u64> {
        Seq::new(KNOB_COUNT as nat, |i: int| self.values@[i])
    }

    /// A bank whose knobs are named `Knob 1` to `Knob 8` and stand at 0.5.
    pub fn new() -> (bank: Self)
        ensures
            forall|i: int|
                0 <= i < KNOB_COUNT ==> #[trigger] bank.names_view()[i] == default_knob_name(
                    i as nat,
                ),
            forall|i: int|
                0 <= i < KNOB_COUNT ==> #[trigger] bank.value_bits_view()[i]
                    == DEFAULT_KNOB_VALUE_BITS,
    {
        let mut names: Vec<String> = Vec::new();
        let mut values: Vec<u64> = Vec::new();
        let mut i: usize = 0;
        while i < KNOB_COUNT
            invariant
                i <= KNOB_COUNT,
                names.len() == i,
                values.len() == i,
                forall|j: int| 0 <= j < i ==> #[trigger] names@[j]@ == default_knob_name(j as nat),
                forall|j: int| 0 <= j < i ==> #[trigger] values@[j] == DEFAULT_KNOB_VALUE_BITS,
            decreases KNOB_COUNT - i,
        {
            names.push(default_knob_name_string(i));
            values.push(DEFAULT_KNOB_VALUE_BITS);
            i = i + 1;
        }
        KnobBank { names, values }
    }

    /// A copy of every knob's name.
    pub fn snapshot_names(&self) -> (names: [String; KNOB_COUNT])
        ensures
            forall|i: int| 0 <= i < KNOB_COUNT ==> #[trigger] names@[i]@ == self.names_view()[i],
    {
        proof {
            use_type_invariant(self);
        }
        let names = [
            self.names[0].clone(),
            self.names[1].clone(),
            self.names[2].clone(),
            self.names[3].clone(),
            self.names[4].clone(),
            self.names[5].clone(),
            self.names[6].clone(),
            self.names[7].clone(),
        ];
        names
    }

    /// Replaces every knob's name.
    pub fn set_names(&mut self, names: [String; KNOB_COUNT])
        ensures
            forall|i: int|
                0 <= i < KNOB_COUNT ==> #[trigger] final(self).names_view()[i] == names@[i]@,
            final(self).value_bits_view() == old(self).value_bits_view(),
    {
        proof {
            use_type_invariant(&*self);
        }
        let mut next: Vec<String> = Vec::new();
        let mut i: usize = 0;
        while i < KNOB_COUNT
            invariant
                i <= KNOB_COUNT,
                next.len() == i,
                forall|j: int| 0 <= j < i ==> #[trigger] next@[j]@ == names@[j]@,
            decreases KNOB_COUNT - i,
        {
            next.push(names[i].clone());
            i = i + 1;
        }
        self.names = next;
        assert(self.value_bits_view() =~= old(self).value_bits_view());
    }

    /// Renames one knob; the name is normalized first. An index past the last knob
    /// changes nothing.
    pub fn set_name(&mut self, index: usize, name: String)
        ensures
            index < KNOB_COUNT ==> final(self).names_view() == old(self).names_view().update(
                index as int,
                normalized_name(index as nat, name@),
            ),
            index >= KNOB_COUNT ==> final(self).names_view() == old(self).names_view(),
            final(self).value_bits_view() == old(self).value_bits_view(),
    {
        proof {
            use_type_invariant(&*self);
        }
        if index >= KNOB_COUNT {
            return;
        }
        let normalized = normalize_name(index, name.as_str());
        self.names = replaced_string(&self.names, index, normalized);
        assert(self.names_view() =~= old(self).names_view().update(
            index as int,
            normalized_name(index as nat, name@),
        ));
        assert(self.value_bits_view() =~= old(self).value_bits_view());
    }

    /// The name of one knob, or the empty string for an index past the last knob.
    pub fn name(&self, index: usize) -> (name: String)
        ensures
            index < KNOB_COUNT ==> name@ == self.names_view()[index as int],
            index >= KNOB_COUNT ==> name@ == Seq::<char>::empty(),
    {
        proof {
            use_type_invariant(self);
        }
        if index >= KNOB_COUNT {
            return String::new();
        }
        self.names[index].clone()
    }

    /// The bit pattern of one knob's value; for an index past the last knob, that of 0.0.
    pub fn value_bits(&self, index: usize) -> (bits: u64)
        ensures
            index < KNOB_COUNT ==> bits == self.value_bits_view()[index as int],
            index >= KNOB_COUNT ==> bits == 0,
    {
        proof {
            use_type_invariant(self);
        }
        if index >= KNOB_COUNT {
            return 0;
        }
        self.values[index]
    }

    /// Stores the bit pattern of one knob's value. An index past the last knob changes nothing.
    pub fn set_value_bits(&mut self, index: usize, bits: u64)
        ensures
            index < KNOB_COUNT ==> final(self).value_bits_view() == old(
                self,
            ).value_bits_view().update(index as int, bits),
            index >= KNOB_COUNT ==> final(self).value_bits_view() == old(self).value_bits_view(),
            final(self).names_view() == old(self).names_view(),
    {
        proof {
            use_type_invariant(&*self);
        }
        if index >= KNOB_COUNT {
            return;
        }
        self.values = replaced_bits(&self.values, index, bits);
        assert(self.value_bits_view() =~= old(self).value_bits_view().update(index as int, bits));
        assert(self.names_view() =~= old(self).names_view());
    }
}

/// A copy of `v` with the entry at `index` replaced.
fn replaced_bits(v: &Vec<u64>, index: usize, bits: u64) -> (r: Vec<u64>)
    requires
        index < v.len(),
    ensures
        r@ == v@.update(index as int, bits),
{
    let mut r: Vec<u64> = Vec::new();
    let mut i: usize = 0;
    while i < v.len()
        invariant
            i <= v.len(),
            index < v.len(),
            r@ == v@.update(index as int, bits).take(i as int),
        decreases v.len() - i,
    {
        if i == index {
            r.push(bits);
        } else {
            r.push(v[i]);
        }
        assert(r@ =~= v@.update(index as int, bits).take(i + 1));
        i = i + 1;
    }
    assert(v@.update(index as int, bits).take(v.len() as int) =~= v@.update(index as int, bits));
    r
}

/// Both views of a bank hold one entry per knob.
pub broadcast proof fn lemma_knob_bank_names_len(bank: KnobBank)
    ensures
        #[trigger] bank.names_view().len() == KNOB_COUNT,
{
}

/// Both views of a bank hold one entry per knob.
pub broadcast proof fn lemma_knob_bank_values_len(bank: KnobBank)
    ensures
        #[trigger] bank.value_bits_view().len() == KNOB_COUNT,
{
}

pub broadcast group group_knob_bank {
    lemma_knob_bank_names_len,
    lemma_knob_bank_values_len,
}

/// The name a knob gets from a candidate name: the candidate trimmed, or `Knob {index + 1}`
/// when nothing but whitespace was given.
pub fn normalize_name(index: usize, candidate: &str) -> (name: String)
    requires
        index < usize::MAX,
    ensures
        name@ == normalized_name(index as nat, candidate@),
{
    let chars = chars_of(candidate);
    let trimmed = trim_chars(&chars);
    if trimmed.len() == 0 {
        default_knob_name_string(index)
    } else {
        string_of(&trimmed)
    }
}

/// The parameter id of the knob at `index`.
pub open spec fn spec_param_id(index: nat) -> nat {
    index + 1
}

/// The knob that a parameter id names: ids 1 to 8 name knobs 0 to 7, other ids none.
pub open spec fn spec_param_index(id: nat) -> Option<nat> {
    if 1 <= id <= KNOB_COUNT {
        Some((id - 1) as nat)
    } else {
        None
    }
}

/// The parameter id of a knob: its index plus one.
pub fn param_id_for_index(index: usize) -> (id: u32)
    requires
        index < 0xFFFF_FFFE,
    ensures
        id as nat == spec_param_id(index as nat),
{
    (index + 1) as u32
}

/// The knob a parameter id names: ids 1 to 8 name knobs 0 to 7, every other id none.
pub fn param_index_from_id(id: u32) -> (index: Option<usize>)
    ensures
        match index {
            Some(i) => spec_param_index(id as nat) == Some(i as nat),
            None => spec_param_index(id as nat) is None,
        },
{
    if id == 0 || id > KNOB_COUNT as u32 {
        None
    } else {
        Some((id - 1) as usize)
    }
}

/// Every knob's parameter id leads back to that knob, and every id that names a knob is
/// that knob's id.
pub proof fn law_param_id_roundtrip(index: nat, id: nat)
    ensures
        index < KNOB_COUNT ==> spec_param_index(spec_param_id(index)) == Some(index),
        spec_param_index(id) matches Some(k) ==> k < KNOB_COUNT && spec_param_id(k) == id,
{
}

/// Normalizing a name that was already normalized changes nothing.
pub proof fn law_normalized_name_idempotent(index: nat, candidate: Seq<char>)
    ensures
        normalized_name(index, normalized_name(index, candidate)) == normalized_name(
            index,
            candidate,
        ),
{
    lemma_trim_idempotent(candidate);
    lemma_default_knob_name_trimmed(index);
}

/// A normalized name is never empty, and a default name is its own normal form.
pub proof fn law_normalized_name_not_empty(index: nat, candidate: Seq<char>)
    ensures
        normalized_name(index, candidate).len() > 0,
        normalized_name(index, default_knob_name(index)) == default_knob_name(index),
{
    lemma_default_knob_name_trimmed(index);
}

} // verus!
