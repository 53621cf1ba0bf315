use vstd::prelude::*;

use crate::params::{normalize_name, normalized_name, KNOB_COUNT};
use crate::text::{
    chars_of, copy_range, eq_ignore_ascii_case, eq_ignore_ascii_case_chars, insert_sorted,
    knob_prefix, parse_usize, parse_usize_chars, replaced_string, strictly_sorted, texts,
};
use crate::worker::collapsed_name;

verus! {

/// How a slot's name is made from a `Control!` label.
#[derive(Clone, Copy, PartialEq, Eq, Structural, Debug)]
pub enum NameStyle {
    /// The label trimmed (the plugin's own rule).
    Trimmed,
    /// The label trimmed, cleaned and with runs of whitespace collapsed (the compiler
    /// worker's rule).
    Collapsed,
}

pub open spec fn styled_name(style: NameStyle, index: nat, label: Seq<char>) -> Seq<char> {
    match style {
        NameStyle::Trimmed => normalized_name(index, label),
        NameStyle::Collapsed => collapsed_name(index, label),
    }
}

/// Where a `Control!` label went.
#[derive(Clone, Copy, PartialEq, Eq, Structural, Debug)]
pub enum SlotClaim {
    /// A slot already carried the label's name (ignoring ASCII case).
    Existing(usize),
    /// A free slot was given the label; its knob starts at the label's initial value.
    Assigned(usize),
    /// Every slot was taken; the label is recorded as overflowing.
    Overflow,
}

/// The first index in `lo..hi` where `p` holds.
pub open spec fn first_index(p: spec_fn(int) -> bool, lo: int, hi: int) -> Option<int>
    decreases hi - lo,
{
    if lo >= hi {
        None
    } else if p(lo) {
        Some(lo)
    } else {
        first_index(p, lo + 1, hi)
    }
}

spec fn holds(p: spec_fn(int) -> bool, j: int) -> bool {
    p(j)
}

proof fn lemma_first_index_found(p: spec_fn(int) -> bool, lo: int, hi: int, i: int)
    requires
        lo <= i < hi,
        p(i),
        forall|j: int| lo <= j < i ==> !#[trigger] holds(p, j),
    ensures
        first_index(p, lo, hi) == Some(i),
    decreases i - lo,
{
    if lo < i {
        assert(!holds(p, lo));
        lemma_first_index_found(p, lo + 1, hi, i);
    } else {
        assert(holds(p, i));
    }
}

proof fn lemma_first_index_result(p: spec_fn(int) -> bool, lo: int, hi: int)
    ensures
        first_index(p, lo, hi) matches Some(i) ==> lo <= i < hi && p(i) && forall|j: int|
            lo <= j < i ==> !#[trigger] holds(p, j),
        first_index(p, lo, hi) is None ==> forall|j: int| lo <= j < hi ==> !#[trigger] holds(p, j),
    decreases hi - lo,
{
    if lo < hi {
        lemma_first_index_result(p, lo + 1, hi);
    }
}

proof fn lemma_first_index_none(p: spec_fn(int) -> bool, lo: int, hi: int)
    requires
        forall|j: int| lo <= j < hi ==> !#[trigger] holds(p, j),
    ensures
        first_index(p, lo, hi) is None,
    decreases hi - lo,
{
    if lo < hi {
        assert(!holds(p, lo));
        lemma_first_index_none(p, lo + 1, hi);
    }
}

/// The name a slot has when no label has renamed it: `Knob ` and then its number, read as
/// `str::parse::<usize>` reads it.
pub open spec fn is_default_slot_name(name: Seq<char>, index: nat) -> bool {
    &&& name.len() >= 5
    &&& name.take(5) == knob_prefix()
    &&& parse_usize(name.skip(5)) == Some(index + 1)
}

/// The first slot whose name equals the label, ignoring ASCII case.
pub open spec fn matching_slot(names: Seq<Seq<char>>, label: Seq<char>) -> Option<int> {
    first_index(|i: int| eq_ignore_ascii_case(names[i], label), 0, names.len() as int)
}

/// The first unclaimed slot that still has its default name.
pub open spec fn free_default_slot(names: Seq<Seq<char>>, claimed: Seq<bool>) -> Option<int> {
    first_index(
        |i: int| !claimed[i] && is_default_slot_name(names[i], i as nat),
        0,
        KNOB_COUNT as int,
    )
}

/// The first unclaimed slot.
pub open spec fn free_slot(claimed: Seq<bool>) -> Option<int> {
    first_index(|i: int| !claimed[i], 0, KNOB_COUNT as int)
}

/// Where a label goes: the slot that has its name, else the first free slot with a default
/// name, else the first free slot, else nowhere.
pub open spec fn expected_claim(names: Seq<Seq<char>>, claimed: Seq<bool>, label: Seq<char>) -> SlotClaim {
    match matching_slot(names, label) {
        Some(i) => SlotClaim::Existing(i as usize),
        None => match free_default_slot(names, claimed) {
            Some(i) => SlotClaim::Assigned(i as usize),
            None => match free_slot(claimed) {
                Some(i) => SlotClaim::Assigned(i as usize),
                None => SlotClaim::Overflow,
            },
        },
    }
}

/// The knob slots that `Control!` labels are bound to while a program compiles.
pub struct SlotTable {
    names: Vec<String>,
    claimed: Vec<bool>,
    overflow: Vec<String>,
}

/// What the slot table holds after a compilation: the slot names, and the labels that found
/// no slot, sorted.
#[derive(Debug)]
pub struct ControlCompileResult {
    pub slot_names: [String; KNOB_COUNT],
    pub overflow_labels: Vec<String>,
}

fn replaced_bool(v: &Vec<bool>, index: usize) -> (r: Vec<bool>)
    requires
        index < v.len(),
    ensures
        r@ == v@.update(index as int, true),
{
    let mut r: Vec<bool> = Vec::new();
    let mut i: usize = 0;
    while i < v.len()
        invariant
            i <= v.len(),
            index < v.len(),
            r@ == v@.update(index as int, true).take(i as int),
        decreases v.len() - i,
    {
        if i == index {
            r.push(true);
        } else {
            r.push(v[i]);
        }
        assert(r@ =~= v@.update(index as int, true).take(i + 1));
        i = i + 1;
    }
    assert(v@.update(index as int, true).take(v.len() as int) =~= v@.update(index as int, true));
    r
}

/// Whether a slot still has its default name.
fn is_default_slot_name_exec(name: &Vec<char>, index: usize) -> (r: bool)
    requires
        index < KNOB_COUNT,
    ensures
        r == is_default_slot_name(name@, index as nat),
{
    if name.len() < 5 {
        return false;
    }
    let prefix_ok = name[0] == 'K' && name[1] == 'n' && name[2] == 'o' && name[3] == 'b' && name[4]
        == ' ';
    assert(prefix_ok == (name@.take(5) =~= knob_prefix()));
    if !prefix_ok {
        return false;
    }
    let rest = copy_range(name, 5, name.len());
    assert(rest@ =~= name@.skip(5));
    match parse_usize_chars(&rest) {
        Some(n) => n == index + 1,
        None => false,
    }
}

impl SlotTable {
    #[verifier::type_invariant]
    closed spec fn shape(self) -> bool {
        &&& self.names.len() == KNOB_COUNT
        &&& self.claimed.len() == KNOB_COUNT
        &&& strictly_sorted(texts(self.overflow@))
    }

    pub closed spec fn names_view(self) -> Seq<Seq<char>> {
        Seq::new(KNOB_COUNT as nat, |i: int| self.names@[i]@)
    }

    pub closed spec fn claimed_view(self) -> Seq<bool> {
        Seq::new(KNOB_COUNT as nat, |i: int| self.claimed@[i])
    }

    pub closed spec fn overflow_view(self) -> Seq<Seq<char>> {
        texts(self.overflow@)
    }

    /// A table with the given slot names, nothing claimed and nothing overflowing.
    pub fn new(slot_names: [String; KNOB_COUNT]) -> (t: Self)
        ensures
            forall|i: int| 0 <= i < KNOB_COUNT ==> #[trigger] t.names_view()[i] == slot_names@[i]@,
            forall|i: int| 0 <= i < KNOB_COUNT ==> !#[trigger] t.claimed_view()[i],
            t.names_view().len() == KNOB_COUNT,
            t.claimed_view().len() == KNOB_COUNT,
            t.overflow_view().len() == 0,
    {
        let mut names: Vec<String> = Vec::new();
        let mut claimed: Vec<bool> = Vec::new();
        let mut i: usize = 0;
        while i < KNOB_COUNT
            invariant
                i <= KNOB_COUNT,
                names.len() == i,
                claimed.len() == i,
                forall|j: int| 0 <= j < i ==> #[trigger] names@[j]@ == slot_names@[j]@,
                forall|j: int| 0 <= j < i ==> !#[trigger] claimed@[j],
            decreases KNOB_COUNT - i,
        {
            names.push(slot_names[i].clone());
            claimed.push(false);
            i = i + 1;
        }
        let overflow: Vec<String> = Vec::new();
        assert(texts(overflow@) =~= Seq::<Seq<char>>::empty());
        SlotTable { names, claimed, overflow }
    }

    /// The slot names and the overflowing labels in sorted order.
    pub fn compile_result(&self) -> (r: ControlCompileResult)
        ensures
            forall|i: int|
                0 <= i < KNOB_COUNT ==> #[trigger] r.slot_names@[i]@ == self.names_view()[i],
            texts(r.overflow_labels@) == self.overflow_view(),
            strictly_sorted(texts(r.overflow_labels@)),
    {
        proof {
            use_type_invariant(self);
        }
        let slot_names = [
            self.names[0].clone(),
            self.names[1].clone(),
            self.names[2].clone(),
            self.names[3].clone(),
            self.names[4].clone(),
            self.names[5].clone(),
            self.names[6].clone(),
            self.names[7].clone(),
        ];
        let mut overflow_labels: Vec<String> = Vec::new();
        let mut i: usize = 0;
        while i < self.overflow.len()
            invariant
                i <= self.overflow.len(),
                overflow_labels@ == self.overflow@.take(i as int),
            decreases self.overflow.len() - i,
        {
            overflow_labels.push(self.overflow[i].clone());
            assert(overflow_labels@ =~= self.overflow@.take(i + 1));
            i = i + 1;
        }
        assert(overflow_labels@ =~= self.overflow@);
        ControlCompileResult { slot_names, overflow_labels }
    }

    /// Binds a label to a slot, as `Control!` does: see `expected_claim`.
    pub fn claim(&mut self, label: &str, style: NameStyle) -> (r: SlotClaim)
        ensures
            r == expected_claim(old(self).names_view(), old(self).claimed_view(), label@),
            match r {
                SlotClaim::Existing(i) => {
                    &&& final(self).names_view() == old(self).names_view()
                    &&& final(self).claimed_view() == old(self).claimed_view().update(i as int, true)
                    &&& final(self).overflow_view() == old(self).overflow_view()
                },
                SlotClaim::Assigned(i) => {
                    &&& final(self).names_view() == old(self).names_view().update(
                        i as int,
                        styled_name(style, i as nat, label@),
                    )
                    &&& final(self).claimed_view() == old(self).claimed_view().update(i as int, true)
                    &&& final(self).overflow_view() == old(self).overflow_view()
                },
                SlotClaim::Overflow => {
                    &&& final(self).names_view() == old(self).names_view()
                    &&& final(self).claimed_view() == old(self).claimed_view()
                    &&& forall|t: Seq<char>|
                        final(self).overflow_view().contains(t) <==> (old(
                            self,
                        ).overflow_view().contains(t) || t == label@)
                },
            },
            match r {
                SlotClaim::Existing(i) => i < KNOB_COUNT,
                SlotClaim::Assigned(i) => i < KNOB_COUNT,
                SlotClaim::Overflow => true,
            },
    {
        proof {
            use_type_invariant(&*self);
        }
        let ghost names = self.names_view();
        let ghost claimed = self.claimed_view();
        let label_chars = chars_of(label);
        // a slot that already has the label's name
        let mut i: usize = 0;
        while i < KNOB_COUNT
            invariant
                i <= KNOB_COUNT,
                self.shape(),
                *self == *old(self),
                names == self.names_view(),
                claimed == self.claimed_view(),
                label_chars@ == label@,
                forall|j: int| 0 <= j < i ==> !eq_ignore_ascii_case(#[trigger] names[j], label@),
            decreases KNOB_COUNT - i,
        {
            let name_chars = chars_of(self.names[i].as_str());
            if eq_ignore_ascii_case_chars(&name_chars, &label_chars) {
                proof {
                    lemma_first_index_found(
                        |k: int| eq_ignore_ascii_case(names[k], label@),
                        0,
                        KNOB_COUNT as int,
                        i as int,
                    );
                }
                self.claimed = replaced_bool(&self.claimed, i);
                assert(self.claimed_view() =~= claimed.update(i as int, true));
                assert(self.names_view() =~= names);
                return SlotClaim::Existing(i);
            }
            i = i + 1;
        }
        proof {
            lemma_first_index_none(
                |k: int| eq_ignore_ascii_case(names[k], label@),
                0,
                KNOB_COUNT as int,
            );
        }
        // a free slot that still has its default name
        let mut i: usize = 0;
        while i < KNOB_COUNT
            invariant
                i <= KNOB_COUNT,
                self.shape(),
                *self == *old(self),
                names == self.names_view(),
                claimed == self.claimed_view(),
                matching_slot(names, label@) is None,
                forall|j: int|
                    0 <= j < i ==> !(!claimed[j] && is_default_slot_name(
                        #[trigger] names[j],
                        j as nat,
                    )),
            decreases KNOB_COUNT - i,
        {
            let name_chars = chars_of(self.names[i].as_str());
            if !self.claimed[i] && is_default_slot_name_exec(&name_chars, i) {
                proof {
                    lemma_first_index_found(
                        |k: int| !claimed[k] && is_default_slot_name(names[k], k as nat),
                        0,
                        KNOB_COUNT as int,
                        i as int,
                    );
                }
                let name = styled_normalize(style, i, label);
                self.names = replaced_string(&self.names, i, name);
                self.claimed = replaced_bool(&self.claimed, i);
                assert(self.claimed_view() =~= claimed.update(i as int, true));
                assert(self.names_view() =~= names.update(
                    i as int,
                    styled_name(style, i as nat, label@),
                ));
                return SlotClaim::Assigned(i);
            }
            i = i + 1;
        }
        proof {
            lemma_first_index_none(
                |k: int| !claimed[k] && is_default_slot_name(names[k], k as nat),
                0,
                KNOB_COUNT as int,
            );
        }
        // any free slot
        let mut i: usize = 0;
        while i < KNOB_COUNT
            invariant
                i <= KNOB_COUNT,
                self.shape(),
                *self == *old(self),
                names == self.names_view(),
                claimed == self.claimed_view(),
                matching_slot(names, label@) is None,
                free_default_slot(names, claimed) is None,
                forall|j: int| 0 <= j < i ==> #[trigger] claimed[j],
            decreases KNOB_COUNT - i,
        {
            if !self.claimed[i] {
                proof {
                    lemma_first_index_found(|k: int| !claimed[k], 0, KNOB_COUNT as int, i as int);
                }
                let name = styled_normalize(style, i, label);
                self.names = replaced_string(&self.names, i, name);
                self.claimed = replaced_bool(&self.claimed, i);
                assert(self.claimed_view() =~= claimed.update(i as int, true));
                assert(self.names_view() =~= names.update(
                    i as int,
                    styled_name(style, i as nat, label@),
                ));
                return SlotClaim::Assigned(i);
            }
            i = i + 1;
        }
        proof {
            lemma_first_index_none(|k: int| !claimed[k], 0, KNOB_COUNT as int);
        }
        let label_string = crate::text::string_of(&label_chars);
        self.overflow = insert_sorted(&self.overflow, label_string);
        SlotClaim::Overflow
    }
}

/// The name a label gives the slot at `index`, in the given style.
fn styled_normalize(style: NameStyle, index: usize, label: &str) -> (r: String)
    requires
        index < KNOB_COUNT,
    ensures
        r@ == styled_name(style, index as nat, label@),
{
    match style {
        NameStyle::Trimmed => normalize_name(index, label),
        NameStyle::Collapsed => crate::worker::normalize_name(index, label),
    }
}

/// The `Control!` slot table of the plugin: labels name slots by the plugin's rule (trimmed).
pub struct ControlSystemPlugin {
    table: SlotTable,
}

impl ControlSystemPlugin {
    pub closed spec fn slot_names_view(self) -> Seq<Seq<char>> {
        self.table.names_view()
    }

    pub closed spec fn claimed_view(self) -> Seq<bool> {
        self.table.claimed_view()
    }

    pub closed spec fn overflow_view(self) -> Seq<Seq<char>> {
        self.table.overflow_view()
    }

    /// A table over the given slot names, with nothing claimed.
    pub fn new(slot_names: [String; KNOB_COUNT]) -> (p: Self)
        ensures
            forall|i: int|
                0 <= i < KNOB_COUNT ==> #[trigger] p.slot_names_view()[i] == slot_names@[i]@,
            forall|i: int| 0 <= i < KNOB_COUNT ==> !#[trigger] p.claimed_view()[i],
            p.slot_names_view().len() == KNOB_COUNT,
            p.claimed_view().len() == KNOB_COUNT,
            p.overflow_view().len() == 0,
    {
        ControlSystemPlugin { table: SlotTable::new(slot_names) }
    }

    /// The slot names and the sorted labels that found no slot.
    pub fn compile_result(&self) -> (r: ControlCompileResult)
        ensures
            forall|i: int|
                0 <= i < KNOB_COUNT ==> #[trigger] r.slot_names@[i]@ == self.slot_names_view()[i],
            texts(r.overflow_labels@) == self.overflow_view(),
            strictly_sorted(texts(r.overflow_labels@)),
    {
        self.table.compile_result()
    }

    /// Binds a label to a slot (see `expected_claim`); an assigned slot takes the trimmed
    /// label as its name.
    pub fn claim_or_assign_slot(&mut self, label: &str) -> (r: SlotClaim)
        ensures
            r == expected_claim(old(self).slot_names_view(), old(self).claimed_view(), label@),
            match r {
                SlotClaim::Existing(i) => {
                    &&& final(self).slot_names_view() == old(self).slot_names_view()
                    &&& final(self).claimed_view() == old(self).claimed_view().update(i as int, true)
                    &&& final(self).overflow_view() == old(self).overflow_view()
                },
                SlotClaim::Assigned(i) => {
                    &&& final(self).slot_names_view() == old(self).slot_names_view().update(
                        i as int,
                        normalized_name(i as nat, label@),
                    )
                    &&& final(self).claimed_view() == old(self).claimed_view().update(i as int, true)
                    &&& final(self).overflow_view() == old(self).overflow_view()
                },
                SlotClaim::Overflow => {
                    &&& final(self).slot_names_view() == old(self).slot_names_view()
                    &&& final(self).claimed_view() == old(self).claimed_view()
                    &&& forall|t: Seq<char>|
                        final(self).overflow_view().contains(t) <==> (old(
                            self,
                        ).overflow_view().contains(t) || t == label@)
                },
            },
            match r {
                SlotClaim::Existing(i) => i < KNOB_COUNT,
                SlotClaim::Assigned(i) => i < KNOB_COUNT,
                SlotClaim::Overflow => true,
            },
    {
        self.table.claim(label, NameStyle::Trimmed)
    }
}

/// A slot table holds one name and one claim flag per knob.
pub broadcast proof fn lemma_slot_table_len(t: SlotTable)
    ensures
        #[trigger] t.names_view().len() == KNOB_COUNT,
        t.claimed_view().len() == KNOB_COUNT,
{
}

/// The plugin's slot table holds one name and one claim flag per knob.
pub broadcast proof fn lemma_control_plugin_len(p: ControlSystemPlugin)
    ensures
        #[trigger] p.slot_names_view().len() == KNOB_COUNT,
        p.claimed_view().len() == KNOB_COUNT,
{
    lemma_slot_table_len(p.table);
}

pub broadcast group group_slot_tables {
    lemma_slot_table_len,
    lemma_control_plugin_len,
    crate::worker::lemma_worker_plugin_len,
}

/// The slot a `Control!` call reads: the claimed slot, or the last one when the label found
/// none.
pub open spec fn slider_slot(claim: SlotClaim) -> usize {
    match claim {
        SlotClaim::Existing(i) => i,
        SlotClaim::Assigned(i) => i,
        SlotClaim::Overflow => (KNOB_COUNT - 1) as usize,
    }
}

pub fn slider_slot_of(claim: SlotClaim) -> (i: usize)
    ensures
        i == slider_slot(claim),
{
    match claim {
        SlotClaim::Existing(i) => i,
        SlotClaim::Assigned(i) => i,
        SlotClaim::Overflow => KNOB_COUNT - 1,
    }
}

/// The state of the table after a claim, as `SlotTable::claim` leaves it (names and claims).
pub open spec fn names_after_claim(
    names: Seq<Seq<char>>,
    claimed: Seq<bool>,
    label: Seq<char>,
    style: NameStyle,
) -> Seq<Seq<char>> {
    match expected_claim(names, claimed, label) {
        SlotClaim::Assigned(i) => names.update(i as int, styled_name(style, i as nat, label)),
        _ => names,
    }
}

pub open spec fn claimed_after_claim(
    names: Seq<Seq<char>>,
    claimed: Seq<bool>,
    label: Seq<char>,
) -> Seq<bool> {
    match expected_claim(names, claimed, label) {
        SlotClaim::Existing(i) => claimed.update(i as int, true),
        SlotClaim::Assigned(i) => claimed.update(i as int, true),
        SlotClaim::Overflow => claimed,
    }
}

/// Claiming a label that is already in its normal form a second time finds the slot that
/// the first claim gave it, and claims never release a slot.
pub proof fn law_claim_is_stable(
    names: Seq<Seq<char>>,
    claimed: Seq<bool>,
    label: Seq<char>,
    style: NameStyle,
)
    requires
        names.len() == KNOB_COUNT,
        claimed.len() == KNOB_COUNT,
        forall|i: int| 0 <= i < KNOB_COUNT ==> #[trigger] styled_name(style, i as nat, label) == label,
    ensures
        expected_claim(names, claimed, label) != SlotClaim::Overflow ==> expected_claim(
            names_after_claim(names, claimed, label, style),
            claimed_after_claim(names, claimed, label),
            label,
        ) == SlotClaim::Existing(slider_slot(expected_claim(names, claimed, label))),
        forall|i: int|
            0 <= i < KNOB_COUNT && #[trigger] claimed[i] ==> claimed_after_claim(
                names,
                claimed,
                label,
            )[i],
{
    let c = expected_claim(names, claimed, label);
    let names2 = names_after_claim(names, claimed, label, style);
    let pm = |i: int| eq_ignore_ascii_case(names[i], label);
    let pm2 = |i: int| eq_ignore_ascii_case(names2[i], label);
    let pd = |i: int| !claimed[i] && is_default_slot_name(names[i], i as nat);
    let pf = |i: int| !claimed[i];
    lemma_first_index_result(pm, 0, KNOB_COUNT as int);
    lemma_first_index_result(pd, 0, KNOB_COUNT as int);
    lemma_first_index_result(pf, 0, KNOB_COUNT as int);
    if c != SlotClaim::Overflow {
        let k = slider_slot(c) as int;
        assert(0 <= k < KNOB_COUNT);
        assert forall|j: int| 0 <= j < k implies !#[trigger] holds(pm2, j) by {
            assert(!holds(pm, j));
            assert(names2[j] == names[j]);
        }
        assert(eq_ignore_ascii_case(names2[k], label));
        lemma_first_index_found(pm2, 0, KNOB_COUNT as int, k);
    }
}

/// On a fresh table whose slots carry their default names, a label that names no slot is
/// given the first slot.
pub proof fn law_first_label_takes_first_slot(names: Seq<Seq<char>>, claimed: Seq<bool>, label: Seq<char>)
    requires
        names.len() == KNOB_COUNT,
        claimed.len() == KNOB_COUNT,
        forall|i: int| 0 <= i < KNOB_COUNT ==> #[trigger] names[i] == crate::text::default_knob_name(i as nat),
        forall|i: int| 0 <= i < KNOB_COUNT ==> !#[trigger] claimed[i],
        forall|i: int| 0 <= i < KNOB_COUNT ==> !eq_ignore_ascii_case(#[trigger] names[i], label),
    ensures
        expected_claim(names, claimed, label) == SlotClaim::Assigned(0),
{
    let pm = |i: int| eq_ignore_ascii_case(names[i], label);
    let pd = |i: int| !claimed[i] && is_default_slot_name(names[i], i as nat);
    assert forall|j: int| 0 <= j < KNOB_COUNT implies !#[trigger] holds(pm, j) by {}
    lemma_first_index_none(pm, 0, KNOB_COUNT as int);
    crate::text::lemma_default_knob_name_digits(0);
    crate::text::lemma_parse_decimal(1);
    let n = names[0];
    assert(n.skip(5) =~= crate::text::decimal(1));
    lemma_first_index_found(pd, 0, KNOB_COUNT as int, 0);
}

/// A label overflows only when every slot is claimed and none carries its name.
pub proof fn law_overflow_only_when_full(names: Seq<Seq<char>>, claimed: Seq<bool>, label: Seq<char>)
    requires
        names.len() == KNOB_COUNT,
        claimed.len() == KNOB_COUNT,
    ensures
        expected_claim(names, claimed, label) == SlotClaim::Overflow ==> (forall|i: int|
            0 <= i < KNOB_COUNT ==> #[trigger] claimed[i] && !eq_ignore_ascii_case(
                names[i],
                label,
            )),
{
    let pm = |i: int| eq_ignore_ascii_case(names[i], label);
    let pf = |i: int| !claimed[i];
    lemma_first_index_result(pm, 0, KNOB_COUNT as int);
    lemma_first_index_result(pf, 0, KNOB_COUNT as int);
    if expected_claim(names, claimed, label) == SlotClaim::Overflow {
        assert forall|i: int| 0 <= i < KNOB_COUNT implies #[trigger] claimed[i]
            && !eq_ignore_ascii_case(names[i], label) by {
            assert(!holds(pm, i));
            assert(!holds(pf, i));
        }
    }
}

} // verus!
