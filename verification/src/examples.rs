use vstd::prelude::*;

use crate::text::{
    chars_of, lemma_text_lt_asymmetric, lemma_text_lt_total, lemma_text_lt_transitive,
    text_less, text_lt, texts,
};

verus! {

broadcast use vstd::seq_lib::to_multiset_build, vstd::seq_lib::to_multiset_insert;

/// Each text sorts no later than the next.
pub open spec fn sorted_texts(s: Seq<Seq<char>>) -> bool {
    forall|i: int, j: int| 0 <= i < j < s.len() ==> !text_lt(#[trigger] s[j], #[trigger] s[i])
}

/// One of the examples that ship with the plugin.
#[derive(Debug)]
pub struct BuiltinExample {
    pub filename: String,
}

/// The file names in the order of `sort` on strings.
pub fn sorted_filenames(names: &Vec<String>) -> (r: Vec<String>)
    ensures
        sorted_texts(texts(r@)),
        texts(r@).to_multiset() == texts(names@).to_multiset(),
{
    let mut r: Vec<String> = Vec::new();
    let mut i: usize = 0;
    assert(texts(names@).take(0) =~= texts(r@));
    while i < names.len()
        invariant
            i <= names.len(),
            sorted_texts(texts(r@)),
            texts(r@).to_multiset() == texts(names@).take(i as int).to_multiset(),
        decreases names.len() - i,
    {
        let x = names[i].clone();
        let xc = chars_of(x.as_str());
        let ghost tr = texts(r@);
        // the place after every name that does not sort after x
        let mut p: usize = 0;
        while p < r.len() && !text_less(&xc, &chars_of(r[p].as_str()))
            invariant
                p <= r.len(),
                tr == texts(r@),
                xc@ == x@,
                forall|k: int| 0 <= k < p ==> !text_lt(x@, #[trigger] tr[k]),
            decreases r.len() - p,
        {
            p = p + 1;
        }
        proof {
            assert forall|k: int| p <= k < tr.len() implies text_lt(x@, #[trigger] tr[k]) by {
                if k > p {
                    assert(!text_lt(tr[k], tr[p as int]));
                    if tr[k] != tr[p as int] {
                        lemma_text_lt_total(tr[k], tr[p as int]);
                        lemma_text_lt_transitive(x@, tr[p as int], tr[k]);
                    }
                }
            }
        }
        let ghost xv = x@;
        r.insert(p, x);
        proof {
            let t2 = texts(r@);
            assert(t2 =~= tr.insert(p as int, xv));
            assert forall|a: int, b: int| 0 <= a < b < t2.len() implies !text_lt(
                #[trigger] t2[b],
                #[trigger] t2[a],
            ) by {
                if a < p && b < p {
                    assert(t2[a] == tr[a] && t2[b] == tr[b]);
                } else if a < p && b == p {
                    assert(t2[a] == tr[a]);
                } else if a < p {
                    assert(t2[a] == tr[a] && t2[b] == tr[b - 1]);
                } else if a == p {
                    assert(t2[b] == tr[b - 1]);
                    lemma_text_lt_asymmetric(xv, tr[b - 1]);
                } else {
                    assert(t2[a] == tr[a - 1] && t2[b] == tr[b - 1]);
                }
            }
            assert(texts(names@).take(i + 1) =~= texts(names@).take(i as int).push(xv));
        }
        i = i + 1;
    }
    assert(texts(names@).take(names.len() as int) =~= texts(names@));
    r
}

/// The shipped examples, sorted by file name.
pub fn builtin_examples(filenames: &Vec<String>) -> (r: Vec<BuiltinExample>)
    ensures
        r@.len() == filenames@.len(),
        sorted_texts(r@.map_values(|e: BuiltinExample| e.filename@)),
        r@.map_values(|e: BuiltinExample| e.filename@).to_multiset() == texts(filenames@).to_multiset(),
{
    let sorted = sorted_filenames(filenames);
    let mut r: Vec<BuiltinExample> = Vec::new();
    let mut i: usize = 0;
    while i < sorted.len()
        invariant
            i <= sorted.len(),
            r@.map_values(|e: BuiltinExample| e.filename@) == texts(sorted@).take(i as int),
        decreases sorted.len() - i,
    {
        let ghost prev = r@.map_values(|e: BuiltinExample| e.filename@);
        r.push(BuiltinExample { filename: sorted[i].clone() });
        assert(r@.map_values(|e: BuiltinExample| e.filename@) =~= prev.push(sorted@[i as int]@));
        assert(texts(sorted@).take(i + 1) =~= texts(sorted@).take(i as int).push(sorted@[i as int]@));
        i = i + 1;
    }
    assert(texts(sorted@).take(sorted.len() as int) =~= texts(sorted@));
    proof {
        assert(texts(sorted@).to_multiset().len() == texts(filenames@).to_multiset().len());
        vstd::seq_lib::to_multiset_len(texts(sorted@));
        vstd::seq_lib::to_multiset_len(texts(filenames@));
    }
    r
}

} // verus!
