//! Identifier allocation: a document keeps the identifier its metadata
//! declares; otherwise it gets one that no node of the tree carries yet.

use vstd::prelude::*;
use std::collections::hash_map::RandomState;
use std::hash::BuildHasher;
use vstd::seq_lib::seq_to_set_is_finite;
use tree_ds::prelude::Tree;
use crate::parser::file::FileData;
use crate::tree::{contains_id, entry_ids, has_id, tree_entries, TreeEntry};

verus! {

/// How many characters a random identifier has.
pub const ID_LEN: usize = 23;

/// The characters random identifiers are made of: digits and lower-case letters.
pub open spec fn is_id_char(c: char) -> bool {
    ('0' <= c && c <= '9') || ('a' <= c && c <= 'z')
}

/// A seed for a fresh identifier: `ID_LEN` digits and lower-case letters.
pub open spec fn is_seed(s: Seq<char>) -> bool {
    s.len() == ID_LEN && forall|i: int| 0 <= i < s.len() ==> is_id_char(#[trigger] s[i])
}

/// Relies on std's RandomState::new: every new state has fresh random keys.
#[verifier::external_body]
fn fresh_hash_state() -> RandomState {
    RandomState::new()
}

/// Relies on BuildHasher::hash_one: the hash of `x` under the state's keys.
#[verifier::external_body]
fn hash_one(state: &RandomState, x: u64) -> u64 {
    state.hash_one(x)
}

/// A random seed for an identifier.
pub fn random_seed() -> (r: String)
    ensures
        is_seed(r@),
{
    let digits = "0123456789abcdefghijklmnopqrstuvwxyz";
    proof {
        reveal_strlit("0123456789abcdefghijklmnopqrstuvwxyz");
    }
    let mut out = String::new();
    let mut word: u64 = 0;
    for i in 0..ID_LEN
        invariant
            digits@ == "0123456789abcdefghijklmnopqrstuvwxyz"@,
            digits@.len() == 36,
            out@.len() == i,
            forall|k: int| 0 <= k < out@.len() ==> is_id_char(#[trigger] out@[k]),
    {
        if i % 12 == 0 {
            let state = fresh_hash_state();
            word = hash_one(&state, i as u64);
        }
        let d = (word % 36) as usize;
        word = word / 36;
        let digit = digits.substring_char(d, d + 1);
        proof {
            reveal_strlit("0123456789abcdefghijklmnopqrstuvwxyz");
        }
        assert(is_id_char(digit@[0]));
        let ghost before = out@;
        out.append(digit);
        assert forall|k: int| 0 <= k < out@.len() implies is_id_char(#[trigger] out@[k]) by {
            if k < before.len() {
                assert(out@[k] == before[k]);
            } else {
                assert(out@[k] == digit@[0]);
            }
        }
    }
    out
}

/// `seed` followed by `k` zeros.
pub open spec fn padded(seed: Seq<char>, k: nat) -> Seq<char> {
    seed + Seq::new(k, |i: int| '0')
}

/// `k` is the fewest zeros that, appended to `seed`, give an identifier no
/// node carries.
pub open spec fn is_least_free_padding(
    entries: Seq<TreeEntry>,
    seed: Seq<char>,
    k: nat,
) -> bool {
    &&& !has_id(entries, padded(seed, k))
    &&& forall|j: nat| j < k ==> has_id(entries, #[trigger] padded(seed, j))
}

/// The first `m` paddings of `seed`: with 0, 1, ..., `m - 1` zeros.
pub open spec fn paddings(seed: Seq<char>, m: nat) -> Set<Seq<char>>
    decreases m,
{
    if m == 0 {
        Set::empty()
    } else {
        paddings(seed, (m - 1) as nat).insert(padded(seed, (m - 1) as nat))
    }
}

proof fn lemma_paddings(seed: Seq<char>, m: nat)
    ensures
        paddings(seed, m).finite(),
        paddings(seed, m).len() == m,
        forall|s: Seq<char>| #[trigger] paddings(seed, m).contains(s) ==> s.len() < seed.len() + m,
        forall|k: nat| k < m ==> #[trigger] paddings(seed, m).contains(padded(seed, k)),
        forall|s: Seq<char>|
            #[trigger] paddings(seed, m).contains(s) ==> exists|k: nat| k < m && s == padded(seed, k),
    decreases m,
{
    if m > 0 {
        lemma_paddings(seed, (m - 1) as nat);
        let p = padded(seed, (m - 1) as nat);
        assert(!paddings(seed, (m - 1) as nat).contains(p));
        assert forall|k: nat| k < m implies #[trigger] paddings(seed, m).contains(padded(seed, k)) by {
            if k < m - 1 {
                assert(paddings(seed, (m - 1) as nat).contains(padded(seed, k)));
            }
        }
    }
}

/// Some padding of `seed` with at most `entries.len()` zeros is free.
proof fn lemma_free_padding_exists(entries: Seq<TreeEntry>, seed: Seq<char>) -> (k: nat)
    ensures
        !has_id(entries, padded(seed, k)),
{
    let n = entries.len();
    let ids = entry_ids(entries).to_set();
    entry_ids(entries).lemma_cardinality_of_set();
    seq_to_set_is_finite(entry_ids(entries));
    if forall|k: nat| k <= n ==> has_id(entries, #[trigger] padded(seed, k)) {
        lemma_paddings(seed, n + 1);
        assert(paddings(seed, n + 1).subset_of(ids)) by {
            assert forall|s: Seq<char>| #[trigger] paddings(seed, n + 1).contains(s) implies ids.contains(s) by {
                let k = choose|k: nat| k < n + 1 && s == padded(seed, k);
                assert(has_id(entries, padded(seed, k)));
                let i = choose|i: int| 0 <= i < entries.len() && (#[trigger] entries[i]).0 == s;
                assert(entry_ids(entries)[i] == s);
            }
        }
        vstd::set_lib::lemma_len_subset(paddings(seed, n + 1), ids);
        assert(false);
    }
    choose|k: nat| k <= n && !has_id(entries, #[trigger] padded(seed, k))
}

/// The identifier generated from `seed` for a tree holding `entries`: the
/// seed itself if it is free, else the seed with the fewest zeros appended
/// that make it free.
pub open spec fn fresh_id(
    entries: Seq<TreeEntry>,
    seed: Seq<char>,
) -> Seq<char> {
    padded(seed, choose|k: nat| is_least_free_padding(entries, seed, k))
}

proof fn lemma_least_free_from(entries: Seq<TreeEntry>, seed: Seq<char>, k: nat, bound: nat)
    requires
        k <= bound,
        !has_id(entries, padded(seed, bound)),
        forall|j: nat| j < k ==> has_id(entries, #[trigger] padded(seed, j)),
    ensures
        exists|m: nat| is_least_free_padding(entries, seed, m),
    decreases bound - k,
{
    if !has_id(entries, padded(seed, k)) {
        assert(is_least_free_padding(entries, seed, k));
    } else {
        lemma_least_free_from(entries, seed, k + 1, bound);
    }
}

/// An identifier generated for a tree is carried by none of its nodes, and
/// is at least as long as its seed.
pub proof fn lemma_fresh_id_is_free(entries: Seq<TreeEntry>, seed: Seq<char>)
    ensures
        !has_id(entries, fresh_id(entries, seed)),
        fresh_id(entries, seed).len() >= seed.len(),
{
    let bound = lemma_free_padding_exists(entries, seed);
    lemma_least_free_from(entries, seed, 0, bound);
}

/// What every generated identifier looks like: at least `ID_LEN` digits and
/// lower-case letters.
pub open spec fn generated_shape(s: Seq<char>) -> bool {
    s.len() >= ID_LEN && forall|i: int| 0 <= i < s.len() ==> is_id_char(#[trigger] s[i])
}

/// An identifier generated from a seed has the generated shape.
pub proof fn lemma_fresh_id_shape(entries: Seq<TreeEntry>, seed: Seq<char>)
    requires
        is_seed(seed),
    ensures
        generated_shape(fresh_id(entries, seed)),
{
    lemma_fresh_id_is_free(entries, seed);
    let k = choose|k: nat| is_least_free_padding(entries, seed, k);
    let p = padded(seed, k);
    assert forall|i: int| 0 <= i < p.len() implies is_id_char(#[trigger] p[i]) by {
        if i < seed.len() {
            assert(p[i] == seed[i]);
        } else {
            assert(p[i] == '0');
        }
    }
}

/// The identifier of a document: the declared one when it is not empty,
/// else one generated from `seed`.
pub open spec fn doc_id(
    declared: Seq<char>,
    entries: Seq<TreeEntry>,
    seed: Seq<char>,
) -> Seq<char> {
    if declared.len() > 0 {
        declared
    } else {
        fresh_id(entries, seed)
    }
}

/// An identifier that no node of `tree` carries, made from `seed`.
pub fn generate(tree: &Tree<String, FileData>, seed: &String) -> (r: String)
    ensures
        r@ == fresh_id(tree_entries(*tree), seed@),
        !has_id(tree_entries(*tree), r@),
{
    let ghost entries = tree_entries(*tree);
    let ghost ids = entry_ids(entries).to_set();
    proof {
        entry_ids(entries).lemma_cardinality_of_set();
        seq_to_set_is_finite(entry_ids(entries));
    }
    let mut candidate = seed.clone();
    let ghost mut k: nat = 0;
    let ghost mut tried: Set<Seq<char>> = Set::empty();
    proof {
        assert(candidate@ =~= padded(seed@, 0));
    }
    while contains_id(tree, &candidate)
        invariant
            entries == tree_entries(*tree),
            ids == entry_ids(entries).to_set(),
            ids.finite(),
            ids.len() <= entries.len(),
            candidate@ == padded(seed@, k),
            forall|j: nat| j < k ==> has_id(entries, #[trigger] padded(seed@, j)),
            tried.finite(),
            tried.len() == k,
            tried.subset_of(ids),
            forall|s: Seq<char>| tried.contains(s) ==> s.len() < candidate@.len(),
            k <= entries.len(),
        decreases entries.len() - k,
    {
        proof {
            let i = choose|i: int| 0 <= i < entries.len() && (#[trigger] entries[i]).0 == candidate@;
            assert(entry_ids(entries)[i] == candidate@);
            assert(ids.contains(candidate@));
            assert(!tried.contains(candidate@));
            tried = tried.insert(candidate@);
            vstd::set_lib::lemma_len_subset(tried, ids);
            k = k + 1;
        }
        candidate.append("0");
        proof {
            reveal_strlit("0");
            assert(candidate@ =~= padded(seed@, k));
        }
    }
    proof {
        assert(is_least_free_padding(entries, seed@, k));
        let k2 = choose|k2: nat| is_least_free_padding(entries, seed@, k2);
        if k2 < k {
            assert(has_id(entries, padded(seed@, k2)));
        } else if k < k2 {
            assert(has_id(entries, padded(seed@, k)));
        }
    }
    candidate
}

/// The identifier of a document that declares `declared`: the declared one
/// when it is not empty, else one generated from `seed`.
pub fn resolve(tree: &Tree<String, FileData>, declared: &String, seed: &String) -> (r: String)
    ensures
        r@ == doc_id(declared@, tree_entries(*tree), seed@),
{
    if declared.as_str().is_empty() {
        generate(tree, seed)
    } else {
        declared.clone()
    }
}

} // verus!
