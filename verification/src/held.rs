//! Keeping the sounding notes in step with the keys that are held.
use vstd::prelude::*;

verus! {

/// The notes of `a` that `b` does not hold, in the order of `a`.
pub open spec fn missing_from(a: Seq<u8>, b: Seq<u8>) -> Seq<u8> {
    a.filter(|m: u8| !b.contains(m))
}

fn holds_note(notes: &[u8], m: u8) -> (r: bool)
    ensures
        r == notes@.contains(m),
{
    let mut i: usize = 0;
    while i < notes.len()
        invariant
            i <= notes@.len(),
            forall|j: int| 0 <= j < i ==> notes@[j] != m,
        decreases notes.len() - i,
    {
        if notes[i] == m {
            return true;
        }
        i = i + 1;
    }
    false
}

/// The notes of `a` that `b` does not hold.
fn notes_missing(a: &[u8], b: &[u8]) -> (r: Vec<u8>)
    ensures
        r@ == missing_from(a@, b@),
{
    let ghost p = |m: u8| !b@.contains(m);
    let mut r: Vec<u8> = Vec::new();
    let mut k: usize = 0;
    while k < a.len()
        invariant
            k <= a@.len(),
            p == (|m: u8| !b@.contains(m)),
            r@ == a@.take(k as int).filter(p),
        decreases a.len() - k,
    {
        proof {
            reveal_with_fuel(Seq::<_>::filter, 1);
            assert(a@.take(k + 1).drop_last() =~= a@.take(k as int));
        }
        if !holds_note(b, a[k]) {
            r.push(a[k]);
        }
        k = k + 1;
    }
    assert(a@.take(a@.len() as int) =~= a@);
    r
}

/// When the wanted notes change from `held` to `desired`: the notes to start (wanted now, not
/// held before) and the notes to stop (held before, not wanted now).
pub fn note_changes(held: &[u8], desired: &[u8]) -> (r: (Vec<u8>, Vec<u8>))
    ensures
        r.0@ == missing_from(desired@, held@),
        r.1@ == missing_from(held@, desired@),
{
    (notes_missing(desired, held), notes_missing(held, desired))
}

/// Starting the notes to start and stopping the notes to stop leaves exactly the wanted notes
/// sounding: a note sounds afterwards if and only if it is wanted.
pub proof fn changes_reach_desired(held: Seq<u8>, desired: Seq<u8>, m: u8)
    ensures
        ((held.contains(m) && !missing_from(held, desired).contains(m)) || missing_from(desired, held).contains(m))
            <==> desired.contains(m),
        !(missing_from(desired, held).contains(m) && missing_from(held, desired).contains(m)),
{
    broadcast use vstd::seq_lib::group_filter_ensures;

    let pd = |x: u8| !held.contains(x);
    let ph = |x: u8| !desired.contains(x);
    if desired.contains(m) && !held.contains(m) {
        let i = choose|i: int| 0 <= i < desired.len() && desired[i] == m;
        desired.lemma_filter_contains(pd, i);
    }
    if held.contains(m) && !desired.contains(m) {
        let i = choose|i: int| 0 <= i < held.len() && held[i] == m;
        held.lemma_filter_contains(ph, i);
    }
    if missing_from(desired, held).contains(m) {
        desired.lemma_filter_contains_rev(pd, m);
    }
    if missing_from(held, desired).contains(m) {
        held.lemma_filter_contains_rev(ph, m);
    }
}

} // verus!
