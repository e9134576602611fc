//! Notes: what the geometry did that was not what was asked, each named by a
//! key that a front end's catalogue turns into a sentence.

use vstd::prelude::*;

verus! {

/// One thing worth telling a reader, by its catalogue key.
#[derive(Clone, Copy, Debug, PartialEq, Eq)]
pub struct Note {
    pub key: &'static str,
}

/// The key of a tooth that comes to a point before its tip.
pub const CLAMP_TOOTH_SEVERED: &'static str = "clamp.tooth_severed";

/// The key of a tooth whose flank the cutter undercuts.
pub const CLAMP_TOOTH_UNDERCUT: &'static str = "clamp.tooth_undercut";

impl Note {
    pub fn new(key: &'static str) -> (r: Note)
        ensures
            r.key == key,
    {
        Note { key }
    }
}

/// Whether a list already carries a note with this key.
pub open spec fn has_key(notes: Seq<Note>, key: Seq<char>) -> bool {
    exists|i: int| 0 <= i < notes.len() && #[trigger] notes[i].key@ == key
}

/// Each key at most once.
pub open spec fn keys_unique(notes: Seq<Note>) -> bool {
    forall|i: int, j: int|
        0 <= i < j < notes.len() ==> #[trigger] notes[i].key@ != #[trigger] notes[j].key@
}

/// `acc` with each of `more` appended in order, skipping any whose key is
/// already there.
pub open spec fn add_unique(acc: Seq<Note>, more: Seq<Note>) -> Seq<Note>
    decreases more.len(),
{
    if more.len() == 0 {
        acc
    } else {
        let a = add_unique(acc, more.drop_last());
        if has_key(a, more.last().key@) {
            a
        } else {
            a.push(more.last())
        }
    }
}

/// Adding notes keeps every key once, and every key added is then present,
/// as is every key that was there before.
pub proof fn add_unique_keeps_each_reason_once(acc: Seq<Note>, more: Seq<Note>)
    requires
        keys_unique(acc),
    ensures
        keys_unique(add_unique(acc, more)),
        forall|i: int| 0 <= i < more.len() ==> has_key(add_unique(acc, more), #[trigger] more[i].key@),
        forall|i: int| 0 <= i < acc.len() ==> has_key(add_unique(acc, more), #[trigger] acc[i].key@),
    decreases more.len(),
{
    if more.len() > 0 {
        let a = add_unique(acc, more.drop_last());
        add_unique_keeps_each_reason_once(acc, more.drop_last());
        let r = add_unique(acc, more);
        assert forall|i: int| 0 <= i < more.len() implies has_key(r, #[trigger] more[i].key@) by {
            if i < more.len() - 1 {
                assert(more.drop_last()[i] == more[i]);
                let w = choose|w: int| 0 <= w < a.len() && #[trigger] a[w].key@ == more[i].key@;
                assert(r[w] == a[w]);
            } else if !has_key(a, more.last().key@) {
                assert(r[a.len() as int] == more.last());
            }
        }
        assert forall|i: int| 0 <= i < acc.len() implies has_key(r, #[trigger] acc[i].key@) by {
            let w = choose|w: int| 0 <= w < a.len() && #[trigger] a[w].key@ == acc[i].key@;
            assert(r[w] == a[w]);
        }
    }
}

/// **Gathering adds no reason of its own**: every key of the gathered notes
/// was a key of the notes already there or of the notes added.
pub proof fn add_unique_adds_no_new_reason(acc: Seq<Note>, more: Seq<Note>, key: Seq<char>)
    ensures
        has_key(add_unique(acc, more), key) ==> has_key(acc, key) || has_key(more, key),
    decreases more.len(),
{
    if more.len() > 0 {
        let a = add_unique(acc, more.drop_last());
        add_unique_adds_no_new_reason(acc, more.drop_last(), key);
        if has_key(add_unique(acc, more), key) && !has_key(a, key) {
            let w = choose|w: int| 0 <= w < add_unique(acc, more).len() && #[trigger] add_unique(acc, more)[w].key@ == key;
            assert(w == a.len());
            assert(more[more.len() - 1].key@ == key);
        }
        if has_key(more.drop_last(), key) {
            let w = choose|w: int| 0 <= w < more.drop_last().len() && #[trigger] more.drop_last()[w].key@ == key;
            assert(more[w].key@ == key);
        }
    }
}

/// Append `n` unless a note with its key is already there.
pub fn push_unique(notes: &mut Vec<Note>, n: Note)
    ensures
        final(notes)@ == (if has_key(old(notes)@, n.key@) {
            old(notes)@
        } else {
            old(notes)@.push(n)
        }),
{
    let mut i: usize = 0;
    while i < notes.len()
        invariant
            i <= notes@.len(),
            notes@ == old(notes)@,
            forall|j: int| 0 <= j < i ==> #[trigger] notes@[j].key@ != n.key@,
        decreases notes.len() - i,
    {
        if crate::text::same_text(notes[i].key, n.key) {
            return;
        }
        i = i + 1;
    }
    notes.push(n);
}

} // verus!
