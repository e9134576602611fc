//! Which teeth of an assembled gear are not as drawn, and why.
//!
//! A gear is assembled tooth by tooth, and every guard that altered a tooth's
//! geometry is recorded on that tooth. Gathering them is this module's job:
//! the positions round the gear whose tooth was altered, and each reason once.

use vstd::prelude::*;
use crate::note::{
    add_unique, add_unique_adds_no_new_reason, add_unique_keeps_each_reason_once, has_key,
    keys_unique, push_unique, Note, CLAMP_TOOTH_SEVERED, CLAMP_TOOTH_UNDERCUT,
};

verus! {

/// What one tooth's cut recorded: the guards that altered it, and whether it
/// came out pointed before its tip or undercut.
#[derive(Clone, Debug)]
pub struct ToothCut {
    pub clamps: Vec<Note>,
    pub severed: bool,
    pub undercut: bool,
}

/// The teeth that are not as drawn.
#[derive(Clone, Debug)]
pub struct PerToothClamps {
    /// Positions round the gear, counting from `θ = 0`.
    pub teeth: Vec<u32>,
    /// What happened, each reason once.
    pub notes: Vec<Note>,
}

/// Everything one tooth has to say: its clamps, then a severed tooth, or
/// failing that an undercut one — a severed tooth is not also called undercut.
pub open spec fn tooth_notes(t: ToothCut) -> Seq<Note> {
    if t.severed {
        t.clamps@.push(Note { key: CLAMP_TOOTH_SEVERED })
    } else if t.undercut {
        t.clamps@.push(Note { key: CLAMP_TOOTH_UNDERCUT })
    } else {
        t.clamps@
    }
}

/// The positions whose tooth has anything to say, in order.
pub open spec fn spec_clamped_teeth(teeth: Seq<ToothCut>) -> Seq<u32>
    decreases teeth.len(),
{
    if teeth.len() == 0 {
        Seq::empty()
    } else {
        let rest = spec_clamped_teeth(teeth.drop_last());
        if tooth_notes(teeth.last()).len() > 0 {
            rest.push((teeth.len() - 1) as u32)
        } else {
            rest
        }
    }
}

/// Every tooth's reasons, gathered in order with each key once.
pub open spec fn spec_clamp_notes(teeth: Seq<ToothCut>) -> Seq<Note>
    decreases teeth.len(),
{
    if teeth.len() == 0 {
        Seq::empty()
    } else {
        add_unique(spec_clamp_notes(teeth.drop_last()), tooth_notes(teeth.last()))
    }
}

/// Which teeth are not as drawn, and why.
pub fn per_tooth_clamps(teeth: &Vec<ToothCut>) -> (r: PerToothClamps)
    requires
        teeth@.len() <= u32::MAX + 1,
    ensures
        r.teeth@ == spec_clamped_teeth(teeth@),
        r.notes@ == spec_clamp_notes(teeth@),
{
    let mut positions: Vec<u32> = Vec::new();
    let mut notes: Vec<Note> = Vec::new();
    let mut k: usize = 0;
    while k < teeth.len()
        invariant
            k <= teeth@.len(),
            teeth@.len() <= u32::MAX + 1,
            positions@ == spec_clamped_teeth(teeth@.take(k as int)),
            notes@ == spec_clamp_notes(teeth@.take(k as int)),
        decreases teeth.len() - k,
    {
        let g = &teeth[k];
        let mut its: Vec<Note> = g.clamps.clone();
        assert(its@ == g.clamps@) by {
            assert forall|i: int| 0 <= i < its@.len() implies its@[i] == g.clamps@[i] by {}
        }
        if g.severed {
            its.push(Note::new(CLAMP_TOOTH_SEVERED));
        } else if g.undercut {
            its.push(Note::new(CLAMP_TOOTH_UNDERCUT));
        }
        assert(its@ =~= tooth_notes(*g));
        assert(teeth@.take(k as int + 1).drop_last() =~= teeth@.take(k as int));
        assert(teeth@.take(k as int + 1).last() == *g);
        if its.len() > 0 {
            positions.push(k as u32);
        }
        let ghost before = notes@;
        let mut j: usize = 0;
        while j < its.len()
            invariant
                j <= its@.len(),
                notes@ == add_unique(before, its@.take(j as int)),
            decreases its.len() - j,
        {
            assert(its@.take(j as int + 1).drop_last() =~= its@.take(j as int));
            push_unique(&mut notes, its[j]);
            j = j + 1;
        }
        assert(its@.take(its@.len() as int) =~= its@);
        k = k + 1;
    }
    assert(teeth@.take(teeth@.len() as int) =~= teeth@);
    PerToothClamps { teeth: positions, notes }
}

/// **Each reason once**: however many teeth report the same thing, the
/// gathered notes carry every reason any tooth gave, and none twice.
pub proof fn each_reason_once(teeth: Seq<ToothCut>)
    ensures
        keys_unique(spec_clamp_notes(teeth)),
        forall|k: int, i: int|
            0 <= k < teeth.len() && 0 <= i < tooth_notes(teeth[k]).len() ==> crate::note::has_key(
                spec_clamp_notes(teeth),
                #[trigger] tooth_notes(teeth[k])[i].key@,
            ),
    decreases teeth.len(),
{
    if teeth.len() > 0 {
        let rest = spec_clamp_notes(teeth.drop_last());
        each_reason_once(teeth.drop_last());
        add_unique_keeps_each_reason_once(rest, tooth_notes(teeth.last()));
        assert forall|k: int, i: int|
            0 <= k < teeth.len() && 0 <= i < tooth_notes(teeth[k]).len() implies crate::note::has_key(
                spec_clamp_notes(teeth),
                #[trigger] tooth_notes(teeth[k])[i].key@,
            ) by {
            if k < teeth.len() - 1 {
                assert(teeth.drop_last()[k] == teeth[k]);
                let w = choose|w: int|
                    0 <= w < rest.len() && #[trigger] rest[w].key@ == tooth_notes(teeth[k])[i].key@;
                assert(rest[w].key@ == tooth_notes(teeth[k])[i].key@);
            }
        }
    }
}

/// **A tooth is listed exactly when it has something to say**, and the
/// positions come out in order round the gear.
pub proof fn listed_exactly_when_altered(teeth: Seq<ToothCut>)
    requires
        teeth.len() <= u32::MAX + 1,
    ensures
        forall|i: int, j: int|
            0 <= i < j < spec_clamped_teeth(teeth).len() ==> #[trigger] spec_clamped_teeth(teeth)[i]
                < #[trigger] spec_clamped_teeth(teeth)[j],
        forall|k: int|
            0 <= k < teeth.len() ==> (spec_clamped_teeth(teeth).contains(k as u32) <==> tooth_notes(
                #[trigger] teeth[k],
            ).len() > 0),
        forall|i: int|
            0 <= i < spec_clamped_teeth(teeth).len() ==> #[trigger] spec_clamped_teeth(teeth)[i]
                < teeth.len(),
    decreases teeth.len(),
{
    if teeth.len() > 0 {
        let rest = spec_clamped_teeth(teeth.drop_last());
        listed_exactly_when_altered(teeth.drop_last());
        assert forall|k: int|
            0 <= k < teeth.len() implies (spec_clamped_teeth(teeth).contains(k as u32) <==> tooth_notes(
            #[trigger] teeth[k],
        ).len() > 0) by {
            if k < teeth.len() - 1 {
                assert(teeth.drop_last()[k] == teeth[k]);
                if spec_clamped_teeth(teeth).contains(k as u32) {
                    let w = choose|w: int|
                        0 <= w < spec_clamped_teeth(teeth).len() && spec_clamped_teeth(teeth)[w]
                            == k as u32;
                    if w < rest.len() {
                        assert(rest[w] == k as u32);
                        assert(rest.contains(k as u32));
                    }
                }
                if rest.contains(k as u32) {
                    let w = choose|w: int| 0 <= w < rest.len() && rest[w] == k as u32;
                    assert(spec_clamped_teeth(teeth)[w] == k as u32);
                }
            } else {
                if tooth_notes(teeth[k]).len() > 0 {
                    assert(spec_clamped_teeth(teeth)[rest.len() as int] == k as u32);
                } else {
                    if spec_clamped_teeth(teeth).contains(k as u32) {
                        let w = choose|w: int|
                            0 <= w < spec_clamped_teeth(teeth).len() && spec_clamped_teeth(teeth)[w]
                                == k as u32;
                        assert(rest[w] < teeth.len() - 1);
                    }
                }
            }
        }
    }
}

/// Every reason the gathered notes carry is one some tooth gave.
proof fn lemma_notes_come_from_teeth(teeth: Seq<ToothCut>, key: Seq<char>)
    ensures
        has_key(spec_clamp_notes(teeth), key) ==> exists|k: int|
            0 <= k < teeth.len() && has_key(tooth_notes(#[trigger] teeth[k]), key),
    decreases teeth.len(),
{
    if teeth.len() > 0 {
        let n = teeth.len() - 1;
        lemma_notes_come_from_teeth(teeth.drop_last(), key);
        add_unique_adds_no_new_reason(
            spec_clamp_notes(teeth.drop_last()),
            tooth_notes(teeth.last()),
            key,
        );
        if has_key(spec_clamp_notes(teeth.drop_last()), key) {
            let k = choose|k: int|
                0 <= k < teeth.drop_last().len() && has_key(
                    tooth_notes(#[trigger] teeth.drop_last()[k]),
                    key,
                );
            assert(teeth[k] == teeth.drop_last()[k]);
        }
        if has_key(tooth_notes(teeth.last()), key) {
            assert(teeth[n] == teeth.last());
        }
    }
}

/// Where a tooth's own notes carry a key other than the severed one, the
/// tooth either lists it among its clamps or is undercut and not severed with
/// that key the undercut one.
proof fn lemma_tooth_key(t: ToothCut, key: Seq<char>)
    ensures
        has_key(tooth_notes(t), key) ==> has_key(t.clamps@, key) || (t.severed && key
            == CLAMP_TOOTH_SEVERED@) || (t.undercut && !t.severed && key == CLAMP_TOOTH_UNDERCUT@),
{
    if has_key(tooth_notes(t), key) {
        let w = choose|w: int| 0 <= w < tooth_notes(t).len() && #[trigger] tooth_notes(t)[w].key@ == key;
        if w < t.clamps@.len() {
            assert(tooth_notes(t)[w] == t.clamps@[w]);
        }
    }
}

/// **A tooth is listed when it is altered, a severed tooth is not also called
/// undercut, and no reason is reported that no tooth gave**: a tooth is listed
/// exactly when it carries a clamp, is severed or is undercut; the gathered
/// notes say "severed" exactly when some tooth is severed or lists it, and
/// "undercut" exactly when some tooth is undercut without being severed, or
/// lists it.
pub proof fn a_severed_tooth_is_not_also_undercut(teeth: Seq<ToothCut>)
    requires
        teeth.len() <= u32::MAX + 1,
    ensures
        forall|k: int|
            0 <= k < teeth.len() ==> (spec_clamped_teeth(teeth).contains(k as u32) <==> (
            #[trigger] teeth[k].clamps@.len() > 0 || teeth[k].severed || teeth[k].undercut)),
        has_key(spec_clamp_notes(teeth), CLAMP_TOOTH_SEVERED@) <==> exists|k: int|
            0 <= k < teeth.len() && (#[trigger] teeth[k].severed || has_key(
                teeth[k].clamps@,
                CLAMP_TOOTH_SEVERED@,
            )),
        has_key(spec_clamp_notes(teeth), CLAMP_TOOTH_UNDERCUT@) <==> exists|k: int|
            0 <= k < teeth.len() && ((#[trigger] teeth[k].undercut && !teeth[k].severed)
                || has_key(teeth[k].clamps@, CLAMP_TOOTH_UNDERCUT@)),
{
    reveal_strlit("clamp.tooth_severed");
    reveal_strlit("clamp.tooth_undercut");
    assert(CLAMP_TOOTH_SEVERED@ != CLAMP_TOOTH_UNDERCUT@) by {
        assert(CLAMP_TOOTH_SEVERED@.len() != CLAMP_TOOTH_UNDERCUT@.len());
    }
    listed_exactly_when_altered(teeth);
    each_reason_once(teeth);
    assert forall|k: int|
        0 <= k < teeth.len() implies (spec_clamped_teeth(teeth).contains(k as u32) <==> (
        #[trigger] teeth[k].clamps@.len() > 0 || teeth[k].severed || teeth[k].undercut)) by {
        assert(tooth_notes(teeth[k]).len() > 0 <==> (teeth[k].clamps@.len() > 0 || teeth[k].severed
            || teeth[k].undercut));
    }
    let notes = spec_clamp_notes(teeth);
    // What the notes carry, some tooth gave.
    lemma_notes_come_from_teeth(teeth, CLAMP_TOOTH_SEVERED@);
    lemma_notes_come_from_teeth(teeth, CLAMP_TOOTH_UNDERCUT@);
    if has_key(notes, CLAMP_TOOTH_SEVERED@) {
        let k = choose|k: int|
            0 <= k < teeth.len() && has_key(tooth_notes(#[trigger] teeth[k]), CLAMP_TOOTH_SEVERED@);
        lemma_tooth_key(teeth[k], CLAMP_TOOTH_SEVERED@);
    }
    if has_key(notes, CLAMP_TOOTH_UNDERCUT@) {
        let k = choose|k: int|
            0 <= k < teeth.len() && has_key(tooth_notes(#[trigger] teeth[k]), CLAMP_TOOTH_UNDERCUT@);
        lemma_tooth_key(teeth[k], CLAMP_TOOTH_UNDERCUT@);
        assert((teeth[k].undercut && !teeth[k].severed) || has_key(teeth[k].clamps@, CLAMP_TOOTH_UNDERCUT@));
    }
    // What some tooth gave, the notes carry.
    assert forall|k: int|
        0 <= k < teeth.len() && (#[trigger] teeth[k].severed || has_key(
            teeth[k].clamps@,
            CLAMP_TOOTH_SEVERED@,
        )) implies has_key(notes, CLAMP_TOOTH_SEVERED@) by {
        let t = teeth[k];
        let i = if t.severed {
            t.clamps@.len() as int
        } else {
            choose|w: int| 0 <= w < t.clamps@.len() && #[trigger] t.clamps@[w].key@ == CLAMP_TOOTH_SEVERED@
        };
        assert(tooth_notes(t)[i].key@ == CLAMP_TOOTH_SEVERED@);
        assert(0 <= i < tooth_notes(teeth[k]).len());
        assert(has_key(notes, tooth_notes(teeth[k])[i].key@));
    }
    assert forall|k: int|
        0 <= k < teeth.len() && ((#[trigger] teeth[k].undercut && !teeth[k].severed) || has_key(
            teeth[k].clamps@,
            CLAMP_TOOTH_UNDERCUT@,
        )) implies has_key(notes, CLAMP_TOOTH_UNDERCUT@) by {
        let t = teeth[k];
        let i = if t.undercut && !t.severed {
            t.clamps@.len() as int
        } else {
            choose|w: int| 0 <= w < t.clamps@.len() && #[trigger] t.clamps@[w].key@ == CLAMP_TOOTH_UNDERCUT@
        };
        if !(t.undercut && !t.severed) {
            assert(tooth_notes(t)[i] == t.clamps@[i]);
        }
        assert(tooth_notes(t)[i].key@ == CLAMP_TOOTH_UNDERCUT@);
        assert(0 <= i < tooth_notes(teeth[k]).len());
        assert(has_key(notes, tooth_notes(teeth[k])[i].key@));
    }
}

/// **The gathered notes are exactly the teeth's reasons**: a key is reported
/// exactly when some tooth lists it among its clamps, or is severed and the key
/// is the severed one, or is undercut without being severed and the key is the
/// undercut one.
pub proof fn the_notes_are_the_teeths_reasons(teeth: Seq<ToothCut>, key: Seq<char>)
    ensures
        has_key(spec_clamp_notes(teeth), key) <==> exists|k: int|
            0 <= k < teeth.len() && (has_key((#[trigger] teeth[k]).clamps@, key) || (teeth[k].severed
                && key == CLAMP_TOOTH_SEVERED@) || (teeth[k].undercut && !teeth[k].severed && key
                == CLAMP_TOOTH_UNDERCUT@)),
{
    lemma_notes_come_from_teeth(teeth, key);
    each_reason_once(teeth);
    if has_key(spec_clamp_notes(teeth), key) {
        let k = choose|k: int| 0 <= k < teeth.len() && has_key(tooth_notes(#[trigger] teeth[k]), key);
        lemma_tooth_key(teeth[k], key);
    }
    assert forall|k: int|
        0 <= k < teeth.len() && (has_key((#[trigger] teeth[k]).clamps@, key) || (teeth[k].severed
            && key == CLAMP_TOOTH_SEVERED@) || (teeth[k].undercut && !teeth[k].severed && key
            == CLAMP_TOOTH_UNDERCUT@)) implies has_key(spec_clamp_notes(teeth), key) by {
        let t = teeth[k];
        let i = if has_key(t.clamps@, key) {
            choose|w: int| 0 <= w < t.clamps@.len() && #[trigger] t.clamps@[w].key@ == key
        } else {
            t.clamps@.len() as int
        };
        if has_key(t.clamps@, key) {
            assert(tooth_notes(t)[i] == t.clamps@[i]);
        }
        assert(tooth_notes(t)[i].key@ == key);
        assert(0 <= i < tooth_notes(teeth[k]).len());
        assert(has_key(spec_clamp_notes(teeth), tooth_notes(teeth[k])[i].key@));
    }
}

} // verus!
