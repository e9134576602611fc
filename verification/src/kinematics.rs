//! How the kinematics record names what it prints: bodies by number, a set's
//! slots by name, each member by the role its shape gives it, and each port a
//! case declares by its role; which fixtures the record holds, and which of
//! them a run asked for a name runs.

use vstd::prelude::*;
use crate::text::{decimal, pad_to, padded, push_decimal, same_text};

verus! {

/// The frame every train is grounded to.
pub const GROUND: usize = 0;

/// What a shape calls one of its members.
#[derive(Clone, Copy, Debug, PartialEq, Eq)]
pub enum MemberRole {
    Gear,
    Worm,
    Wheel,
    Sun,
    Planet,
    Ring,
}

/// A member's role, and its number among the members sharing that role where
/// the shape numbers them.
#[derive(Clone, Copy, Debug, PartialEq, Eq)]
pub struct MemberName {
    pub role: MemberRole,
    pub ordinal: Option<usize>,
}

/// The label a stage's wiring gives one of its slots.
#[derive(Clone, Copy, Debug, PartialEq, Eq)]
pub enum BodyLabel {
    Ground,
    Carrier,
    Member { member: usize },
}

/// What a stage says of the slot a body first meets: the names of the stage's
/// members, and the label of the slot.
#[derive(Clone, Debug)]
pub struct StageEnd {
    pub names: Vec<MemberName>,
    pub label: BodyLabel,
}

/// Where an epicyclic set is driven, where it is read, and what holds it, as
/// slots of the set.
#[derive(Clone, Copy, Debug, PartialEq, Eq)]
pub struct Arrangement {
    pub input: usize,
    pub output: usize,
    pub held: usize,
}

/// A body as the harness prints it: its number, as the front end counts.
pub open spec fn spec_port(body: usize) -> Seq<char> {
    if body == GROUND {
        "ground"@
    } else {
        "b"@ + decimal(body as nat)
    }
}

pub fn port(body: usize) -> (r: String)
    ensures
        r@ == spec_port(body),
{
    if body == GROUND {
        String::from_str("ground")
    } else {
        let mut s = String::from_str("b");
        push_decimal(&mut s, body as u64);
        s
    }
}

/// What a load case asks of a port.
#[derive(Clone, Copy, Debug, PartialEq, Eq)]
pub enum LoadRole {
    /// Loaded with a torque and a speed.
    Load,
    /// Reacts whatever the loads put through it.
    Reacted,
    /// Turns, and carries nothing.
    Free,
}

/// One entry of a case as the harness prints it, for a port a case declares
/// rather than loads: the word its role is written with, then the port padded
/// to five characters. A loaded port is printed by its two figures instead,
/// and has no declared entry.
pub open spec fn spec_declared_entry(role: LoadRole, at: usize) -> Option<Seq<char>> {
    match role {
        LoadRole::Load => None,
        LoadRole::Reacted => Some("reacted at "@ + padded(spec_port(at), 5)),
        LoadRole::Free => Some("free at "@ + padded(spec_port(at), 5)),
    }
}

pub fn declared_entry(role: LoadRole, at: usize) -> (r: Option<String>)
    ensures
        match r {
            Some(e) => spec_declared_entry(role, at) == Some(e@),
            None => spec_declared_entry(role, at) is None,
        },
{
    let word = match role {
        LoadRole::Load => {
            return None;
        },
        LoadRole::Reacted => "reacted at ",
        LoadRole::Free => "free at ",
    };
    let mut body = port(at);
    pad_to(&mut body, 5);
    let mut e = String::from_str(word);
    e.append(body.as_str());
    Some(e)
}

/// A set's slot by name, in its wiring's order: ground, sun, carrier, ring.
/// Any name but the sun's or the carrier's is the ring's.
pub open spec fn spec_member(s: Seq<char>) -> usize {
    if s == "sun"@ {
        1
    } else if s == "carrier"@ {
        2
    } else {
        3
    }
}

pub fn member(s: &str) -> (r: usize)
    ensures
        r == spec_member(s@),
{
    if same_text(s, "sun") {
        1
    } else if same_text(s, "carrier") {
        2
    } else {
        3
    }
}

/// The body a set is read at: the first of sun, carrier and ring that is
/// neither driven nor held.
pub open spec fn spec_output_name(input: Seq<char>, fixed: Seq<char>) -> Seq<char> {
    if "sun"@ != input && "sun"@ != fixed {
        "sun"@
    } else if "carrier"@ != input && "carrier"@ != fixed {
        "carrier"@
    } else {
        "ring"@
    }
}

/// An arrangement as a train states it: the set driven at `input`, held at
/// `fixed`, and read at the one body of the three that is neither.
pub open spec fn spec_arranged(input: Seq<char>, fixed: Seq<char>) -> Arrangement {
    Arrangement {
        input: spec_member(input),
        output: spec_member(spec_output_name(input, fixed)),
        held: spec_member(fixed),
    }
}

pub fn arranged(input: &str, fixed: &str) -> (r: Arrangement)
    ensures
        r == spec_arranged(input@, fixed@),
{
    let output = if !same_text("sun", input) && !same_text("sun", fixed) {
        "sun"
    } else if !same_text("carrier", input) && !same_text("carrier", fixed) {
        "carrier"
    } else {
        "ring"
    };
    Arrangement { input: member(input), output: member(output), held: member(fixed) }
}

/// A member's name in the harness's English: a pair's two members are "first"
/// and "second", a gear with no role but its number is "member n", and a role
/// the shape numbers keeps its number.
pub open spec fn spec_member_role(names: Seq<MemberName>, member: int) -> Seq<char> {
    let name = names[member];
    let word = match name.role {
        MemberRole::Sun => "sun"@,
        MemberRole::Planet => "planet"@,
        MemberRole::Ring => "ring"@,
        _ => Seq::empty(),
    };
    match name.role {
        MemberRole::Gear | MemberRole::Worm | MemberRole::Wheel => if names.len() == 2 {
            if member == 0 {
                "first"@
            } else {
                "second"@
            }
        } else {
            "member "@ + decimal((member + 1) as nat)
        },
        _ => match name.ordinal {
            None => word,
            Some(n) => word + " "@ + decimal(n as nat),
        },
    }
}

pub fn member_role(names: &Vec<MemberName>, member: usize) -> (r: String)
    requires
        member < names.len(),
    ensures
        r@ == spec_member_role(names@, member as int),
{
    let name = names[member];
    let word = match name.role {
        MemberRole::Gear | MemberRole::Worm | MemberRole::Wheel => {
            if names.len() == 2 {
                if member == 0 {
                    return String::from_str("first");
                } else {
                    return String::from_str("second");
                }
            } else {
                let mut s = String::from_str("member ");
                push_decimal(&mut s, member as u64 + 1);
                return s;
            }
        },
        MemberRole::Sun => "sun",
        MemberRole::Planet => "planet",
        MemberRole::Ring => "ring",
    };
    match name.ordinal {
        None => String::from_str(word),
        Some(n) => {
            let mut s = String::from_str(word);
            s.append(" ");
            push_decimal(&mut s, n as u64);
            s
        },
    }
}

/// What a stage calls one of its bodies, from the label its wiring gives the
/// slot: ground, carrier, or the member's role.
pub open spec fn spec_labelled(names: Seq<MemberName>, label: BodyLabel) -> Seq<char> {
    match label {
        BodyLabel::Ground => "ground"@,
        BodyLabel::Carrier => "carrier"@,
        BodyLabel::Member { member } => spec_member_role(names, member as int),
    }
}

pub fn labelled(names: &Vec<MemberName>, label: BodyLabel) -> (r: String)
    requires
        label matches BodyLabel::Member { member } ==> member < names.len(),
    ensures
        r@ == spec_labelled(names@, label),
{
    match label {
        BodyLabel::Ground => String::from_str("ground"),
        BodyLabel::Carrier => String::from_str("carrier"),
        BodyLabel::Member { member } => member_role(names, member),
    }
}

/// What to call a body: after the slot it first meets in a stage where it
/// meets one, and otherwise the ground or its number.
pub open spec fn spec_named(body: usize, end: Option<StageEnd>) -> Seq<char> {
    match end {
        None => if body == GROUND {
            "ground"@
        } else {
            "body "@ + decimal(body as nat)
        },
        Some(e) => spec_labelled(e.names@, e.label),
    }
}

pub fn named(body: usize, end: &Option<StageEnd>) -> (r: String)
    requires
        end matches Some(e) ==> (e.label matches BodyLabel::Member { member } ==> member
            < e.names.len()),
    ensures
        r@ == spec_named(body, *end),
{
    match end {
        None => {
            if body == GROUND {
                String::from_str("ground")
            } else {
                let mut s = String::from_str("body ");
                push_decimal(&mut s, body as u64);
                s
            }
        },
        Some(e) => labelled(&e.names, e.label),
    }
}

/// The three bodies of a set, in the order the record walks them.
pub open spec fn body_word(k: int) -> Seq<char> {
    if k == 0 {
        "sun"@
    } else if k == 1 {
        "carrier"@
    } else {
        "ring"@
    }
}

fn body_text(k: usize) -> (r: &'static str)
    requires
        k < 3,
    ensures
        r@ == body_word(k as int),
{
    if k == 0 {
        "sun"
    } else if k == 1 {
        "carrier"
    } else {
        "ring"
    }
}

/// What the record calls a lone set driven at `input` and held at `fixed`.
pub open spec fn set_fixture_name(input: Seq<char>, fixed: Seq<char>) -> Seq<char> {
    "set-"@ + input + "-"@ + fixed
}

/// Every ordered pair of two different bodies of the three, as the driven and
/// the held body, by the driven body first and then by the held one.
pub open spec fn set_pairs() -> Seq<(int, int)> {
    seq![(0, 1), (0, 2), (1, 0), (1, 2), (2, 0), (2, 1)]
}

/// How many pairs come before `(i, j)` in [`set_pairs`] once the held bodies
/// before `j` have been walked for the driven body `i`.
pub open spec fn pairs_before(i: int, j: int) -> int {
    2 * i + if j <= i {
        j
    } else {
        j - 1
    }
}

/// **All six arrangements of a lone set**, named as the record names them:
/// every ordered pair of two different bodies, driven first and held second.
pub fn set_fixtures() -> (r: Vec<(String, Arrangement)>)
    ensures
        r.len() == 6,
        forall|k: int|
            #![trigger r[k]]
            0 <= k < 6 ==> {
                let (a, b) = set_pairs()[k];
                &&& r[k].0@ == set_fixture_name(body_word(a), body_word(b))
                &&& r[k].1 == spec_arranged(body_word(a), body_word(b))
            },
{
    let mut out: Vec<(String, Arrangement)> = Vec::new();
    let mut i: usize = 0;
    while i < 3
        invariant
            i <= 3,
            out.len() == 2 * i,
            forall|k: int|
                #![trigger out[k]]
                0 <= k < out.len() ==> {
                    let (a, b) = set_pairs()[k];
                    &&& out[k].0@ == set_fixture_name(body_word(a), body_word(b))
                    &&& out[k].1 == spec_arranged(body_word(a), body_word(b))
                },
        decreases 3 - i,
    {
        let mut j: usize = 0;
        while j < 3
            invariant
                i < 3,
                j <= 3,
                out.len() == pairs_before(i as int, j as int),
                forall|k: int|
                    #![trigger out[k]]
                    0 <= k < out.len() ==> {
                        let (a, b) = set_pairs()[k];
                        &&& out[k].0@ == set_fixture_name(body_word(a), body_word(b))
                        &&& out[k].1 == spec_arranged(body_word(a), body_word(b))
                    },
            decreases 3 - j,
        {
            if i != j {
                let input = body_text(i);
                let fixed = body_text(j);
                let mut name = String::from_str("set-");
                name.append(input);
                name.append("-");
                name.append(fixed);
                let arrangement = arranged(input, fixed);
                proof {
                    assert(set_pairs()[pairs_before(i as int, j as int)] == (i as int, j as int));
                }
                out.push((name, arrangement));
            }
            j = j + 1;
        }
        i = i + 1;
    }
    out
}

/// The arrangement of the set fixture at position `k` of [`set_pairs`].
pub open spec fn set_arrangement(k: int) -> Arrangement {
    spec_arranged(body_word(set_pairs()[k].0), body_word(set_pairs()[k].1))
}

/// An arrangement that drives, holds and reads a lone set at three different
/// ones of its slots sun, carrier and ring.
pub open spec fn drives_holds_and_reads(a: Arrangement) -> bool {
    &&& 1 <= a.input <= 3
    &&& 1 <= a.output <= 3
    &&& 1 <= a.held <= 3
    &&& a.input != a.output
    &&& a.output != a.held
    &&& a.input != a.held
}

proof fn lemma_set_arrangements()
    ensures
        set_arrangement(0) == (Arrangement { input: 1, output: 3, held: 2 }),
        set_arrangement(1) == (Arrangement { input: 1, output: 2, held: 3 }),
        set_arrangement(2) == (Arrangement { input: 2, output: 3, held: 1 }),
        set_arrangement(3) == (Arrangement { input: 2, output: 1, held: 3 }),
        set_arrangement(4) == (Arrangement { input: 3, output: 2, held: 1 }),
        set_arrangement(5) == (Arrangement { input: 3, output: 1, held: 2 }),
{
    reveal_strlit("sun");
    reveal_strlit("carrier");
    reveal_strlit("ring");
    assert("sun"@ != "carrier"@) by {
        assert("sun"@.len() != "carrier"@.len());
    }
    assert("sun"@ != "ring"@) by {
        assert("sun"@.len() != "ring"@.len());
    }
    assert("carrier"@ != "ring"@) by {
        assert("carrier"@.len() != "ring"@.len());
    }
}

/// **All six arrangements, each once**: every set fixture drives, holds and
/// reads the set at three different slots, no two fixtures arrange it alike,
/// and every way of driving one slot, holding another and reading the third
/// is one of them.
pub proof fn each_arrangement_recorded_once()
    ensures
        forall|k: int| 0 <= k < 6 ==> drives_holds_and_reads(#[trigger] set_arrangement(k)),
        forall|k1: int, k2: int|
            0 <= k1 < k2 < 6 ==> #[trigger] set_arrangement(k1) != #[trigger] set_arrangement(k2),
        forall|a: Arrangement|
            drives_holds_and_reads(a) ==> exists|k: int| 0 <= k < 6 && #[trigger] set_arrangement(k) == a,
{
    lemma_set_arrangements();
    assert forall|a: Arrangement| drives_holds_and_reads(a) implies exists|k: int|
        0 <= k < 6 && #[trigger] set_arrangement(k) == a by {
        if a.input == 1 && a.held == 2 {
            assert(set_arrangement(0) == a);
        } else if a.input == 1 {
            assert(set_arrangement(1) == a);
        } else if a.input == 2 && a.held == 1 {
            assert(set_arrangement(2) == a);
        } else if a.input == 2 {
            assert(set_arrangement(3) == a);
        } else if a.held == 1 {
            assert(set_arrangement(4) == a);
        } else {
            assert(set_arrangement(5) == a);
        }
    }
}

/// What the record calls each of its fixtures, in the order it runs them: the
/// parallel and crossed pairs, the six arrangements of a lone set, the presets
/// that need no code of their own, the chains, and the trains that do not
/// close or ask too much of a body.
pub open spec fn spec_fixture_names() -> Seq<Seq<char>> {
    seq!["pair"@, "helical"@, "worm"@] + Seq::new(
        6,
        |k: int| set_fixture_name(body_word(set_pairs()[k].0), body_word(set_pairs()[k].1)),
    ) + seq![
        "hula"@,
        "layshaft"@,
        "wormpair"@,
        "wolfrom"@,
        "stepped"@,
        "planocentric"@,
        "meshed-planets"@,
        "ravigneaux-small-sun"@,
        "ravigneaux-large-sun"@,
        "ravigneaux-ring-free"@,
        "chain"@,
        "mixed"@,
        "set-then-pair"@,
        "pair-then-set"@,
        "unclosed"@,
        "chain-unclosed"@,
        "ring-released"@,
        "conflict"@,
    ]
}

/// The text of each name, in order.
pub open spec fn texts(names: Seq<String>) -> Seq<Seq<char>> {
    names.map_values(|s: String| s@)
}

fn push_name(out: &mut Vec<String>, name: &str)
    ensures
        texts(final(out)@) == texts(old(out)@).push(name@),
{
    out.push(String::from_str(name));
    assert(texts(out@) =~= texts(old(out)@).push(name@));
}

/// Every fixture's name, in the order the record runs them.
pub fn fixture_names() -> (r: Vec<String>)
    ensures
        texts(r@) == spec_fixture_names(),
{
    let mut out: Vec<String> = Vec::new();
    push_name(&mut out, "pair");
    push_name(&mut out, "helical");
    push_name(&mut out, "worm");
    let sets = set_fixtures();
    let ghost head = texts(out@);
    let mut k: usize = 0;
    while k < sets.len()
        invariant
            sets.len() == 6,
            k <= 6,
            head == seq!["pair"@, "helical"@, "worm"@],
            forall|m: int|
                #![trigger sets[m]]
                0 <= m < 6 ==> sets[m].0@ == set_fixture_name(
                    body_word(set_pairs()[m].0),
                    body_word(set_pairs()[m].1),
                ),
            texts(out@) == head + Seq::new(
                k as nat,
                |m: int| set_fixture_name(body_word(set_pairs()[m].0), body_word(set_pairs()[m].1)),
            ),
        decreases 6 - k,
    {
        let ghost before = texts(out@);
        push_name(&mut out, sets[k].0.as_str());
        assert(texts(out@) =~= head + Seq::new(
            (k + 1) as nat,
            |m: int| set_fixture_name(body_word(set_pairs()[m].0), body_word(set_pairs()[m].1)),
        ));
        k = k + 1;
    }
    push_name(&mut out, "hula");
    push_name(&mut out, "layshaft");
    push_name(&mut out, "wormpair");
    push_name(&mut out, "wolfrom");
    push_name(&mut out, "stepped");
    push_name(&mut out, "planocentric");
    push_name(&mut out, "meshed-planets");
    push_name(&mut out, "ravigneaux-small-sun");
    push_name(&mut out, "ravigneaux-large-sun");
    push_name(&mut out, "ravigneaux-ring-free");
    push_name(&mut out, "chain");
    push_name(&mut out, "mixed");
    push_name(&mut out, "set-then-pair");
    push_name(&mut out, "pair-then-set");
    push_name(&mut out, "unclosed");
    push_name(&mut out, "chain-unclosed");
    push_name(&mut out, "ring-released");
    push_name(&mut out, "conflict");
    assert(texts(out@) =~= spec_fixture_names());
    out
}

/// Whether a run asked for `which` runs the fixture called `name`: every
/// fixture when none is named, and otherwise the one of that name.
pub open spec fn runs(which: Option<Seq<char>>, name: Seq<char>) -> bool {
    match which {
        None => true,
        Some(w) => w == name,
    }
}

/// The positions of the fixtures that a run asked for `which` runs, in order.
pub open spec fn spec_selected(names: Seq<Seq<char>>, which: Option<Seq<char>>) -> Seq<usize>
    decreases names.len(),
{
    if names.len() == 0 {
        Seq::empty()
    } else {
        let rest = spec_selected(names.drop_last(), which);
        if runs(which, names.last()) {
            rest.push((names.len() - 1) as usize)
        } else {
            rest
        }
    }
}

/// The names, one after another, each but the first after a comma and a space.
pub open spec fn joined(names: Seq<Seq<char>>) -> Seq<char>
    decreases names.len(),
{
    if names.len() == 0 {
        Seq::empty()
    } else if names.len() == 1 {
        names[0]
    } else {
        joined(names.drop_last()) + ", "@ + names.last()
    }
}

/// What a run asked for a fixture the record does not have answers.
pub open spec fn spec_no_such_fixture(names: Seq<Seq<char>>) -> Seq<char> {
    "no such fixture. try one of: "@ + joined(names)
}

/// The text a run was asked for, if any.
pub open spec fn asked(which: Option<&str>) -> Option<Seq<char>> {
    match which {
        None => None,
        Some(w) => Some(w@),
    }
}

/// **Which fixtures a run asked for `which` runs**: every one when none is
/// named, the one of that name otherwise; and where that is none at all, the
/// answer that lists what there is.
pub fn fixture_selection(names: &Vec<String>, which: Option<&str>) -> (r: Result<
    Vec<usize>,
    String,
>)
    ensures
        match r {
            Ok(v) => v@ == spec_selected(texts(names@), asked(which)) && v.len() > 0,
            Err(m) => spec_selected(texts(names@), asked(which)).len() == 0 && m@
                == spec_no_such_fixture(texts(names@)),
        },
{
    let mut chosen: Vec<usize> = Vec::new();
    let mut i: usize = 0;
    while i < names.len()
        invariant
            i <= names.len(),
            chosen@ == spec_selected(texts(names@).take(i as int), asked(which)),
        decreases names.len() - i,
    {
        let runs_it = match which {
            None => true,
            Some(w) => same_text(w, names[i].as_str()),
        };
        proof {
            let t = texts(names@).take(i + 1);
            assert(t.drop_last() =~= texts(names@).take(i as int));
            assert(t.last() == names[i as int]@);
        }
        if runs_it {
            chosen.push(i);
        }
        i = i + 1;
    }
    assert(texts(names@).take(names.len() as int) =~= texts(names@));
    if chosen.len() > 0 {
        return Ok(chosen);
    }
    let mut m = String::from_str("no such fixture. try one of: ");
    let mut j: usize = 0;
    while j < names.len()
        invariant
            j <= names.len(),
            m@ == "no such fixture. try one of: "@ + joined(texts(names@).take(j as int)),
        decreases names.len() - j,
    {
        proof {
            let t = texts(names@).take(j + 1);
            assert(t.drop_last() =~= texts(names@).take(j as int));
            assert(t.last() == names[j as int]@);
            if j == 0 {
                assert(t =~= seq![names[0]@]);
            }
        }
        if j > 0 {
            m.append(", ");
        }
        m.append(names[j].as_str());
        proof {
            let t = texts(names@).take(j + 1);
            if j > 0 {
                assert(m@ =~= "no such fixture. try one of: "@ + (joined(t.drop_last()) + ", "@
                    + t.last()));
            } else {
                assert(m@ =~= "no such fixture. try one of: "@ + t[0]);
            }
        }
        j = j + 1;
    }
    Err(m)
}

/// **Every arrangement is driven, held and read at three different bodies**
/// whenever the driven and held bodies are two different ones of the set's
/// three: the body it is read at is the third.
pub proof fn the_output_is_the_third_body(input: Seq<char>, fixed: Seq<char>)
    requires
        input == "sun"@ || input == "carrier"@ || input == "ring"@,
        fixed == "sun"@ || fixed == "carrier"@ || fixed == "ring"@,
        input != fixed,
    ensures
        ({
            let a = spec_arranged(input, fixed);
            &&& a.input != a.output
            &&& a.output != a.held
            &&& a.input != a.held
            &&& 1 <= a.input <= 3
            &&& 1 <= a.output <= 3
            &&& 1 <= a.held <= 3
        }),
{
    reveal_strlit("sun");
    reveal_strlit("carrier");
    reveal_strlit("ring");
    assert("sun"@.len() == 3);
    assert("carrier"@.len() == 7);
    assert("ring"@.len() == 4);
}

} // verus!
