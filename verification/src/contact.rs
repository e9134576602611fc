//! Which way a mesh is driven, and a quantity reported both ways round.
//!
//! Efficiency and angular backlash both depend on which end of a mesh is the
//! output, so every mesh answers for both directions through one expression
//! evaluated twice — there is no path through which a mesh reports one
//! direction without the other.

use vstd::prelude::*;

verus! {

/// Which way a mesh is being driven.
///
/// A parameter rather than a branch on "is this mesh symmetric?": reversing the
/// drive moves the load to the other flank, and every mesh answers the same
/// question.
#[derive(Clone, Copy, Debug, PartialEq, Eq)]
pub enum Drive {
    /// Member 1 drives member 2 — the direction a train propagates torque in.
    Forward,
    /// Member 2 drives member 1.
    Backward,
}

impl Drive {
    /// Both directions, in the order they are reported.
    pub const BOTH: [Drive; 2] = [Drive::Forward, Drive::Backward];
}

/// A quantity reported for both drive directions.
#[derive(Clone, Copy, Debug, Default, PartialEq)]
pub struct Directional<T> {
    pub forward: T,
    pub backward: T,
}

impl<T> Directional<T> {
    /// The value a direction reads.
    pub open spec fn at(self, drive: Drive) -> T {
        match drive {
            Drive::Forward => self.forward,
            Drive::Backward => self.backward,
        }
    }

    /// Ask the same question of both directions: `f` is evaluated once per
    /// direction, forward first.
    pub fn of<F: FnMut(Drive) -> T>(mut f: F) -> (r: Self)
        requires
            forall|d: Drive| call_requires(f, (d,)),
        ensures
            call_ensures(f, (Drive::Forward,), r.forward),
            call_ensures(f, (Drive::Backward,), r.backward),
    {
        let forward = f(Drive::Forward);
        let backward = f(Drive::Backward);
        Directional { forward, backward }
    }

    /// The value for one direction.
    pub fn get(&self, drive: Drive) -> (r: &T)
        ensures
            *r == self.at(drive),
    {
        match drive {
            Drive::Forward => &self.forward,
            Drive::Backward => &self.backward,
        }
    }
}

impl Directional<bool> {
    /// What a pair of refusals says, read as which ways a mesh will not be
    /// driven: named when it refuses either way, so a column of zero is not
    /// left to read as arithmetic.
    pub open spec fn spec_refusal(self) -> Seq<char> {
        if self.forward && self.backward {
            "  (turns neither way)"@
        } else if self.forward {
            "  (cannot be driven forward)"@
        } else if self.backward {
            "  (cannot be back-driven)"@
        } else {
            ""@
        }
    }

    /// The words a report appends to a mesh's two efficiencies, given in
    /// which directions the mesh refuses to be driven.
    pub fn refusal(&self) -> (r: &'static str)
        ensures
            r@ == self.spec_refusal(),
    {
        match (self.forward, self.backward) {
            (true, true) => "  (turns neither way)",
            (true, false) => "  (cannot be driven forward)",
            (false, true) => "  (cannot be back-driven)",
            (false, false) => "",
        }
    }
}

/// **Asking both directions and then reading one gives that direction's
/// answer.** Whatever `f` is, the value [`Directional::of`] reports for a
/// direction is one `f` can return for it — so a mesh cannot report one
/// direction from the other's evaluation.
pub proof fn each_direction_is_its_own_answer<T, F: FnMut(Drive) -> T>(
    f: F,
    r: Directional<T>,
    drive: Drive,
)
    requires
        call_ensures(f, (Drive::Forward,), r.forward),
        call_ensures(f, (Drive::Backward,), r.backward),
    ensures
        call_ensures(f, (drive,), r.at(drive)),
{
}

/// How the load is divided when two tooth pairs are in contact.
#[derive(Clone, Copy, Debug, Default, PartialEq, Eq)]
pub enum LoadSharing {
    /// No sharing: this tooth carries the whole load wherever it is in mesh.
    #[default]
    Unshared,
    /// A linear ramp across the double-contact zones — a first-order stand-in for a
    /// stiffness model, here to size the effect rather than certify a design.
    LinearRamp,
}

} // verus!
