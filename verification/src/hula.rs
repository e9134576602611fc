//! The hula drive's arithmetic: two internal meshes sharing one crank offset.
//!
//! Four gears in two pairs. Gears 1 and 4 sit on the fixed axis — 1 grounded,
//! 4 the output — while gears 2 and 3 ride a body carried on an eccentric crank.
//!
//! Willis on each mesh, with the crank as the carrier of both, gives
//!
//! ```text
//! ω₄/ω_c = 1 − z₁z₃/(z₂z₄)        so      R = z₂z₄ / D,   D = z₂z₄ − z₁z₃
//! ```
//!
//! `D` is an integer, and it is the whole design rule: `D = 0` means the output
//! cannot turn at all, which is a refusal rather than a large number. The ratio
//! is therefore kept as the two products it comes from.
//!
//! The two axes of a pair are one crank offset apart, so a pair can only be an
//! internal one, and the ring is whichever member has more teeth.

use vstd::prelude::*;

verus! {

/// The four tooth counts, in the order the drive is read: the grounded gear,
/// the two that ride the wobble body, then the output.
#[derive(Clone, Copy, Debug, PartialEq, Eq)]
pub struct Teeth(pub [u32; 4]);

/// One mesh, by role rather than by index: both indices point back into
/// [`Teeth`].
#[derive(Clone, Copy, Debug, PartialEq, Eq)]
pub struct Pair {
    pub ring: usize,
    pub pinion: usize,
}

/// A reduction, as the two products it comes from.
#[derive(Clone, Copy, Debug, PartialEq, Eq)]
pub struct Ratio {
    /// `z₂z₄` — the product across the wobble body.
    pub numerator: i64,
    /// `D = z₂z₄ − z₁z₃`. Its size is the whole design rule; its sign is the
    /// output's direction.
    pub denominator: i64,
}

/// Why a drive has no geometry.
#[derive(Clone, Copy, Debug, PartialEq, Eq)]
pub enum Error {
    /// `z₂z₄ = z₁z₃`: the two meshes step by the same amount and cancel, so the
    /// output cannot turn.
    Locked,
    /// A pair whose members have the same tooth count is not a mesh.
    Coaxial(usize),
    /// The offset is below the pair's base-circle limit, where no operating
    /// pressure angle exists.
    OffsetTooSmall(usize),
    /// No offset in the involute domain gives this mesh the clearance asked
    /// for.
    ClearanceUnreachable(usize),
}

/// The pair mesh `mesh` is, read off the counts: the member with more teeth is
/// the ring.
pub open spec fn spec_pair(z: [u32; 4], mesh: int) -> Result<Pair, Error> {
    let (a, b) = (mesh * 2, mesh * 2 + 1);
    if z[a] > z[b] {
        Ok(Pair { ring: a as usize, pinion: b as usize })
    } else if z[a] < z[b] {
        Ok(Pair { ring: b as usize, pinion: a as usize })
    } else {
        Err(Error::Coaxial(mesh as usize))
    }
}

/// `R = z₂z₄ / (z₂z₄ − z₁z₃)`, refused where the denominator vanishes.
pub open spec fn spec_ratio(z: [u32; 4]) -> Result<Ratio, Error> {
    let numerator = z[1] * z[3];
    let denominator = numerator - z[0] * z[2];
    if denominator != 0 {
        Ok(Ratio { numerator: numerator as i64, denominator: denominator as i64 })
    } else {
        Err(Error::Locked)
    }
}

/// A drive's ratio and its two pairs, or the first refusal among them.
pub open spec fn spec_meshes(z: [u32; 4]) -> Result<(Ratio, [Pair; 2]), Error> {
    match spec_ratio(z) {
        Err(e) => Err(e),
        Ok(ratio) => match spec_pair(z, 0) {
            Err(e) => Err(e),
            Ok(first) => match spec_pair(z, 1) {
                Err(e) => Err(e),
                Ok(second) => Ok((ratio, [first, second])),
            },
        },
    }
}

/// Whether both products of a set of counts fit the integers the ratio is
/// kept in.
pub open spec fn products_fit(z: [u32; 4]) -> bool {
    &&& z[1] * z[3] <= i64::MAX
    &&& z[0] * z[2] <= i64::MAX
}

impl Teeth {
    /// The pair a mesh is, ring first.
    ///
    /// Refused with [`Error::Coaxial`] when the two counts are equal.
    pub fn pair(self, mesh: usize) -> (r: Result<Pair, Error>)
        requires
            mesh < 2,
        ensures
            r == spec_pair(self.0, mesh as int),
    {
        let (a, b) = (mesh * 2, mesh * 2 + 1);
        if self.0[a] > self.0[b] {
            Ok(Pair { ring: a, pinion: b })
        } else if self.0[a] < self.0[b] {
            Ok(Pair { ring: b, pinion: a })
        } else {
            Err(Error::Coaxial(mesh))
        }
    }

    /// `R = z₂z₄ / (z₂z₄ − z₁z₃)`.
    ///
    /// Refused with [`Error::Locked`] when the denominator is zero.
    pub fn ratio(self) -> (r: Result<Ratio, Error>)
        requires
            products_fit(self.0),
        ensures
            r == spec_ratio(self.0),
    {
        let z0 = self.0[0] as i64;
        let z1 = self.0[1] as i64;
        let z2 = self.0[2] as i64;
        let z3 = self.0[3] as i64;
        assert(0 <= z1 * z3 <= i64::MAX && 0 <= z0 * z2 <= i64::MAX) by (nonlinear_arith)
            requires
                z0 >= 0,
                z1 >= 0,
                z2 >= 0,
                z3 >= 0,
                self.0[1] * self.0[3] <= i64::MAX,
                self.0[0] * self.0[2] <= i64::MAX,
                z0 == self.0[0],
                z1 == self.0[1],
                z2 == self.0[2],
                z3 == self.0[3],
        ;
        let numerator = z1 * z3;
        let denominator = numerator - z0 * z2;
        if denominator != 0 {
            Ok(Ratio { numerator, denominator })
        } else {
            Err(Error::Locked)
        }
    }

    /// What a drive's counts decide before any geometry: its ratio and the
    /// two pairs it meshes as. A drive whose meshes cancel is refused before
    /// either pair is asked about, and the first mesh before the second.
    pub fn meshes(self) -> (r: Result<(Ratio, [Pair; 2]), Error>)
        requires
            products_fit(self.0),
        ensures
            r == spec_meshes(self.0),
    {
        let ratio = match self.ratio() {
            Ok(r) => r,
            Err(e) => return Err(e),
        };
        let first = match self.pair(0) {
            Ok(p) => p,
            Err(e) => return Err(e),
        };
        let second = match self.pair(1) {
            Ok(p) => p,
            Err(e) => return Err(e),
        };
        Ok((ratio, [first, second]))
    }
}

/// **Which member is the ring is not an input.** Whichever way round a pair's
/// two counts are written, the same count is the ring: swapping them swaps the
/// indices and nothing else, and a pair of equal counts is refused either way.
pub proof fn ring_is_the_larger_count(z: [u32; 4], mesh: int)
    requires
        0 <= mesh < 2,
    ensures
        ({
            let swapped = if mesh == 0 {
                [z[1], z[0], z[2], z[3]]
            } else {
                [z[0], z[1], z[3], z[2]]
            };
            match (spec_pair(z, mesh), spec_pair(swapped, mesh)) {
                (Ok(p), Ok(q)) => z[p.ring as int] == swapped[q.ring as int] && z[p.pinion as int]
                    == swapped[q.pinion as int] && z[p.ring as int] > z[p.pinion as int]
                    && p.ring == q.pinion && p.pinion == q.ring,
                (Err(e), Err(f)) => e == f && e == Error::Coaxial(mesh as usize),
                _ => false,
            }
        }),
{
}

/// The drive a designer asks for by one count `n`: a ring of `n + 1` on the
/// ground, `n` and `n − 1` on the wobble body, and `n` on the output, so that
/// each mesh is a one-tooth difference.
pub fn hula_teeth(n: u32) -> (r: Teeth)
    requires
        1 <= n < u32::MAX,
    ensures
        r.0[0] == n + 1,
        r.0[1] == n,
        r.0[2] == n - 1,
        r.0[3] == n,
{
    Teeth([n + 1, n, n - 1, n])
}

/// The teeth of the shaper that cuts a ring of `ring` teeth: the one asked
/// for where one was, and otherwise the stocked shaper where it fits, giving
/// way to five teeth under the ring where it does not — never fewer than four.
pub open spec fn spec_cutter_teeth(asked: Option<u32>, stocked: u32, ring: u32) -> u32 {
    match asked {
        Some(a) => a,
        None => {
            let under = if ring >= 5 {
                (ring - 5) as u32
            } else {
                0u32
            };
            let fitted = if stocked <= under {
                stocked
            } else {
                under
            };
            if fitted >= 4 {
                fitted
            } else {
                4u32
            }
        },
    }
}

pub fn cutter_teeth(asked: Option<u32>, stocked: u32, ring: u32) -> (r: u32)
    ensures
        r == spec_cutter_teeth(asked, stocked, ring),
{
    match asked {
        Some(a) => a,
        None => {
            let under = ring.saturating_sub(5);
            let fitted = if stocked <= under {
                stocked
            } else {
                under
            };
            if fitted >= 4 {
                fitted
            } else {
                4
            }
        },
    }
}

/// The larger count of a mesh's two members: the ring's.
pub open spec fn ring_count(z: [u32; 4], mesh: int) -> u32 {
    if z[mesh * 2] >= z[mesh * 2 + 1] {
        z[mesh * 2]
    } else {
        z[mesh * 2 + 1]
    }
}

/// The shaper of each mesh, sized against that mesh's ring.
pub fn cutters(teeth: Teeth, asked: Option<u32>, stocked: [u32; 2]) -> (r: [u32; 2])
    ensures
        r[0] == spec_cutter_teeth(asked, stocked[0], ring_count(teeth.0, 0)),
        r[1] == spec_cutter_teeth(asked, stocked[1], ring_count(teeth.0, 1)),
{
    let z = teeth.0;
    let ring0 = if z[0] >= z[1] {
        z[0]
    } else {
        z[1]
    };
    let ring1 = if z[2] >= z[3] {
        z[2]
    } else {
        z[3]
    };
    [cutter_teeth(asked, stocked[0], ring0), cutter_teeth(asked, stocked[1], ring1)]
}

/// **One tooth of difference on each mesh reduces by exactly `n²`**: the drive
/// [`hula_teeth`] builds is never locked, its denominator is 1, and its ring
/// in each mesh is the member with the extra tooth.
pub proof fn one_tooth_difference_reduces_by_n_squared(n: u32)
    requires
        1 <= n < u32::MAX,
        n * n <= i64::MAX,
    ensures
        ({
            let z = [(n + 1) as u32, n, (n - 1) as u32, n];
            &&& spec_ratio(z) == Ok::<Ratio, Error>(Ratio { numerator: (n * n) as i64, denominator: 1 })
            &&& spec_pair(z, 0) == Ok::<Pair, Error>(Pair { ring: 0, pinion: 1 })
            &&& spec_pair(z, 1) == Ok::<Pair, Error>(Pair { ring: 3, pinion: 2 })
        }),
{
    let z = [(n + 1) as u32, n, (n - 1) as u32, n];
    assert(z[1] * z[3] - z[0] * z[2] == 1) by (nonlinear_arith)
        requires
            z[0] == n + 1,
            z[1] == n,
            z[2] == n - 1,
            z[3] == n,
    ;
}

/// **Each shaper is sized against its own mesh's ring**: the count a mesh's
/// shaper is sized against is the larger of that mesh's two counts, whichever
/// of them holds it, and where the mesh is a pair it is its ring's count.
pub proof fn each_shaper_fits_its_own_ring(z: [u32; 4], mesh: int)
    requires
        0 <= mesh < 2,
    ensures
        ring_count(z, mesh) >= z[mesh * 2],
        ring_count(z, mesh) >= z[mesh * 2 + 1],
        ring_count(z, mesh) == z[mesh * 2] || ring_count(z, mesh) == z[mesh * 2 + 1],
        spec_pair(z, mesh) matches Ok(p) ==> ring_count(z, mesh) == z[p.ring as int],
{
}

/// **A shaper fits inside the ring it cuts, and is the largest that does**:
/// a shaper asked for is the one used; otherwise the shaper is never fewer
/// than four teeth; above four it is at most the stocked one and at least five
/// teeth under the ring; and it reaches whichever of the two is the tighter.
pub proof fn the_shaper_is_the_largest_that_fits(asked: Option<u32>, stocked: u32, ring: u32)
    ensures
        asked matches Some(a) ==> spec_cutter_teeth(asked, stocked, ring) == a,
        asked is None ==> {
            let c = spec_cutter_teeth(asked, stocked, ring);
            &&& c >= 4
            &&& c > 4 ==> c <= stocked && c + 5 <= ring
            &&& 4 <= stocked && stocked + 5 <= ring ==> c >= stocked
            &&& 9 <= ring && ring <= stocked + 5 ==> c + 5 >= ring
        },
{
}

/// **A drive whose meshes cancel is refused, whichever mesh is written
/// first.** Exchanging the two meshes — the grounded gear with the output and
/// the two wobble-body gears with each other — leaves `z₁z₃` and `z₂z₄` where
/// they were, so it locks exactly when the drive as first written does.
pub proof fn locking_does_not_depend_on_mesh_order(z: [u32; 4])
    ensures
        (spec_ratio(z) is Err) == (spec_ratio([z[3], z[2], z[1], z[0]]) is Err),
        spec_ratio(z) is Err ==> spec_ratio(z) == Err::<Ratio, Error>(Error::Locked),
{
    assert(z[1] * z[3] == z[2] * z[0] <==> z[3] * z[1] == z[0] * z[2]) by (nonlinear_arith);
}

} // verus!
