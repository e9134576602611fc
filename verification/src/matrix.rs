//! The bending-model matrix: which models are compared, on which members, and
//! over which population of designs.
//!
//! For a comparative design tool, absolute accuracy matters less than whether
//! the model ranks designs correctly and responds correctly to a change, so the
//! study runs every cell of the matrix over a population spanning the space the
//! tool is meant to cover. This module holds the parts of the study that are
//! counting rather than measuring: the cells, their names, and the population.

use vstd::prelude::*;
use crate::text::{decimal, push_decimal};

verus! {

/// A member the study can be run on, external or internal.
#[derive(Clone, Copy, Debug, PartialEq, Eq)]
pub enum Member {
    /// Cut by a rack.
    External,
    /// Cut by a shaper.
    Internal,
}

/// Where the critical root section is taken.
#[derive(Clone, Copy, Debug, PartialEq, Eq)]
pub enum CriticalSection {
    /// Tangent to the fillet at a fixed angle to the tooth centreline.
    TangentAngle,
    /// Lewis's inscribed parabola.
    LewisParabola,
}

/// How the stress concentration at the root is accounted for.
#[derive(Clone, Copy, Debug, PartialEq, Eq)]
pub enum RootStressModel {
    /// The form factor alone.
    FormFactorOnly,
    /// ISO 6336's `Y_S`, fitted to the tangent section.
    Iso6336,
    /// Dolan and Broghamer's `K_f`, which Savage's parabola construction
    /// carries.
    DolanBroghamer,
}

impl Member {
    pub open spec fn spec_name(self) -> Seq<char> {
        match self {
            Member::External => "external"@,
            Member::Internal => "ring"@,
        }
    }

    pub fn name(self) -> (r: &'static str)
        ensures
            r@ == self.spec_name(),
    {
        match self {
            Member::External => "external",
            Member::Internal => "ring",
        }
    }

    /// The tangent angle this member's construction uses, whole degrees: 30°
    /// for an external tooth, 60° for a ring's.
    pub open spec fn spec_tangent_angle_degrees(self) -> u32 {
        match self {
            Member::External => 30,
            Member::Internal => 60,
        }
    }

    /// The tangent angle this member's construction uses, whole degrees.
    pub fn tangent_angle_degrees(self) -> (r: u32)
        ensures
            r == self.spec_tangent_angle_degrees(),
    {
        match self {
            Member::External => 30,
            Member::Internal => 60,
        }
    }
}

/// One cell of the matrix.
#[derive(Clone, Copy, Debug, PartialEq, Eq)]
pub struct Model {
    pub section: CriticalSection,
    pub concentration: RootStressModel,
}

impl Model {
    /// The section part of a model's name: the tangent construction by the
    /// angle it takes on this member, the parabola by its name.
    pub open spec fn spec_section_name(self, on: Member) -> Seq<char> {
        match self.section {
            CriticalSection::TangentAngle => decimal(on.spec_tangent_angle_degrees() as nat)
                + "°"@,
            CriticalSection::LewisParabola => "parabola"@,
        }
    }

    pub open spec fn spec_concentration_name(self) -> Seq<char> {
        match self.concentration {
            RootStressModel::FormFactorOnly => "Y_F only"@,
            RootStressModel::Iso6336 => "Y_F·Y_S"@,
            RootStressModel::DolanBroghamer => "Y_F·K_f"@,
        }
    }

    pub open spec fn spec_name(self, on: Member) -> Seq<char> {
        self.spec_section_name(on) + " · "@ + self.spec_concentration_name()
    }

    /// The model's name. The tangent construction is named by the angle it
    /// actually takes, which differs by member — 30° external, 60° internal —
    /// so the caller says which population it is describing.
    pub fn name(self, on: Member) -> (r: String)
        ensures
            r@ == self.spec_name(on),
    {
        let mut s = String::new();
        match self.section {
            CriticalSection::TangentAngle => {
                push_decimal(&mut s, on.tangent_angle_degrees() as u64);
                s.append("°");
            },
            CriticalSection::LewisParabola => s.append("parabola"),
        }
        s.append(" · ");
        match self.concentration {
            RootStressModel::FormFactorOnly => s.append("Y_F only"),
            RootStressModel::Iso6336 => s.append("Y_F·Y_S"),
            RootStressModel::DolanBroghamer => s.append("Y_F·K_f"),
        }
        assert(s@ =~= self.spec_name(on));
        s
    }
}

/// The models compared. Two of them are coherent sets rather than free
/// combinations — the tangent section with ISO's `Y_S`, the parabola with
/// Dolan and Broghamer's `K_f` — and the bare form factors are the controls.
pub open spec fn spec_matrix() -> Seq<Model> {
    seq![
        Model { section: CriticalSection::TangentAngle, concentration: RootStressModel::FormFactorOnly },
        Model { section: CriticalSection::TangentAngle, concentration: RootStressModel::Iso6336 },
        Model { section: CriticalSection::LewisParabola, concentration: RootStressModel::FormFactorOnly },
        Model { section: CriticalSection::LewisParabola, concentration: RootStressModel::DolanBroghamer },
    ]
}

/// The four cells of the matrix, in the order they are reported.
pub fn matrix() -> (r: [Model; 4])
    ensures
        r@ == spec_matrix(),
{
    let r = [
        Model { section: CriticalSection::TangentAngle, concentration: RootStressModel::FormFactorOnly },
        Model { section: CriticalSection::TangentAngle, concentration: RootStressModel::Iso6336 },
        Model { section: CriticalSection::LewisParabola, concentration: RootStressModel::FormFactorOnly },
        Model { section: CriticalSection::LewisParabola, concentration: RootStressModel::DolanBroghamer },
    ];
    assert(r@ =~= spec_matrix());
    r
}

/// One design of a study's population, in the exact units its grid is laid
/// out in.
#[derive(Clone, Copy, Debug, PartialEq, Eq)]
pub struct Design {
    pub teeth: u32,
    /// Profile shift, tenths of a module.
    pub shift_tenths: i32,
    /// The rack's root radius, hundredths of a module; `None` leaves the
    /// member's default.
    pub root_radius_hundredths: Option<u32>,
    /// Pressure angle, tenths of a degree.
    pub pressure_angle_tenths: u32,
}

pub open spec fn external_tooth_counts() -> Seq<u32> {
    seq![9u32, 11, 13, 15, 17, 20, 24, 30, 40, 55, 75, 100, 140]
}

pub open spec fn external_root_radii() -> Seq<u32> {
    seq![10u32, 25, 38]
}

pub open spec fn external_pressure_angles() -> Seq<u32> {
    seq![145u32, 200, 250]
}

pub open spec fn internal_tooth_counts() -> Seq<u32> {
    seq![40u32, 48, 60, 72, 90, 120, 160, 220]
}

pub open spec fn internal_pressure_angles() -> Seq<u32> {
    seq![200u32, 250]
}

/// The external population: thirteen tooth counts, shifts from −0.4 to +0.8 in
/// tenths, three root radii and three pressure angles, in that nesting.
pub open spec fn spec_population() -> Seq<Design> {
    Seq::new(
        13 * 13 * 3 * 3,
        |n: int|
            Design {
                teeth: external_tooth_counts()[n / 117],
                shift_tenths: ((n / 9) % 13 - 4) as i32,
                root_radius_hundredths: Some(external_root_radii()[(n / 3) % 3]),
                pressure_angle_tenths: external_pressure_angles()[n % 3],
            },
    )
}

/// A ring's population: it starts where a shaper can cut one at all, runs
/// shifts from −0.4 to +0.5, and carries no 14.5° arm because the default
/// cutter's tip will not reach at that angle.
pub open spec fn spec_internal_population() -> Seq<Design> {
    Seq::new(
        8 * 10 * 2,
        |n: int|
            Design {
                teeth: internal_tooth_counts()[n / 20],
                shift_tenths: ((n / 2) % 10 - 4) as i32,
                root_radius_hundredths: None,
                pressure_angle_tenths: internal_pressure_angles()[n % 2],
            },
    )
}

pub open spec fn spec_population_for(member: Member) -> Seq<Design> {
    match member {
        Member::External => spec_population(),
        Member::Internal => spec_internal_population(),
    }
}

proof fn lemma_external_index(t: int, x: int, r: int, p: int)
    requires
        0 <= t < 13,
        0 <= x < 13,
        0 <= r < 3,
        0 <= p < 3,
    ensures
        ({
            let n = ((t * 13 + x) * 3 + r) * 3 + p;
            &&& n / 117 == t
            &&& (n / 9) % 13 == x
            &&& (n / 3) % 3 == r
            &&& n % 3 == p
            &&& 0 <= n < 1521
        }),
{
    let n = ((t * 13 + x) * 3 + r) * 3 + p;
    assert(n == t * 117 + x * 9 + r * 3 + p) by (nonlinear_arith)
        requires
            n == ((t * 13 + x) * 3 + r) * 3 + p,
    ;
    assert(n / 117 == t) by (nonlinear_arith)
        requires
            n == t * 117 + x * 9 + r * 3 + p,
            0 <= x < 13,
            0 <= r < 3,
            0 <= p < 3,
    ;
    assert(n / 9 == t * 13 + x) by (nonlinear_arith)
        requires
            n == t * 117 + x * 9 + r * 3 + p,
            0 <= r < 3,
            0 <= p < 3,
    ;
    assert((t * 13 + x) % 13 == x) by (nonlinear_arith)
        requires
            0 <= x < 13,
            0 <= t,
    ;
    assert(n / 3 == (t * 13 + x) * 3 + r) by (nonlinear_arith)
        requires
            n == t * 117 + x * 9 + r * 3 + p,
            0 <= p < 3,
    ;
    assert(((t * 13 + x) * 3 + r) % 3 == r) by (nonlinear_arith)
        requires
            0 <= r < 3,
            0 <= t,
            0 <= x,
    ;
    assert(n % 3 == p) by (nonlinear_arith)
        requires
            n == ((t * 13 + x) * 3 + r) * 3 + p,
            0 <= p < 3,
            0 <= t,
            0 <= x,
            0 <= r,
    ;
    assert(0 <= n < 1521) by (nonlinear_arith)
        requires
            n == t * 117 + x * 9 + r * 3 + p,
            0 <= t < 13,
            0 <= x < 13,
            0 <= r < 3,
            0 <= p < 3,
    ;
}

proof fn lemma_internal_index(t: int, x: int, p: int)
    requires
        0 <= t < 8,
        0 <= x < 10,
        0 <= p < 2,
    ensures
        ({
            let n = (t * 10 + x) * 2 + p;
            &&& n / 20 == t
            &&& (n / 2) % 10 == x
            &&& n % 2 == p
            &&& 0 <= n < 160
        }),
{
    let n = (t * 10 + x) * 2 + p;
    assert(n == t * 20 + x * 2 + p) by (nonlinear_arith)
        requires
            n == (t * 10 + x) * 2 + p,
    ;
    assert(n / 20 == t) by (nonlinear_arith)
        requires
            n == t * 20 + x * 2 + p,
            0 <= x < 10,
            0 <= p < 2,
    ;
    assert(n / 2 == t * 10 + x) by (nonlinear_arith)
        requires
            n == t * 20 + x * 2 + p,
            0 <= p < 2,
    ;
    assert((t * 10 + x) % 10 == x) by (nonlinear_arith)
        requires
            0 <= x < 10,
            0 <= t,
    ;
    assert(n % 2 == p) by (nonlinear_arith)
        requires
            n == (t * 10 + x) * 2 + p,
            0 <= p < 2,
            0 <= t,
            0 <= x,
    ;
    assert(0 <= n < 160) by (nonlinear_arith)
        requires
            n == t * 20 + x * 2 + p,
            0 <= t < 8,
            0 <= x < 10,
            0 <= p < 2,
    ;
}

/// A population of designs spanning the space the tool is meant to cover.
pub fn population_for(member: Member) -> (r: Vec<Design>)
    ensures
        r@ == spec_population_for(member),
{
    match member {
        Member::External => population(),
        Member::Internal => {
            let teeth: [u32; 8] = [40, 48, 60, 72, 90, 120, 160, 220];
            let angles: [u32; 2] = [200, 250];
            assert(teeth@ =~= internal_tooth_counts());
            assert(angles@ =~= internal_pressure_angles());
            let mut v: Vec<Design> = Vec::new();
            let mut t: usize = 0;
            while t < 8
                invariant
                    t <= 8,
                    teeth@ == internal_tooth_counts(),
                    angles@ == internal_pressure_angles(),
                    v@ =~= spec_internal_population().take(t * 20),
                decreases 8 - t,
            {
                let mut x: usize = 0;
                while x < 10
                    invariant
                        t < 8,
                        x <= 10,
                        teeth@ == internal_tooth_counts(),
                        angles@ == internal_pressure_angles(),
                        v@ =~= spec_internal_population().take(t * 20 + x * 2),
                    decreases 10 - x,
                {
                    let mut p: usize = 0;
                    while p < 2
                        invariant
                            t < 8,
                            x < 10,
                            p <= 2,
                            teeth@ == internal_tooth_counts(),
                            angles@ == internal_pressure_angles(),
                            v@ =~= spec_internal_population().take(t * 20 + x * 2 + p),
                        decreases 2 - p,
                    {
                        proof {
                            lemma_internal_index(t as int, x as int, p as int);
                        }
                        let d = Design {
                            teeth: teeth[t],
                            shift_tenths: x as i32 - 4,
                            root_radius_hundredths: None,
                            pressure_angle_tenths: angles[p],
                        };
                        assert(d == spec_internal_population()[(t * 20 + x * 2 + p) as int]);
                        v.push(d);
                        p = p + 1;
                    }
                    x = x + 1;
                }
                t = t + 1;
            }
            v
        },
    }
}

/// The external population.
pub fn population() -> (r: Vec<Design>)
    ensures
        r@ == spec_population(),
{
    let teeth: [u32; 13] = [9, 11, 13, 15, 17, 20, 24, 30, 40, 55, 75, 100, 140];
    let radii: [u32; 3] = [10, 25, 38];
    let angles: [u32; 3] = [145, 200, 250];
    assert(teeth@ =~= external_tooth_counts());
    assert(radii@ =~= external_root_radii());
    assert(angles@ =~= external_pressure_angles());
    let mut v: Vec<Design> = Vec::new();
    let mut t: usize = 0;
    while t < 13
        invariant
            t <= 13,
            teeth@ == external_tooth_counts(),
            radii@ == external_root_radii(),
            angles@ == external_pressure_angles(),
            v@ =~= spec_population().take(t * 117),
        decreases 13 - t,
    {
        let mut x: usize = 0;
        while x < 13
            invariant
                t < 13,
                x <= 13,
                teeth@ == external_tooth_counts(),
                radii@ == external_root_radii(),
                angles@ == external_pressure_angles(),
                v@ =~= spec_population().take(t * 117 + x * 9),
            decreases 13 - x,
        {
            let mut r: usize = 0;
            while r < 3
                invariant
                    t < 13,
                    x < 13,
                    r <= 3,
                    teeth@ == external_tooth_counts(),
                    radii@ == external_root_radii(),
                    angles@ == external_pressure_angles(),
                    v@ =~= spec_population().take(t * 117 + x * 9 + r * 3),
                decreases 3 - r,
            {
                let mut p: usize = 0;
                while p < 3
                    invariant
                        t < 13,
                        x < 13,
                        r < 3,
                        p <= 3,
                        teeth@ == external_tooth_counts(),
                        radii@ == external_root_radii(),
                        angles@ == external_pressure_angles(),
                        v@ =~= spec_population().take(t * 117 + x * 9 + r * 3 + p),
                    decreases 3 - p,
                {
                    proof {
                        lemma_external_index(t as int, x as int, r as int, p as int);
                    }
                    let d = Design {
                        teeth: teeth[t],
                        shift_tenths: x as i32 - 4,
                        root_radius_hundredths: Some(radii[r]),
                        pressure_angle_tenths: angles[p],
                    };
                    assert(d == spec_population()[(t * 117 + x * 9 + r * 3 + p) as int]);
                    v.push(d);
                    p = p + 1;
                }
                r = r + 1;
            }
            x = x + 1;
        }
        t = t + 1;
    }
    v
}

} // verus!
