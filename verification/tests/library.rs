use gear_core::auto::{ring_is_cut_as_asked, Freedoms, Pinned, Ring};
use gear_core::contact::{Directional, Drive, LoadSharing};
use gear_core::gear::{per_tooth_clamps, ToothCut};
use gear_core::jgma::{Class, Scale};
use gear_core::kinematics::{
    arranged, labelled, member, member_role, named, port, Arrangement, BodyLabel, MemberName,
    MemberRole, StageEnd, GROUND,
};
use gear_core::matrix::{matrix, population, population_for, CriticalSection, Design, Member, Model, RootStressModel};
use gear_core::note::{Note, CLAMP_TOOTH_SEVERED, CLAMP_TOOTH_UNDERCUT};
use gear_core::text::{decimal_text, parse_u32_text, same_text};

#[test]
fn decimal_text_is_what_display_prints() {
    for n in [0u64, 7, 10, 99, 100, 4096, 1234567890, u64::MAX] {
        assert_eq!(decimal_text(n), n.to_string());
    }
}

#[test]
fn parsing_agrees_with_the_standard_library() {
    for s in ["0", "+0", "42", "+42", "-1", "", "+", "4294967295", "4294967296", "99999999999", "1_0", "٣"] {
        assert_eq!(parse_u32_text(s), s.parse::<u32>().ok(), "{s:?}");
    }
}

#[test]
fn same_text_compares_characters() {
    assert!(same_text("ring", "ring"));
    assert!(!same_text("ring", "rings"));
    assert!(!same_text("sun", "Sun"));
    assert!(same_text("", ""));
    assert!(same_text("Y_F·K_f", "Y_F·K_f"));
}

#[test]
fn scales_and_classes_are_named() {
    assert_eq!(Scale::Fine.as_str(), "fine");
    assert_eq!(Scale::Standard.as_str(), "standard");
    assert_eq!(Class { scale: Scale::Fine, grade: 3 }.label(), "Fine 3");
    assert_eq!(Class { scale: Scale::Standard, grade: 12 }.label(), "Standard 12");
    // fine scale first, then lowest grade
    assert!(Class { scale: Scale::Fine, grade: 6 } < Class { scale: Scale::Standard, grade: 4 });
    assert!(Class { scale: Scale::Standard, grade: 4 } < Class { scale: Scale::Standard, grade: 5 });
}

#[test]
fn both_directions_are_asked_and_read_back() {
    let mut asked = Vec::new();
    let d = Directional::of(|drive| {
        asked.push(drive);
        match drive {
            Drive::Forward => 0.97,
            Drive::Backward => 0.41,
        }
    });
    assert_eq!(asked, vec![Drive::Forward, Drive::Backward]);
    assert_eq!(*d.get(Drive::Forward), 0.97);
    assert_eq!(*d.get(Drive::Backward), 0.41);
    assert_eq!(Drive::BOTH, [Drive::Forward, Drive::Backward]);
    assert_eq!(LoadSharing::default(), LoadSharing::Unshared);
}

#[test]
fn models_are_named_by_the_angle_they_take() {
    let m = matrix();
    assert_eq!(m[0].name(Member::External), "30° · Y_F only");
    assert_eq!(m[1].name(Member::External), "30° · Y_F·Y_S");
    assert_eq!(m[1].name(Member::Internal), "60° · Y_F·Y_S");
    assert_eq!(m[2].name(Member::Internal), "parabola · Y_F only");
    assert_eq!(m[3].name(Member::External), "parabola · Y_F·K_f");
    assert_eq!(
        m[3],
        Model { section: CriticalSection::LewisParabola, concentration: RootStressModel::DolanBroghamer }
    );
    assert_eq!(Member::External.name(), "external");
    assert_eq!(Member::Internal.name(), "ring");
    assert_eq!(Member::Internal.tangent_angle_degrees(), 60);
}

#[test]
fn the_populations_span_their_grids() {
    let p = population();
    assert_eq!(p.len(), 13 * 13 * 3 * 3);
    assert_eq!(
        p[0],
        Design { teeth: 9, shift_tenths: -4, root_radius_hundredths: Some(10), pressure_angle_tenths: 145 }
    );
    assert_eq!(
        p[p.len() - 1],
        Design { teeth: 140, shift_tenths: 8, root_radius_hundredths: Some(38), pressure_angle_tenths: 250 }
    );
    assert_eq!(
        p[117 + 9 + 3 + 1],
        Design { teeth: 11, shift_tenths: -3, root_radius_hundredths: Some(25), pressure_angle_tenths: 200 }
    );
    assert_eq!(population_for(Member::External), p);
    let r = population_for(Member::Internal);
    assert_eq!(r.len(), 160);
    assert_eq!(
        r[0],
        Design { teeth: 40, shift_tenths: -4, root_radius_hundredths: None, pressure_angle_tenths: 200 }
    );
    assert_eq!(
        r[159],
        Design { teeth: 220, shift_tenths: 5, root_radius_hundredths: None, pressure_angle_tenths: 250 }
    );
    assert!(r.iter().all(|d| d.pressure_angle_tenths != 145));
}

#[test]
fn bodies_are_named_as_the_record_prints_them() {
    assert_eq!(port(GROUND), "ground");
    assert_eq!(port(7), "b7");
    assert_eq!(port(12), "b12");
    assert_eq!(member("sun"), 1);
    assert_eq!(member("carrier"), 2);
    assert_eq!(member("ring"), 3);
    assert_eq!(member("planet"), 3);
    assert_eq!(arranged("sun", "ring"), Arrangement { input: 1, output: 2, held: 3 });
    assert_eq!(arranged("carrier", "sun"), Arrangement { input: 2, output: 3, held: 1 });
    assert_eq!(arranged("ring", "carrier"), Arrangement { input: 3, output: 1, held: 2 });
    for input in ["sun", "carrier", "ring"] {
        for fixed in ["sun", "carrier", "ring"] {
            if input != fixed {
                let a = arranged(input, fixed);
                let mut slots = [a.input, a.output, a.held];
                slots.sort_unstable();
                assert_eq!(slots, [1, 2, 3], "{input} in, {fixed} held");
            }
        }
    }
}

#[test]
fn members_are_named_by_their_roles() {
    let gear = MemberName { role: MemberRole::Gear, ordinal: None };
    let pair = vec![gear, MemberName { role: MemberRole::Wheel, ordinal: None }];
    assert_eq!(member_role(&pair, 0), "first");
    assert_eq!(member_role(&pair, 1), "second");
    let layshaft = vec![gear, gear, gear, gear];
    assert_eq!(member_role(&layshaft, 2), "member 3");
    let set = vec![
        MemberName { role: MemberRole::Sun, ordinal: None },
        MemberName { role: MemberRole::Planet, ordinal: None },
        MemberName { role: MemberRole::Ring, ordinal: Some(2) },
    ];
    assert_eq!(member_role(&set, 0), "sun");
    assert_eq!(member_role(&set, 2), "ring 2");
    assert_eq!(labelled(&set, BodyLabel::Ground), "ground");
    assert_eq!(labelled(&set, BodyLabel::Carrier), "carrier");
    assert_eq!(labelled(&set, BodyLabel::Member { member: 1 }), "planet");
    assert_eq!(named(GROUND, &None), "ground");
    assert_eq!(named(4, &None), "body 4");
    let end = StageEnd { names: set, label: BodyLabel::Member { member: 0 } };
    assert_eq!(named(4, &Some(end)), "sun");
}

#[test]
fn altered_teeth_are_listed_with_each_reason_once() {
    let space = Note::new("clamp.space_capped");
    let tip = Note::new("clamp.tip_lifted");
    let teeth = vec![
        ToothCut { clamps: vec![], severed: false, undercut: false },
        ToothCut { clamps: vec![space], severed: false, undercut: true },
        ToothCut { clamps: vec![], severed: true, undercut: true },
        ToothCut { clamps: vec![tip, space], severed: false, undercut: false },
        ToothCut { clamps: vec![], severed: false, undercut: true },
    ];
    let c = per_tooth_clamps(&teeth);
    assert_eq!(c.teeth, vec![1, 2, 3, 4]);
    assert_eq!(
        c.notes,
        vec![space, Note::new(CLAMP_TOOTH_UNDERCUT), Note::new(CLAMP_TOOTH_SEVERED), tip]
    );
    let none = per_tooth_clamps(&vec![ToothCut { clamps: vec![], severed: false, undercut: false }]);
    assert!(none.teeth.is_empty() && none.notes.is_empty());
}

#[test]
fn a_ring_with_any_clamp_is_not_as_asked() {
    assert!(ring_is_cut_as_asked(&Ring { clamps: vec![] }));
    assert!(!ring_is_cut_as_asked(&Ring { clamps: vec![Note::new("clamp.tip_lifted")] }));
}

#[test]
fn a_search_fills_only_the_free_numbers() {
    let f = Freedoms::new(vec![Some(0.5), None, Some(-0.25), None]);
    assert_eq!(f.count(), 2);
    assert_eq!(f.boxes(vec![(0.0, 1.0), (-1.0, 1.0), (2.0, 3.0), (-2.0, 0.0)]), vec![(-1.0, 1.0), (-2.0, 0.0)]);
    assert_eq!(f.place(&vec![0.1, 0.2, 9.0]), vec![0.5, 0.1, -0.25, 0.2]);
    let fixed = Freedoms::new(vec![Some(1.0), Some(2.0)]);
    assert_eq!(fixed.count(), 0);
    assert_eq!(fixed.place(&vec![]), vec![1.0, 2.0]);
    assert!(fixed.boxes(vec![(0.0, 1.0), (0.0, 1.0)]).is_empty());
}

#[test]
fn pinning_a_number_spends_a_freedom() {
    assert_eq!(Pinned::<f64> { shift: [None, None], sum: None }.freedoms(), 2);
    assert_eq!(Pinned { shift: [Some(0.1), None], sum: None }.freedoms(), 1);
    assert_eq!(Pinned { shift: [None, Some(0.1)], sum: Some(0.3) }.freedoms(), 0);
}

#[test]
fn a_mesh_that_refuses_a_direction_says_so() {
    let said = |forward, backward| Directional { forward, backward }.refusal();
    assert_eq!(said(true, true), "  (turns neither way)");
    assert_eq!(said(true, false), "  (cannot be driven forward)");
    assert_eq!(said(false, true), "  (cannot be back-driven)");
    assert_eq!(said(false, false), "");
}
