use gear_core::hula::{cutter_teeth, cutters, hula_teeth, Error, Pair, Ratio, Teeth};

/// Input revolutions per output revolution, as a float.
fn value(r: Ratio) -> f64 {
    r.numerator as f64 / r.denominator as f64
}

/// **The ratio, against the closed forms rather than against itself.**
#[test]
fn the_ratio_is_the_two_products() {
    #[allow(clippy::type_complexity)]
    let cases: [([i32; 4], Option<fn(f64) -> f64>); 16] = [
        ([1, 0, -1, 0], Some(|n| n * n)),
        ([-1, 0, 1, 0], Some(|n| n * n)),
        ([0, -1, 0, 1], Some(|n| -(n * n - 1.0))),
        ([0, 1, 0, -1], Some(|n| -(n * n - 1.0))),
        ([0, 1, 0, 1], Some(|n| (n + 1.0) * (n + 1.0) / (2.0 * n + 1.0))),
        ([-1, 0, 0, 1], Some(|n| (n + 1.0) / 2.0)),
        ([0, 1, -1, 0], Some(|n| (n + 1.0) / 2.0)),
        ([-1, 0, -1, 0], Some(|n| n * n / (2.0 * n - 1.0))),
        ([1, 0, 1, 0], Some(|n| -n * n / (2.0 * n + 1.0))),
        ([0, -1, 1, 0], Some(|n| -(n - 1.0) / 2.0)),
        ([1, 0, 0, -1], Some(|n| -(n - 1.0) / 2.0)),
        ([0, -1, 0, -1], Some(|n| -(n - 1.0) * (n - 1.0) / (2.0 * n - 1.0))),
        ([-1, 0, 0, -1], None),
        ([0, -1, -1, 0], None),
        ([0, 1, 1, 0], None),
        ([1, 0, 0, 1], None),
    ];

    for n in [6_u32, 12, 18, 30] {
        for (offsets, expected) in cases {
            let z = offsets.map(|o| u32::try_from(i64::from(n) + i64::from(o)).unwrap());
            let got = Teeth(z).ratio();
            match expected {
                None => assert_eq!(got, Err(Error::Locked), "{z:?} should cancel"),
                Some(f) => {
                    let want = f(f64::from(n));
                    let have = value(got.unwrap());
                    assert!(
                        (have - want).abs() < 1e-9 * want.abs().max(1.0),
                        "{z:?}: ratio {have} but the closed form says {want}"
                    );
                }
            }
        }
    }
}

/// A denominator of zero is a drive whose meshes step by the same amount and
/// cancel: a refusal, not a large number.
#[test]
fn a_drive_whose_meshes_cancel_is_refused() {
    assert_eq!(Teeth([17, 18, 18, 17]).ratio(), Err(Error::Locked));
    assert_eq!(Teeth([17, 18, 18, 17]).meshes().unwrap_err(), Error::Locked);
}

#[test]
fn a_pair_of_equal_counts_is_not_a_mesh() {
    assert_eq!(Teeth([18, 18, 17, 18]).pair(0), Err(Error::Coaxial(0)));
    assert_eq!(Teeth([18, 18, 17, 18]).meshes().unwrap_err(), Error::Coaxial(0));
}

/// Which member is the ring is read off the counts, in either order.
#[test]
fn the_larger_member_of_a_pair_is_its_ring() {
    assert_eq!(
        Teeth([19, 18, 17, 18]).pair(0).unwrap(),
        Pair { ring: 0, pinion: 1 }
    );
    assert_eq!(
        Teeth([19, 18, 17, 18]).pair(1).unwrap(),
        Pair { ring: 3, pinion: 2 }
    );
}

/// **A two-tooth difference needs no new code**: it reduces by `z²/4`.
#[test]
fn a_two_tooth_difference_needs_no_new_code() {
    let teeth = [20_u32, 18, 16, 18];
    let r = Teeth(teeth).ratio().unwrap();
    assert_eq!((r.numerator, r.denominator), (324, 4));
    assert!((value(r) - 81.0).abs() < 1e-12);
    let (ratio, pairs) = Teeth(teeth).meshes().unwrap();
    assert_eq!(ratio, r);
    assert_eq!(pairs, [Pair { ring: 0, pinion: 1 }, Pair { ring: 3, pinion: 2 }]);
}

#[test]
fn the_second_mesh_is_asked_after_the_first() {
    assert_eq!(Teeth([18, 18, 17, 17]).meshes().unwrap_err(), Error::Locked);
    assert_eq!(Teeth([19, 18, 17, 17]).meshes().unwrap_err(), Error::Coaxial(1));
    assert_eq!(Teeth([18, 18, 17, 16]).meshes().unwrap_err(), Error::Coaxial(0));
    assert_eq!(Teeth([18, 19, 17, 16]).pair(0), Ok(Pair { ring: 1, pinion: 0 }));
}

#[test]
fn a_one_tooth_drive_reduces_by_the_square() {
    let r = Teeth([19, 18, 17, 18]).ratio().unwrap();
    assert_eq!(r, Ratio { numerator: 324, denominator: 1 });
    let r = Teeth([18, 19, 18, 17]).ratio().unwrap();
    assert_eq!(r, Ratio { numerator: 323, denominator: -1 });
}

#[test]
fn one_count_asks_for_a_one_tooth_difference_on_each_mesh() {
    let t = hula_teeth(18);
    assert_eq!(t, Teeth([19, 18, 17, 18]));
    let (ratio, pairs) = t.meshes().unwrap();
    assert_eq!(ratio, Ratio { numerator: 324, denominator: 1 });
    assert_eq!(pairs[0], Pair { ring: 0, pinion: 1 });
    assert_eq!(pairs[1], Pair { ring: 3, pinion: 2 });
    assert_eq!(hula_teeth(1), Teeth([2, 1, 0, 1]));
}

#[test]
fn a_shaper_fits_inside_the_ring_it_cuts() {
    // the stocked shaper where it fits
    assert_eq!(cutter_teeth(None, 30, 100), 30);
    assert_eq!(cutter_teeth(None, 30, 35), 30);
    // five teeth under the ring where it does not
    assert_eq!(cutter_teeth(None, 30, 34), 29);
    assert_eq!(cutter_teeth(None, 30, 19), 14);
    // never fewer than four
    assert_eq!(cutter_teeth(None, 30, 8), 4);
    assert_eq!(cutter_teeth(None, 30, 3), 4);
    assert_eq!(cutter_teeth(None, 2, 100), 4);
    // the one asked for, as asked
    assert_eq!(cutter_teeth(Some(9), 30, 19), 9);
    assert_eq!(cutter_teeth(Some(2), 30, 19), 2);
}

#[test]
fn each_mesh_sizes_its_shaper_against_its_own_ring() {
    assert_eq!(cutters(hula_teeth(18), None, [30, 30]), [14, 13]);
    assert_eq!(cutters(hula_teeth(18), Some(12), [30, 30]), [12, 12]);
    assert_eq!(cutters(Teeth([40, 41, 90, 89]), None, [30, 20]), [30, 20]);
}
