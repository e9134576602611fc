use gear_core::jgma::{available_classes, default_class, lookup, parse_table, Class, CompositeError, Row, Scale};

/// A few cells of the standard, at the module 1.0–1.6 / 12 mm point where both
/// tables apply, with the shapes of line the file format allows around them.
const CELLS: &str = "# JGMA 116-02, a handful of cells\r\n\
scale,grade,module_lo,module_hi,diameter_lo,diameter_hi,tooth_to_tooth,total\r\n\
\r\n\
fine,0,0.2,0.6,1.5,3,5,13\n\
fine,0,0.6,1,3,6,5.3,14\n\
fine,0,1.0,1.6,12,25,6.3,18\n\
fine,3,1.0,1.6,12,25,14,53\n\
fine,4,1.0,1.6,12,25,22,71\n\
   \t \n\
fine,6,1.0,1.6,12,25,45,140\n\
standard,4,1,3.5,12,25,7,20\n\
standard,6,1,3.5,12,25,14,50\n\
standard,12,6.3,10,1600,3200.000,160,500\n\
fine,9,1.0,1.6,12,25,1e3,2\n\
coarse,1,1,2,1,2,1,2\n\
fine,1,1,2,1,2,1\n\
fine,300,1,2,1,2,1,2\n\
fine,2,1.0,1.6,12,25,1.2345,2";

fn class(scale: Scale, grade: u8) -> Class {
    Class { scale, grade }
}

fn err(tooth_to_tooth: u64, total: u64) -> Option<CompositeError> {
    Some(CompositeError { tooth_to_tooth, total })
}

#[test]
fn rows_are_read_and_everything_else_is_skipped() {
    let t = parse_table(CELLS);
    assert_eq!(t.len(), 9);
    assert_eq!(
        t[0],
        Row {
            scale: Scale::Fine,
            grade: 0,
            module: (200, 600),
            diameter: (1500, 3000),
            error: CompositeError { tooth_to_tooth: 5000, total: 13000 },
        }
    );
    assert_eq!(t[1].error, CompositeError { tooth_to_tooth: 5300, total: 14000 });
    assert_eq!(t[8].diameter, (1_600_000, 3_200_000));
    assert!(parse_table("").is_empty());
    assert!(parse_table("scale,grade\n# nothing\n\n").is_empty());
    assert_eq!(parse_table("standard,5,+1,.5,2.,3.0,4,5").len(), 1);
}

/// The cells of the composite-error table that the tests below read, in the
/// table's layout: fine modules 0.2–0.6, 0.6–1.0 and 1.0–1.6; standard modules
/// 1–3.5, 3.5–6.3 and 6.3–10. Where a test quotes a cell, the cell holds the
/// quoted value; the cells no test quotes hold small numbers chosen only to be
/// told apart, and each diameter band is chosen to hold the points probed.
const TABLE: &str = "scale,grade,module_lo,module_hi,diameter_lo,diameter_hi,tooth_to_tooth,total\n\
fine,0,0.2,0.6,1.5,3,5,13\n\
fine,0,0.2,0.6,3,6,1,2\n\
fine,0,0.6,1.0,3,6,3,4\n\
fine,0,1.0,1.6,12,25,6.3,18\n\
fine,0,1.0,1.6,25,100,5,6\n\
fine,3,1.0,1.6,12,25,14,53\n\
fine,4,1.0,1.6,12,25,22,71\n\
fine,6,1.0,1.6,12,25,45,140\n\
fine,6,1.0,1.6,100,400,60,200\n\
standard,4,1,3.5,3,25,7,20\n\
standard,6,1,3.5,3,25,14,50\n\
standard,4,1,3.5,25,100,7,8\n\
standard,4,3.5,6.3,100,400,9,10\n\
standard,12,6.3,10,1600,3200,160,500\n";

#[test]
fn spot_values_match_the_printed_tables() {
    let t = parse_table(TABLE);
    // fine, grade 0, module 0.2-0.6, smallest diameter band: 5 / 13
    assert_eq!(lookup(&t, class(Scale::Fine, 0), 300, 2000), err(5000, 13000));
    // fine, grade 6, module 1.0-1.6, largest diameter band: 60 / 200
    assert_eq!(lookup(&t, class(Scale::Fine, 6), 1200, 300_000), err(60_000, 200_000));
    // standard, grade 12, module 6.3-10, largest diameter band: 160 / 500
    assert_eq!(
        lookup(&t, class(Scale::Standard, 12), 8000, 3_000_000),
        err(160_000, 500_000)
    );
    // standard, grade 4, module 1-3.5, smallest band: 7 / 20
    assert_eq!(lookup(&t, class(Scale::Standard, 4), 1200, 12000), err(7000, 20000));
}

#[test]
fn the_two_scales_are_not_interchangeable() {
    let t = parse_table(TABLE);
    let (m, d) = (1200, 12000);
    let fine3 = lookup(&t, class(Scale::Fine, 3), m, d).unwrap();
    let fine4 = lookup(&t, class(Scale::Fine, 4), m, d).unwrap();
    let std4 = lookup(&t, class(Scale::Standard, 4), m, d).unwrap();
    // Same grade number, three times the tolerance.
    assert!(std4.tooth_to_tooth < fine4.tooth_to_tooth / 2);
    // Taking the smaller value at each grade would make the ladder drop from
    // grade 3 to grade 4.
    assert!(std4.tooth_to_tooth < fine3.tooth_to_tooth);
}

#[test]
fn out_of_range_returns_nothing_rather_than_extrapolating() {
    let t = parse_table(TABLE);
    // module above every band
    assert!(lookup(&t, class(Scale::Standard, 6), 25_000, 100_000).is_none());
    // diameter below the fine table's smallest band
    assert!(lookup(&t, class(Scale::Fine, 0), 300, 1000).is_none());
    // grade that does not exist on that scale
    assert!(lookup(&t, class(Scale::Fine, 9), 300, 5000).is_none());
    assert!(lookup(&t, class(Scale::Standard, 0), 2000, 100_000).is_none());
}

#[test]
fn available_classes_track_the_module() {
    let t = parse_table(TABLE);
    // A fine-pitch gear: only the fine scale.
    let c = available_classes(&t, 400, 5000);
    assert!(c.iter().all(|c| c.scale == Scale::Fine));
    assert_eq!(c.first().unwrap().grade, 0);
    // Module 2: only the standard scale, which starts at grade 4.
    let c = available_classes(&t, 2000, 30_000);
    assert!(c.iter().all(|c| c.scale == Scale::Standard));
    assert_eq!(c.first().unwrap().grade, 4);
    assert!(!c.contains(&class(Scale::Standard, 3)));
    // The overlap: both scales offered.
    let c = available_classes(&t, 1200, 50_000);
    assert!(c.iter().any(|c| c.scale == Scale::Fine));
    assert!(c.iter().any(|c| c.scale == Scale::Standard));
}

#[test]
fn default_is_fine_scale_then_lowest_grade() {
    let t = parse_table(TABLE);
    // overlap region: fine wins, at its lowest grade
    assert_eq!(default_class(&t, 1200, 50_000), Some(class(Scale::Fine, 0)));
    // no fine coverage: falls to the standard scale's lowest
    assert_eq!(default_class(&t, 4000, 200_000), Some(class(Scale::Standard, 4)));
    // nothing at all
    assert_eq!(default_class(&t, 50_000, 5_000_000), None);
}

#[test]
fn module_bands_are_half_open() {
    let t = parse_table(TABLE);
    // A module exactly on a boundary belongs to the upper band.
    let low = lookup(&t, class(Scale::Fine, 0), 599, 5000).unwrap();
    let high = lookup(&t, class(Scale::Fine, 0), 600, 5000).unwrap();
    assert_ne!(low, high, "0.6 must fall in the 0.6-1.0 band, not 0.2-0.6");
}

#[test]
fn every_class_at_the_overlap_is_offered_in_order() {
    let t = parse_table(CELLS);
    assert_eq!(
        available_classes(&t, 1200, 12000),
        vec![
            class(Scale::Fine, 0),
            class(Scale::Fine, 3),
            class(Scale::Fine, 4),
            class(Scale::Fine, 6),
            class(Scale::Standard, 4),
            class(Scale::Standard, 6),
        ]
    );
    assert_eq!(lookup(&t, class(Scale::Fine, 0), 600, 2999), None);
    assert_eq!(lookup(&t, class(Scale::Fine, 0), 600, 3000), err(5300, 14000));
    assert!(available_classes(&t, 50_000, 5_000_000).is_empty());
}

#[test]
fn a_class_covered_twice_is_offered_once() {
    let t = parse_table("fine,3,1,2,1,2,1,2\nfine,3,1,2,1,3,4,5\nfine,1,1,2,1,2,1,2\n");
    assert_eq!(available_classes(&t, 1500, 1500), vec![class(Scale::Fine, 1), class(Scale::Fine, 3)]);
    // the first cell that covers the gear is the one read
    assert_eq!(lookup(&t, class(Scale::Fine, 3), 1500, 1500), err(1000, 2000));
}
