use gear_core::kinematics::{
    declared_entry, fixture_names, fixture_selection, port, set_fixtures, Arrangement, LoadRole,
};

#[test]
fn the_record_names_every_fixture_in_order() {
    let names = fixture_names();
    let expected = [
        "pair",
        "helical",
        "worm",
        "set-sun-carrier",
        "set-sun-ring",
        "set-carrier-sun",
        "set-carrier-ring",
        "set-ring-sun",
        "set-ring-carrier",
        "hula",
        "layshaft",
        "wormpair",
        "wolfrom",
        "stepped",
        "planocentric",
        "meshed-planets",
        "ravigneaux-small-sun",
        "ravigneaux-large-sun",
        "ravigneaux-ring-free",
        "chain",
        "mixed",
        "set-then-pair",
        "pair-then-set",
        "unclosed",
        "chain-unclosed",
        "ring-released",
        "conflict",
    ];
    assert_eq!(names, expected.map(String::from).to_vec());
}

#[test]
fn a_lone_set_is_recorded_in_all_six_arrangements() {
    let sets = set_fixtures();
    let expected = [
        ("set-sun-carrier", 1, 3, 2),
        ("set-sun-ring", 1, 2, 3),
        ("set-carrier-sun", 2, 3, 1),
        ("set-carrier-ring", 2, 1, 3),
        ("set-ring-sun", 3, 2, 1),
        ("set-ring-carrier", 3, 1, 2),
    ];
    assert_eq!(sets.len(), 6);
    for ((name, a), (n, input, output, held)) in sets.iter().zip(expected) {
        assert_eq!(name, n);
        assert_eq!(*a, Arrangement { input, output, held });
    }
    for (i, (_, a)) in sets.iter().enumerate() {
        for (_, b) in &sets[i + 1..] {
            assert_ne!(a, b);
        }
    }
}

#[test]
fn a_run_with_no_name_runs_every_fixture() {
    let names = fixture_names();
    let all: Vec<usize> = (0..names.len()).collect();
    assert_eq!(fixture_selection(&names, None), Ok(all));
}

#[test]
fn a_run_with_a_name_runs_that_fixture_alone() {
    let names = fixture_names();
    assert_eq!(fixture_selection(&names, Some("worm")), Ok(vec![2]));
    assert_eq!(fixture_selection(&names, Some("conflict")), Ok(vec![26]));
    assert_eq!(fixture_selection(&names, Some("set-ring-sun")), Ok(vec![7]));
}

#[test]
fn a_name_the_record_lacks_lists_what_there_is() {
    let names: Vec<String> = ["pair", "helical", "worm"].map(String::from).to_vec();
    assert_eq!(
        fixture_selection(&names, Some("spur")),
        Err("no such fixture. try one of: pair, helical, worm".to_string())
    );
    assert_eq!(
        fixture_selection(&Vec::new(), None),
        Err("no such fixture. try one of: ".to_string())
    );
    let all = fixture_names();
    let listed = fixture_selection(&all, Some("Pair")).unwrap_err();
    assert_eq!(listed, format!("no such fixture. try one of: {}", all.join(", ")));
}

#[test]
fn a_declared_port_is_written_by_its_role() {
    for at in [0usize, 3, 12, 12345, 123456] {
        assert_eq!(
            declared_entry(LoadRole::Reacted, at),
            Some(format!("reacted at {:<5}", port(at)))
        );
        assert_eq!(declared_entry(LoadRole::Free, at), Some(format!("free at {:<5}", port(at))));
        assert_eq!(declared_entry(LoadRole::Load, at), None);
    }
    assert_eq!(declared_entry(LoadRole::Reacted, 3).unwrap(), "reacted at b3   ");
    assert_eq!(declared_entry(LoadRole::Free, 0).unwrap(), "free at ground");
}
