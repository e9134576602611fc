use gear_core::commands::{arg, commands, dispatch, find, golden_cases, help, opt, Action, Record};

/// **Every subcommand is recorded, or says where instead.**
#[test]
fn every_command_says_how_its_output_is_kept() {
    for c in commands() {
        match c.record {
            Record::Cases(cases) => {
                assert!(!cases.is_empty(), "{}: Cases with no case", c.name);
                for case in cases {
                    assert!(
                        case.split_whitespace().next() == Some(c.name),
                        "{}: golden case {case:?} invokes something else",
                        c.name
                    );
                }
            }
            Record::Digest(case, why) => {
                assert!(case.split_whitespace().next() == Some(c.name));
                assert!(!why.is_empty(), "{}: a digest needs its reason", c.name);
            }
            Record::Elsewhere(why) => {
                assert!(!why.is_empty(), "{}: needs to say where instead", c.name);
            }
        }
    }
}

/// Names are unique, and `help` can lay them out.
#[test]
fn command_names_are_unique() {
    let table = commands();
    let mut seen: Vec<&str> = table.iter().map(|c| c.name).collect();
    let before = seen.len();
    seen.sort_unstable();
    seen.dedup();
    assert_eq!(before, seen.len(), "a command name is listed twice");
}

fn args(words: &[&str]) -> Vec<String> {
    words.iter().map(|w| w.to_string()).collect()
}

#[test]
fn no_argument_at_all_is_show() {
    let table = commands();
    let show = find(&table, "show").unwrap();
    assert_eq!(show, 0);
    assert_eq!(dispatch(&table, &args(&[])), Action::Run(show));
}

#[test]
fn help_and_the_golden_list_are_flags_not_commands() {
    let table = commands();
    for h in ["help", "-h", "--help"] {
        assert_eq!(dispatch(&table, &args(&[h, "show"])), Action::Help);
    }
    assert_eq!(dispatch(&table, &args(&["--golden-cases"])), Action::GoldenCases);
    assert_eq!(dispatch(&table, &args(&["frobnicate"])), Action::Unknown);
    assert_eq!(dispatch(&table, &args(&["SHOW"])), Action::Unknown);
}

#[test]
fn a_command_is_found_at_its_own_row() {
    let table = commands();
    assert_eq!(table.len(), 23);
    for (i, c) in table.iter().enumerate() {
        assert_eq!(find(&table, c.name), Some(i));
        assert_eq!(dispatch(&table, &args(&[c.name, "17"])), Action::Run(i));
    }
    assert_eq!(find(&table, "verify"), Some(22));
    assert_eq!(find(&table, ""), None);
}

#[test]
fn the_golden_list_has_one_line_per_invocation() {
    let table = commands();
    let lines = golden_cases(&table);
    assert_eq!(lines.len(), 31);
    assert_eq!(lines[0], "fast\tfull\tshow 17 0.2\t");
    assert_eq!(lines[1], "fast\tfull\tshow 9 -0.3\t");
    assert_eq!(lines[2], "fast\tfull\tsweep\t");
    assert_eq!(
        lines[3],
        "fast\tdigest\tdump\t10.9 MB of raw profile points; every figure in it is one another command derives and prints in ten"
    );
    assert!(lines.contains(&"fast\tnone\tbending\tits output *is* `docs/bending-check.html`, checked verbatim by `tools/check_figures.py`".to_string()));
    assert!(lines.contains(&"slow\tfull\tmatrix\t".to_string()));
    assert_eq!(lines[30], "slow\tfull\tverify 100\t");
}

#[test]
fn help_lines_up_its_summaries() {
    let table = commands();
    let lines = help(&table);
    assert_eq!(lines.len(), 25);
    assert_eq!(lines[0], "gear-cli — drive the mathematics without a browser");
    assert_eq!(lines[1], "");
    // The widest call is `meshsweep [z_ring] [z_pinion] [ring addendum]
    // [pinion addendum]`: 62 bytes of name and arguments, so every call is
    // padded to 63.
    let width = table.iter().map(|c| c.name.len() + c.args.len()).max().unwrap() + 1;
    assert_eq!(width, 63);
    for (c, line) in table.iter().zip(&lines[2..]) {
        let call = format!("{} {}", c.name, c.args);
        assert_eq!(*line, format!("  {call:<width$}   {}", c.summary));
    }
    assert_eq!(
        lines[2],
        format!("  show [z] [x]{}   one gear's derived geometry (17, 0)", " ".repeat(63 - 12))
    );
}

#[test]
fn arguments_read_as_counts_or_fall_back() {
    let a = args(&["show", "23", "+7", "-3", "", "4294967295", "4294967296", "0.2", "12a"]);
    assert_eq!(arg(&a, 1, 17), 23);
    assert_eq!(arg(&a, 2, 17), 7);
    assert_eq!(arg(&a, 3, 17), 17);
    assert_eq!(arg(&a, 4, 17), 17);
    assert_eq!(arg(&a, 5, 17), u32::MAX);
    assert_eq!(arg(&a, 6, 17), 17);
    assert_eq!(arg(&a, 7, 17), 17);
    assert_eq!(arg(&a, 8, 17), 17);
    assert_eq!(arg(&a, 9, 17), 17);
    assert_eq!(opt(&a, 1), Some(23));
    assert_eq!(opt(&a, 3), None);
    assert_eq!(opt(&a, 40), None);
    assert_eq!(opt(&args(&["x", "+"]), 1), None);
    assert_eq!(opt(&args(&["x", "007"]), 1), Some(7));
    // the same answers the standard library's parser gives
    for s in ["23", "+7", "-3", "", "4294967295", "4294967296", "0.2", "12a", "+", "007", " 1"] {
        assert_eq!(opt(&args(&["x", s]), 1), s.parse::<u32>().ok(), "{s:?}");
    }
}
