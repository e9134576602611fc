//! The command-line harness's table of subcommands, and what is read off it.
//!
//! **The table is the dispatch**: the list `help` prints, the list of golden
//! cases the change detector records, and the lookup that picks a command to
//! run are all read from [`commands`], so none of them can fall out of step with
//! another. Each command also says how its output is kept — the decision is a
//! field with no default, so a command cannot be added without making it.

use vstd::prelude::*;
use crate::text::{is_space, padded, parse_u32, parse_u32_text, same_text};

verus! {

/// How a command's output is kept, so that a change in it is a diff.
pub enum Record {
    /// In full, at these invocations.
    Cases(Vec<&'static str>),
    /// As a digest of the output at this invocation, with the reason.
    Digest(&'static str, &'static str),
    /// Not by the golden corpus at all, and by what instead.
    Elsewhere(&'static str),
}

/// One subcommand: what it is called, what it takes, what it does, and how its
/// output is kept.
pub struct Command {
    pub name: &'static str,
    /// The arguments as a reader would type them, defaults in the summary.
    pub args: &'static str,
    pub summary: &'static str,
    pub record: Record,
    /// Slow enough that a working-tree run may skip it.
    pub slow: bool,
}

/// What `main` does with its arguments.
#[derive(Clone, Copy, Debug, PartialEq, Eq)]
pub enum Action {
    /// Print every subcommand with its arguments and summary.
    Help,
    /// Print what the golden corpus records and how.
    GoldenCases,
    /// Run the command at this position of the table.
    Run(usize),
    /// No command has this name.
    Unknown,
}

/// Whether the first whitespace-separated word of `case` is `name`.
pub open spec fn first_word_is(case: Seq<char>, name: Seq<char>) -> bool {
    &&& name.len() > 0
    &&& forall|i: int| 0 <= i < name.len() ==> !is_space(#[trigger] name[i])
    &&& case.len() >= name.len()
    &&& case.take(name.len() as int) == name
    &&& (case.len() == name.len() || is_space(case[name.len() as int]))
}

/// A command's record says how its output is kept, and says it sensibly:
/// every recorded invocation invokes this command, a command recorded in full
/// names at least one invocation, and a digest or an exception gives its
/// reason.
pub open spec fn record_is_kept(c: Command) -> bool {
    match c.record {
        Record::Cases(cases) => {
            &&& cases@.len() > 0
            &&& forall|k: int| 0 <= k < cases@.len() ==> first_word_is(#[trigger] cases@[k]@, c.name@)
        },
        Record::Digest(case, why) => {
            &&& first_word_is(case@, c.name@)
            &&& why@.len() > 0
        },
        Record::Elsewhere(why) => why@.len() > 0,
    }
}

/// No two commands share a name.
pub open spec fn names_are_unique(table: Seq<Command>) -> bool {
    forall|i: int, j: int|
        0 <= i < table.len() && 0 <= j < table.len() && i != j ==> #[trigger] table[i].name@
            != #[trigger] table[j].name@
}

/// A table fit to dispatch from.
pub open spec fn well_formed(table: Seq<Command>) -> bool {
    &&& names_are_unique(table)
    &&& forall|i: int| 0 <= i < table.len() ==> record_is_kept(#[trigger] table[i])
}

/// The first position whose command has this name, if any.
pub open spec fn position_of(table: Seq<Command>, name: Seq<char>) -> Option<int>
    decreases table.len(),
{
    if table.len() == 0 {
        None
    } else {
        match position_of(table.drop_last(), name) {
            Some(i) => Some(i),
            None => if table.last().name@ == name {
                Some(table.len() - 1)
            } else {
                None
            },
        }
    }
}

/// The first position with this name is one with this name, and nothing
/// before it has the name; no position means no command has it.
pub proof fn position_of_is_first(table: Seq<Command>, name: Seq<char>)
    ensures
        match position_of(table, name) {
            Some(i) => 0 <= i < table.len() && table[i].name@ == name && forall|j: int|
                0 <= j < i ==> #[trigger] table[j].name@ != name,
            None => forall|j: int| 0 <= j < table.len() ==> #[trigger] table[j].name@ != name,
        },
    decreases table.len(),
{
    if table.len() > 0 {
        position_of_is_first(table.drop_last(), name);
        assert forall|j: int| 0 <= j < table.len() - 1 implies table.drop_last()[j] == table[j] by {}
    }
}

/// The command a name picks, if any.
pub fn find(table: &Vec<Command>, name: &str) -> (r: Option<usize>)
    ensures
        match r {
            Some(i) => position_of(table@, name@) == Some(i as int),
            None => position_of(table@, name@) is None,
        },
{
    let mut i: usize = 0;
    while i < table.len()
        invariant
            i <= table@.len(),
            position_of(table@.take(i as int), name@) is None,
        decreases table.len() - i,
    {
        assert(table@.take(i as int + 1).drop_last() =~= table@.take(i as int));
        if same_text(table[i].name, name) {
            proof {
                lemma_position_of_prefix(table@, name@, i as int + 1);
            }
            return Some(i);
        }
        i = i + 1;
    }
    assert(table@.take(table@.len() as int) =~= table@);
    None
}

/// A name found within a prefix of the table is found at the same place in the
/// whole table.
proof fn lemma_position_of_prefix(table: Seq<Command>, name: Seq<char>, k: int)
    requires
        0 <= k <= table.len(),
        position_of(table.take(k), name) is Some,
    ensures
        position_of(table, name) == position_of(table.take(k), name),
    decreases table.len() - k,
{
    if k < table.len() {
        assert(table.take(k + 1).drop_last() =~= table.take(k));
        lemma_position_of_prefix(table, name, k + 1);
    } else {
        assert(table.take(k) =~= table);
    }
}

/// **The table is the dispatch**: in a table fit to dispatch from, naming a
/// command runs that command's own row — the one with that name, since no
/// other has it — unless the name is one of the flags `main` answers itself.
pub proof fn every_command_runs_its_own_row(table: Seq<Command>, i: int)
    requires
        well_formed(table),
        0 <= i < table.len(),
        table[i].name@ != "help"@,
        table[i].name@ != "-h"@,
        table[i].name@ != "--help"@,
        table[i].name@ != "--golden-cases"@,
    ensures
        spec_dispatch(table, seq![table[i].name@]) == Action::Run(i as usize),
{
    position_of_is_first(table, table[i].name@);
    match position_of(table, table[i].name@) {
        Some(j) => {
            if j != i {
                assert(table[j].name@ == table[i].name@);
            }
        },
        None => {
            assert(table[i].name@ == table[i].name@);
        },
    }
}

/// What `main` does with the arguments after the program's own name. No
/// argument at all is `show`.
pub open spec fn spec_dispatch(table: Seq<Command>, args: Seq<Seq<char>>) -> Action {
    let name = if args.len() == 0 {
        "show"@
    } else {
        args[0]
    };
    if name == "help"@ || name == "-h"@ || name == "--help"@ {
        Action::Help
    } else if name == "--golden-cases"@ {
        Action::GoldenCases
    } else {
        match position_of(table, name) {
            Some(i) => Action::Run(i as usize),
            None => Action::Unknown,
        }
    }
}

/// Decide what the arguments ask for.
pub fn dispatch(table: &Vec<Command>, args: &Vec<String>) -> (r: Action)
    ensures
        r == spec_dispatch(table@, args@.map_values(|a: String| a@)),
{
    let ghost views = args@.map_values(|a: String| a@);
    let name: &str = if args.len() == 0 {
        "show"
    } else {
        args[0].as_str()
    };
    assert(name@ == (if views.len() == 0 {
        "show"@
    } else {
        views[0]
    }));
    if same_text(name, "help") || same_text(name, "-h") || same_text(name, "--help") {
        Action::Help
    } else if same_text(name, "--golden-cases") {
        Action::GoldenCases
    } else {
        match find(table, name) {
            Some(i) => Action::Run(i),
            None => Action::Unknown,
        }
    }
}

/// A positional argument read as a count, or `default` where it is absent or
/// does not parse.
pub open spec fn spec_arg(args: Seq<Seq<char>>, n: int, default: u32) -> u32 {
    match spec_opt(args, n) {
        Some(v) => v,
        None => default,
    }
}

/// A positional argument read as a count, where absent is a different question
/// rather than a default.
pub open spec fn spec_opt(args: Seq<Seq<char>>, n: int) -> Option<u32> {
    if 0 <= n < args.len() {
        parse_u32(args[n])
    } else {
        None
    }
}

/// A positional argument, or its default.
pub fn arg(args: &Vec<String>, n: usize, default: u32) -> (r: u32)
    ensures
        r == spec_arg(args@.map_values(|a: String| a@), n as int, default),
{
    match opt(args, n) {
        Some(v) => v,
        None => default,
    }
}

/// ...and one that is genuinely optional.
pub fn opt(args: &Vec<String>, n: usize) -> (r: Option<u32>)
    ensures
        r == spec_opt(args@.map_values(|a: String| a@), n as int),
{
    if n < args.len() {
        parse_u32_text(args[n].as_str())
    } else {
        None
    }
}

/// The word a golden line opens with: how long the command takes.
pub open spec fn speed_word(c: Command) -> Seq<char> {
    if c.slow {
        "slow"@
    } else {
        "fast"@
    }
}

/// The golden-corpus lines one command contributes:
/// `speed \t keep \t invocation \t why`, one per recorded invocation. A
/// command kept elsewhere is listed too, with `none` and its reason.
pub open spec fn golden_lines_of(c: Command) -> Seq<Seq<char>> {
    match c.record {
        Record::Cases(cases) => Seq::new(
            cases@.len(),
            |k: int| speed_word(c) + "\tfull\t"@ + cases@[k]@ + "\t"@,
        ),
        Record::Digest(case, why) => seq![speed_word(c) + "\tdigest\t"@ + case@ + "\t"@ + why@],
        Record::Elsewhere(why) => seq![speed_word(c) + "\tnone\t"@ + c.name@ + "\t"@ + why@],
    }
}

/// Every golden-corpus line of a table, command by command.
pub open spec fn spec_golden_cases(table: Seq<Command>) -> Seq<Seq<char>>
    decreases table.len(),
{
    if table.len() == 0 {
        Seq::empty()
    } else {
        spec_golden_cases(table.drop_last()) + golden_lines_of(table.last())
    }
}

fn speed_text(slow: bool) -> (r: &'static str)
    ensures
        r@ == (if slow {
            "slow"@
        } else {
            "fast"@
        }),
{
    if slow {
        "slow"
    } else {
        "fast"
    }
}

/// What the golden corpus should run and how to keep each one.
pub fn golden_cases(table: &Vec<Command>) -> (r: Vec<String>)
    ensures
        r@.map_values(|l: String| l@) == spec_golden_cases(table@),
{
    let mut out: Vec<String> = Vec::new();
    let mut i: usize = 0;
    while i < table.len()
        invariant
            i <= table@.len(),
            out@.map_values(|l: String| l@) == spec_golden_cases(table@.take(i as int)),
        decreases table.len() - i,
    {
        let c = &table[i];
        let ghost before = out@.map_values(|l: String| l@);
        let speed = speed_text(c.slow);
        match &c.record {
            Record::Cases(cases) => {
                let mut k: usize = 0;
                while k < cases.len()
                    invariant
                        k <= cases@.len(),
                        out@.map_values(|l: String| l@) == before + Seq::new(
                            k as nat,
                            |j: int| speed@ + "\tfull\t"@ + cases@[j]@ + "\t"@,
                        ),
                    decreases cases.len() - k,
                {
                    let mut line = String::new();
                    line.append(speed);
                    line.append("\tfull\t");
                    line.append(cases[k]);
                    line.append("\t");
                    let ghost prev = out@.map_values(|l: String| l@);
                    out.push(line);
                    assert(out@.map_values(|l: String| l@) =~= prev.push(line@));
                    assert(out@.map_values(|l: String| l@) =~= before + Seq::new(
                        (k + 1) as nat,
                        |j: int| speed@ + "\tfull\t"@ + cases@[j]@ + "\t"@,
                    ));
                    k = k + 1;
                }
            },
            Record::Digest(case, why) => {
                let mut line = String::new();
                line.append(speed);
                line.append("\tdigest\t");
                line.append(case);
                line.append("\t");
                line.append(why);
                out.push(line);
                assert(out@.map_values(|l: String| l@) =~= before.push(line@));
            },
            Record::Elsewhere(why) => {
                let mut line = String::new();
                line.append(speed);
                line.append("\tnone\t");
                line.append(c.name);
                line.append("\t");
                line.append(why);
                out.push(line);
                assert(out@.map_values(|l: String| l@) =~= before.push(line@));
            },
        }
        assert(table@.take(i as int + 1).drop_last() =~= table@.take(i as int));
        assert(out@.map_values(|l: String| l@) =~= spec_golden_cases(table@.take(i as int + 1)));
        i = i + 1;
    }
    assert(table@.take(table@.len() as int) =~= table@);
    out
}

/// The first line `help` prints.
pub open spec fn help_heading() -> Seq<char> {
    "gear-cli — drive the mathematics without a browser"@
}

/// The widest `name` and `args` together, in bytes, over a table; zero for an
/// empty one.
pub open spec fn help_width(table: Seq<Command>) -> int
    decreases table.len(),
{
    if table.len() == 0 {
        0
    } else {
        let w = table.last().name.len() + table.last().args.len();
        let rest = help_width(table.drop_last());
        if rest >= w {
            rest
        } else {
            w
        }
    }
}

/// One command's line of `help`: its call, padded to a column one wider than
/// the widest call, then its summary.
pub open spec fn help_line(c: Command, width: int) -> Seq<char> {
    "  "@ + padded(c.name@ + " "@ + c.args@, width) + "   "@ + c.summary@
}

/// Everything `help` prints, line by line: the heading, a blank line, and one
/// line per command in the table's order.
pub open spec fn spec_help(table: Seq<Command>) -> Seq<Seq<char>> {
    seq![help_heading(), Seq::empty()] + Seq::new(
        table.len(),
        |i: int| help_line(table[i], help_width(table) + 1),
    )
}

/// Every subcommand, its arguments and its summary, as lines.
pub fn help(table: &Vec<Command>) -> (r: Vec<String>)
    ensures
        r@.map_values(|l: String| l@) == spec_help(table@),
{
    let mut width: u128 = 0;
    let mut i: usize = 0;
    while i < table.len()
        invariant
            i <= table@.len(),
            width == help_width(table@.take(i as int)),
            width <= 0x2_0000_0000_0000_0000,
        decreases table.len() - i,
    {
        assert(table@.take(i as int + 1).drop_last() =~= table@.take(i as int));
        let w = table[i].name.len() as u128 + table[i].args.len() as u128;
        if w > width {
            width = w;
        }
        i = i + 1;
    }
    assert(table@.take(table@.len() as int) =~= table@);
    let column = width + 1;
    let mut out: Vec<String> = Vec::new();
    out.push(String::from_str("gear-cli — drive the mathematics without a browser"));
    out.push(String::new());
    let mut i: usize = 0;
    while i < table.len()
        invariant
            i <= table@.len(),
            column == help_width(table@) + 1,
            out@.map_values(|l: String| l@) == spec_help(table@).take(i as int + 2),
        decreases table.len() - i,
    {
        let c = &table[i];
        let mut call = String::from_str(c.name);
        call.append(" ");
        call.append(c.args);
        let ghost bare = call@;
        let mut n: u128 = call.as_str().unicode_len() as u128;
        while n < column
            invariant
                bare.len() <= n <= column || (n == bare.len() && n >= column),
                n >= bare.len(),
                call@ == bare + Seq::new((n - bare.len()) as nat, |j: int| ' '),
            decreases column - n,
        {
            call.append(" ");
            proof {
                reveal_strlit(" ");
            }
            assert(call@ =~= bare + Seq::new((n + 1 - bare.len()) as nat, |j: int| ' '));
            n = n + 1;
        }
        assert(call@ =~= padded(bare, column as int));
        let mut line = String::from_str("  ");
        line.append(call.as_str());
        line.append("   ");
        line.append(c.summary);
        let ghost prev = out@.map_values(|l: String| l@);
        out.push(line);
        assert(out@.map_values(|l: String| l@) =~= prev.push(line@));
        assert(line@ == help_line(table@[i as int], help_width(table@) + 1));
        assert(out@.map_values(|l: String| l@) =~= spec_help(table@).take(i as int + 3));
        i = i + 1;
    }
    assert(spec_help(table@).take(table@.len() as int + 2) =~= spec_help(table@));
    out
}

/// How a row says its output is kept, as text.
#[verifier::ext_equal]
pub enum Keeping {
    InFull(Seq<Seq<char>>),
    AsDigest(Seq<char>, Seq<char>),
    NotHere(Seq<char>),
}

/// A row of the table, as text.
#[verifier::ext_equal]
pub struct CommandRow {
    pub name: Seq<char>,
    pub args: Seq<char>,
    pub summary: Seq<char>,
    pub kept: Keeping,
    pub slow: bool,
}

/// What a command's row says.
pub open spec fn row_of(c: Command) -> CommandRow {
    CommandRow {
        name: c.name@,
        args: c.args@,
        summary: c.summary@,
        kept: match c.record {
            Record::Cases(cases) => Keeping::InFull(cases@.map_values(|k: &str| k@)),
            Record::Digest(case, why) => Keeping::AsDigest(case@, why@),
            Record::Elsewhere(why) => Keeping::NotHere(why@),
        },
        slow: c.slow,
    }
}

/// The table, row by row, in the order `help` lists it.
pub open spec fn command_rows() -> Seq<CommandRow> {
    seq![
        CommandRow {
            name: "show"@,
            args: "[z] [x]"@,
            summary: "one gear's derived geometry (17, 0)"@,
            kept: Keeping::InFull(seq!["show 17 0.2"@, "show 9 -0.3"@]),
            slow: false,
        },
        CommandRow {
            name: "sweep"@,
            args: ""@,
            summary: "scan a parameter grid for clamps, undercut and severing"@,
            kept: Keeping::InFull(seq!["sweep"@]),
            slow: false,
        },
        CommandRow {
            name: "dump"@,
            args: ""@,
            summary: "every sampled profile point, for an external check"@,
            kept: Keeping::AsDigest("dump"@, "10.9 MB of raw profile points; every figure in it is one another command derives and prints in ten"@),
            slow: false,
        },
        CommandRow {
            name: "materials"@,
            args: ""@,
            summary: "the material library, with each value's basis"@,
            kept: Keeping::InFull(seq!["materials"@]),
            slow: false,
        },
        CommandRow {
            name: "strength"@,
            args: "[z1] [z2] [torque] [material] [helix] [rim]"@,
            summary: "a worked mesh: bending, contact, efficiency (17, 43, 2 N·m)"@,
            kept: Keeping::InFull(seq!["strength 17 43 2.0"@]),
            slow: false,
        },
        CommandRow {
            name: "bending"@,
            args: ""@,
            summary: "the bending construction drawn tooth by tooth — the body of docs/bending-check.html"@,
            kept: Keeping::NotHere("its output *is* `docs/bending-check.html`, checked verbatim by `tools/check_figures.py`"@),
            slow: false,
        },
        CommandRow {
            name: "matrix"@,
            args: ""@,
            summary: "the bending-model matrix on external teeth and on rings — the ISO comparison"@,
            kept: Keeping::InFull(seq!["matrix"@]),
            slow: true,
        },
        CommandRow {
            name: "loadcase"@,
            args: ""@,
            summary: "a stage's two load cases side by side"@,
            kept: Keeping::InFull(seq!["loadcase"@]),
            slow: false,
        },
        CommandRow {
            name: "shifts"@,
            args: "[z1] [z2] | epicyclic"@,
            summary: "the shifts a pair loses least at, free and against a given centre distance (9, 37); `epicyclic` asks the two presets that choose more than two"@,
            kept: Keeping::InFull(seq!["shifts 9 37"@, "shifts 17 43"@, "shifts epicyclic"@]),
            slow: false,
        },
        CommandRow {
            name: "train"@,
            args: "[mixed|held|toggles]"@,
            summary: "a two-stage geartrain, end to end; `mixed` puts a worm stage in it, `held` back-drives that worm harder than the drive does, `toggles` turns on every optional control"@,
            kept: Keeping::InFull(seq!["train"@, "train mixed"@, "train held"@, "train toggles"@]),
            slow: false,
        },
        CommandRow {
            name: "kinematics"@,
            args: "[fixture]"@,
            summary: "motion, torque, loss and play alone, for every preset and every epicyclic arrangement — what a graph over shafts and meshes has to reproduce"@,
            kept: Keeping::InFull(seq!["kinematics"@]),
            slow: false,
        },
        CommandRow {
            name: "trainfile"@,
            args: "[path]"@,
            summary: "a train to TOML and back, both answers compared"@,
            kept: Keeping::InFull(seq!["trainfile"@]),
            slow: false,
        },
        CommandRow {
            name: "dxf"@,
            args: "[z] [x] [chord tolerance]"@,
            summary: "a gear exported to DXF, on stdout (17, 0, 1e-3)"@,
            kept: Keeping::InFull(seq!["dxf 17 0.2 0.001"@]),
            slow: false,
        },
        CommandRow {
            name: "worm"@,
            args: "[starts] [z_wheel] [d_worm] [shaft angle]"@,
            summary: "a worm pair, both directions (1, 40, 7 mm, 90°)"@,
            kept: Keeping::InFull(seq!["worm 1 40 7 90"@]),
            slow: false,
        },
        CommandRow {
            name: "wormstage"@,
            args: "[starts] [z_wheel] [d_worm] [torque]"@,
            summary: "a worm stage, end to end (1, 40, 7 mm, 2 N·m)"@,
            kept: Keeping::InFull(seq!["wormstage 1 40 7 2"@]),
            slow: false,
        },
        CommandRow {
            name: "crossed"@,
            args: "[z1] [z2] [shaft angle]"@,
            summary: "a crossed pair, swept over the helix split (17, 23, 90°)"@,
            kept: Keeping::InFull(seq!["crossed 17 23 90"@, "crossed 17 43 5"@]),
            slow: false,
        },
        CommandRow {
            name: "planetary"@,
            args: "[z_sun] [z_planet] [N] [x_sun] [x_ring]"@,
            summary: "every ring count that can work, and the planet shift each needs (17, 17, 3)"@,
            kept: Keeping::InFull(seq!["planetary 17 17 3"@]),
            slow: false,
        },
        CommandRow {
            name: "planetstage"@,
            args: "[z_sun] [z_planet] [z_ring] [N] [helix]"@,
            summary: "a planetary stage in all six arrangements (12, 30, 72, 3)"@,
            kept: Keeping::InFull(seq!["planetstage 12 30 72 3"@, "planetstage 24 18 60 3"@]),
            slow: false,
        },
        CommandRow {
            name: "hula"@,
            args: "[N] [clearance] [m_outer] [m_inner] [cutter teeth]"@,
            summary: "a hula stage: the offset, the shifts it takes, and what the teeth then do (18, 0.5)"@,
            kept: Keeping::InFull(seq!["hula 18 0.2"@]),
            slow: false,
        },
        CommandRow {
            name: "hulaband"@,
            args: "[N] [clearance in modules]"@,
            summary: "one reduction at every tooth difference, to see what the difference of one costs (18, 0.30)"@,
            kept: Keeping::InFull(seq!["hulaband 18"@]),
            slow: true,
        },
        CommandRow {
            name: "meshsweep"@,
            args: "[z_ring] [z_pinion] [ring addendum] [pinion addendum]"@,
            summary: "roll an ordinary internal pair through a tooth — the control (40, 20)"@,
            kept: Keeping::InFull(seq!["meshsweep 60 20 0.8"@]),
            slow: true,
        },
        CommandRow {
            name: "hulasweep"@,
            args: "[N] [clearance] [mesh]"@,
            summary: "the same roll on a hula pair, where the tip circles cross (18, 0.2)"@,
            kept: Keeping::InFull(seq!["hulasweep 18 0.25"@]),
            slow: true,
        },
        CommandRow {
            name: "verify"@,
            args: "[cases]"@,
            summary: "the two-sided cutter check over a parameter grid (all of it)"@,
            kept: Keeping::InFull(seq!["verify 100"@]),
            slow: true,
        },
    ]
}

/// Every subcommand, in the order `help` lists them.
pub fn commands() -> (r: Vec<Command>)
    ensures
        r@.len() == 23,
        forall|i: int| 0 <= i < r@.len() ==> #[trigger] row_of(r@[i]) == command_rows()[i],
        well_formed(r@),
{
    let table = vec![
        Command {
            name: "show",
            args: "[z] [x]",
            summary: "one gear's derived geometry (17, 0)",
            record: Record::Cases(vec!["show 17 0.2", "show 9 -0.3"]),
            slow: false,
        },
        Command {
            name: "sweep",
            args: "",
            summary: "scan a parameter grid for clamps, undercut and severing",
            record: Record::Cases(vec!["sweep"]),
            slow: false,
        },
        Command {
            name: "dump",
            args: "",
            summary: "every sampled profile point, for an external check",
            record: Record::Digest("dump", "10.9 MB of raw profile points; every figure in it is one another command derives and prints in ten"),
            slow: false,
        },
        Command {
            name: "materials",
            args: "",
            summary: "the material library, with each value's basis",
            record: Record::Cases(vec!["materials"]),
            slow: false,
        },
        Command {
            name: "strength",
            args: "[z1] [z2] [torque] [material] [helix] [rim]",
            summary: "a worked mesh: bending, contact, efficiency (17, 43, 2 N·m)",
            record: Record::Cases(vec!["strength 17 43 2.0"]),
            slow: false,
        },
        Command {
            name: "bending",
            args: "",
            summary: "the bending construction drawn tooth by tooth — the body of docs/bending-check.html",
            record: Record::Elsewhere("its output *is* `docs/bending-check.html`, checked verbatim by `tools/check_figures.py`"),
            slow: false,
        },
        Command {
            name: "matrix",
            args: "",
            summary: "the bending-model matrix on external teeth and on rings — the ISO comparison",
            record: Record::Cases(vec!["matrix"]),
            slow: true,
        },
        Command {
            name: "loadcase",
            args: "",
            summary: "a stage's two load cases side by side",
            record: Record::Cases(vec!["loadcase"]),
            slow: false,
        },
        Command {
            name: "shifts",
            args: "[z1] [z2] | epicyclic",
            summary: "the shifts a pair loses least at, free and against a given centre distance (9, 37); `epicyclic` asks the two presets that choose more than two",
            record: Record::Cases(vec!["shifts 9 37", "shifts 17 43", "shifts epicyclic"]),
            slow: false,
        },
        Command {
            name: "train",
            args: "[mixed|held|toggles]",
            summary: "a two-stage geartrain, end to end; `mixed` puts a worm stage in it, `held` back-drives that worm harder than the drive does, `toggles` turns on every optional control",
            record: Record::Cases(vec!["train", "train mixed", "train held", "train toggles"]),
            slow: false,
        },
        Command {
            name: "kinematics",
            args: "[fixture]",
            summary: "motion, torque, loss and play alone, for every preset and every epicyclic arrangement — what a graph over shafts and meshes has to reproduce",
            record: Record::Cases(vec!["kinematics"]),
            slow: false,
        },
        Command {
            name: "trainfile",
            args: "[path]",
            summary: "a train to TOML and back, both answers compared",
            record: Record::Cases(vec!["trainfile"]),
            slow: false,
        },
        Command {
            name: "dxf",
            args: "[z] [x] [chord tolerance]",
            summary: "a gear exported to DXF, on stdout (17, 0, 1e-3)",
            record: Record::Cases(vec!["dxf 17 0.2 0.001"]),
            slow: false,
        },
        Command {
            name: "worm",
            args: "[starts] [z_wheel] [d_worm] [shaft angle]",
            summary: "a worm pair, both directions (1, 40, 7 mm, 90°)",
            record: Record::Cases(vec!["worm 1 40 7 90"]),
            slow: false,
        },
        Command {
            name: "wormstage",
            args: "[starts] [z_wheel] [d_worm] [torque]",
            summary: "a worm stage, end to end (1, 40, 7 mm, 2 N·m)",
            record: Record::Cases(vec!["wormstage 1 40 7 2"]),
            slow: false,
        },
        Command {
            name: "crossed",
            args: "[z1] [z2] [shaft angle]",
            summary: "a crossed pair, swept over the helix split (17, 23, 90°)",
            record: Record::Cases(vec!["crossed 17 23 90", "crossed 17 43 5"]),
            slow: false,
        },
        Command {
            name: "planetary",
            args: "[z_sun] [z_planet] [N] [x_sun] [x_ring]",
            summary: "every ring count that can work, and the planet shift each needs (17, 17, 3)",
            record: Record::Cases(vec!["planetary 17 17 3"]),
            slow: false,
        },
        Command {
            name: "planetstage",
            args: "[z_sun] [z_planet] [z_ring] [N] [helix]",
            summary: "a planetary stage in all six arrangements (12, 30, 72, 3)",
            record: Record::Cases(vec!["planetstage 12 30 72 3", "planetstage 24 18 60 3"]),
            slow: false,
        },
        Command {
            name: "hula",
            args: "[N] [clearance] [m_outer] [m_inner] [cutter teeth]",
            summary: "a hula stage: the offset, the shifts it takes, and what the teeth then do (18, 0.5)",
            record: Record::Cases(vec!["hula 18 0.2"]),
            slow: false,
        },
        Command {
            name: "hulaband",
            args: "[N] [clearance in modules]",
            summary: "one reduction at every tooth difference, to see what the difference of one costs (18, 0.30)",
            record: Record::Cases(vec!["hulaband 18"]),
            slow: true,
        },
        Command {
            name: "meshsweep",
            args: "[z_ring] [z_pinion] [ring addendum] [pinion addendum]",
            summary: "roll an ordinary internal pair through a tooth — the control (40, 20)",
            record: Record::Cases(vec!["meshsweep 60 20 0.8"]),
            slow: true,
        },
        Command {
            name: "hulasweep",
            args: "[N] [clearance] [mesh]",
            summary: "the same roll on a hula pair, where the tip circles cross (18, 0.2)",
            record: Record::Cases(vec!["hulasweep 18 0.25"]),
            slow: true,
        },
        Command {
            name: "verify",
            args: "[cases]",
            summary: "the two-sided cutter check over a parameter grid (all of it)",
            record: Record::Cases(vec!["verify 100"]),
            slow: true,
        },
    ];
    proof {
        reveal_strlit("show");
        reveal_strlit("show 17 0.2");
        reveal_strlit("show 9 -0.3");
        reveal_strlit("sweep");
        reveal_strlit("dump");
        reveal_strlit("10.9 MB of raw profile points; every figure in it is one another command derives and prints in ten");
        reveal_strlit("materials");
        reveal_strlit("strength");
        reveal_strlit("strength 17 43 2.0");
        reveal_strlit("bending");
        reveal_strlit("its output *is* `docs/bending-check.html`, checked verbatim by `tools/check_figures.py`");
        reveal_strlit("matrix");
        reveal_strlit("loadcase");
        reveal_strlit("shifts");
        reveal_strlit("shifts 9 37");
        reveal_strlit("shifts 17 43");
        reveal_strlit("shifts epicyclic");
        reveal_strlit("train");
        reveal_strlit("train mixed");
        reveal_strlit("train held");
        reveal_strlit("train toggles");
        reveal_strlit("kinematics");
        reveal_strlit("trainfile");
        reveal_strlit("dxf");
        reveal_strlit("dxf 17 0.2 0.001");
        reveal_strlit("worm");
        reveal_strlit("worm 1 40 7 90");
        reveal_strlit("wormstage");
        reveal_strlit("wormstage 1 40 7 2");
        reveal_strlit("crossed");
        reveal_strlit("crossed 17 23 90");
        reveal_strlit("crossed 17 43 5");
        reveal_strlit("planetary");
        reveal_strlit("planetary 17 17 3");
        reveal_strlit("planetstage");
        reveal_strlit("planetstage 12 30 72 3");
        reveal_strlit("planetstage 24 18 60 3");
        reveal_strlit("hula");
        reveal_strlit("hula 18 0.2");
        reveal_strlit("hulaband");
        reveal_strlit("hulaband 18");
        reveal_strlit("meshsweep");
        reveal_strlit("meshsweep 60 20 0.8");
        reveal_strlit("hulasweep");
        reveal_strlit("hulasweep 18 0.25");
        reveal_strlit("verify");
        reveal_strlit("verify 100");
        assert("show 17 0.2"@.take(4) =~= "show"@);
        assert("show 9 -0.3"@.take(4) =~= "show"@);
        assert(record_is_kept(table@[0]));
        assert("sweep"@.take(5) =~= "sweep"@);
        assert(record_is_kept(table@[1]));
        assert("dump"@.take(4) =~= "dump"@);
        assert(record_is_kept(table@[2]));
        assert("materials"@.take(9) =~= "materials"@);
        assert(record_is_kept(table@[3]));
        assert("strength 17 43 2.0"@.take(8) =~= "strength"@);
        assert(record_is_kept(table@[4]));
        assert(record_is_kept(table@[5]));
        assert("matrix"@.take(6) =~= "matrix"@);
        assert(record_is_kept(table@[6]));
        assert("loadcase"@.take(8) =~= "loadcase"@);
        assert(record_is_kept(table@[7]));
        assert("shifts 9 37"@.take(6) =~= "shifts"@);
        assert("shifts 17 43"@.take(6) =~= "shifts"@);
        assert("shifts epicyclic"@.take(6) =~= "shifts"@);
        assert(record_is_kept(table@[8]));
        assert("train"@.take(5) =~= "train"@);
        assert("train mixed"@.take(5) =~= "train"@);
        assert("train held"@.take(5) =~= "train"@);
        assert("train toggles"@.take(5) =~= "train"@);
        assert(record_is_kept(table@[9]));
        assert("kinematics"@.take(10) =~= "kinematics"@);
        assert(record_is_kept(table@[10]));
        assert("trainfile"@.take(9) =~= "trainfile"@);
        assert(record_is_kept(table@[11]));
        assert("dxf 17 0.2 0.001"@.take(3) =~= "dxf"@);
        assert(record_is_kept(table@[12]));
        assert("worm 1 40 7 90"@.take(4) =~= "worm"@);
        assert(record_is_kept(table@[13]));
        assert("wormstage 1 40 7 2"@.take(9) =~= "wormstage"@);
        assert(record_is_kept(table@[14]));
        assert("crossed 17 23 90"@.take(7) =~= "crossed"@);
        assert("crossed 17 43 5"@.take(7) =~= "crossed"@);
        assert(record_is_kept(table@[15]));
        assert("planetary 17 17 3"@.take(9) =~= "planetary"@);
        assert(record_is_kept(table@[16]));
        assert("planetstage 12 30 72 3"@.take(11) =~= "planetstage"@);
        assert("planetstage 24 18 60 3"@.take(11) =~= "planetstage"@);
        assert(record_is_kept(table@[17]));
        assert("hula 18 0.2"@.take(4) =~= "hula"@);
        assert(record_is_kept(table@[18]));
        assert("hulaband 18"@.take(8) =~= "hulaband"@);
        assert(record_is_kept(table@[19]));
        assert("meshsweep 60 20 0.8"@.take(9) =~= "meshsweep"@);
        assert(record_is_kept(table@[20]));
        assert("hulasweep 18 0.25"@.take(9) =~= "hulasweep"@);
        assert(record_is_kept(table@[21]));
        assert("verify 100"@.take(6) =~= "verify"@);
        assert(record_is_kept(table@[22]));
        assert("show"@[0] != "dump"@[0]);
        assert("show"@[0] != "worm"@[0]);
        assert("show"@[0] != "hula"@[0]);
        assert("sweep"@[0] != "train"@[0]);
        assert("dump"@[0] != "worm"@[0]);
        assert("dump"@[0] != "hula"@[0]);
        assert("materials"@[0] != "trainfile"@[0]);
        assert("materials"@[0] != "wormstage"@[0]);
        assert("materials"@[0] != "planetary"@[0]);
        assert("materials"@[1] != "meshsweep"@[1]);
        assert("materials"@[0] != "hulasweep"@[0]);
        assert("strength"@[0] != "loadcase"@[0]);
        assert("strength"@[0] != "hulaband"@[0]);
        assert("bending"@[0] != "crossed"@[0]);
        assert("matrix"@[0] != "shifts"@[0]);
        assert("matrix"@[0] != "verify"@[0]);
        assert("loadcase"@[0] != "hulaband"@[0]);
        assert("shifts"@[0] != "verify"@[0]);
        assert("trainfile"@[0] != "wormstage"@[0]);
        assert("trainfile"@[0] != "planetary"@[0]);
        assert("trainfile"@[0] != "meshsweep"@[0]);
        assert("trainfile"@[0] != "hulasweep"@[0]);
        assert("worm"@[0] != "hula"@[0]);
        assert("wormstage"@[0] != "planetary"@[0]);
        assert("wormstage"@[0] != "meshsweep"@[0]);
        assert("wormstage"@[0] != "hulasweep"@[0]);
        assert("planetary"@[0] != "meshsweep"@[0]);
        assert("planetary"@[0] != "hulasweep"@[0]);
        assert("meshsweep"@[0] != "hulasweep"@[0]);
        assert(names_are_unique(table@));
        assert(row_of(table@[0]) =~~= command_rows()[0]);
        assert(row_of(table@[1]) =~~= command_rows()[1]);
        assert(row_of(table@[2]) =~~= command_rows()[2]);
        assert(row_of(table@[3]) =~~= command_rows()[3]);
        assert(row_of(table@[4]) =~~= command_rows()[4]);
        assert(row_of(table@[5]) =~~= command_rows()[5]);
        assert(row_of(table@[6]) =~~= command_rows()[6]);
        assert(row_of(table@[7]) =~~= command_rows()[7]);
        assert(row_of(table@[8]) =~~= command_rows()[8]);
        assert(row_of(table@[9]) =~~= command_rows()[9]);
        assert(row_of(table@[10]) =~~= command_rows()[10]);
        assert(row_of(table@[11]) =~~= command_rows()[11]);
        assert(row_of(table@[12]) =~~= command_rows()[12]);
        assert(row_of(table@[13]) =~~= command_rows()[13]);
        assert(row_of(table@[14]) =~~= command_rows()[14]);
        assert(row_of(table@[15]) =~~= command_rows()[15]);
        assert(row_of(table@[16]) =~~= command_rows()[16]);
        assert(row_of(table@[17]) =~~= command_rows()[17]);
        assert(row_of(table@[18]) =~~= command_rows()[18]);
        assert(row_of(table@[19]) =~~= command_rows()[19]);
        assert(row_of(table@[20]) =~~= command_rows()[20]);
        assert(row_of(table@[21]) =~~= command_rows()[21]);
        assert(row_of(table@[22]) =~~= command_rows()[22]);
    }
    table
}

} // verus!
