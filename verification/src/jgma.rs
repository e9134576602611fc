//! JGMA 116-02 (1983) gear meshing error tolerances.
//!
//! The standard is a **banded lookup table, not a formula**: find the module
//! band, find the pitch-diameter band, read two numbers in micrometres. Nothing
//! is interpolated, because the standard does not interpolate.
//!
//! The document holds two tables, and they are **independent grade scales**: a
//! grade number on one is not the same tolerance as the same number on the
//! other. A class is therefore a scale together with a grade on that scale,
//! and the scale is part of its identity; two scales are never compared.
//!
//! The table is kept as text, one row per cell —
//! `scale,grade,module_lo,module_hi,diameter_lo,diameter_hi,tooth_to_tooth,total`
//! — so it can be diffed against the printed standard. Every figure in it is a
//! decimal with at most three places, and is held here exactly, in
//! thousandths: of a millimetre for the bands, of a micrometre for the errors.

use vstd::prelude::*;
use crate::text::{
    all_space, all_space_range, decimal, find_char, first_index, first_index_is_first, first_index_unique,
    parse_milli, parse_milli_range, parse_u32, parse_u32_range, push_decimal, to_chars,
};

verus! {

/// Which of the standard's two grade scales.
#[derive(Clone, Copy, Debug, PartialEq, Eq, PartialOrd, Ord)]
pub enum Scale {
    /// Grades 0–6, modules 0.2–1.6.
    Fine,
    /// Grades 4–12, modules 1–10.
    Standard,
}

impl Scale {
    /// The scale's name as data files and front ends spell it.
    pub open spec fn spec_name(self) -> Seq<char> {
        match self {
            Scale::Fine => "fine"@,
            Scale::Standard => "standard"@,
        }
    }

    /// The scale's name as a class label capitalises it.
    pub open spec fn spec_title(self) -> Seq<char> {
        match self {
            Scale::Fine => "Fine"@,
            Scale::Standard => "Standard"@,
        }
    }

    pub fn as_str(self) -> (r: &'static str)
        ensures
            r@ == self.spec_name(),
    {
        match self {
            Scale::Fine => "fine",
            Scale::Standard => "standard",
        }
    }
}

/// A tolerance class: a scale together with a grade number on that scale.
#[derive(Clone, Copy, Debug, PartialEq, Eq, PartialOrd, Ord)]
pub struct Class {
    pub scale: Scale,
    pub grade: u8,
}

impl Class {
    /// How a class is written for a reader: the capitalised scale, a space and
    /// the grade, as in `Fine 3`.
    pub open spec fn spec_label(self) -> Seq<char> {
        self.scale.spec_title() + " "@ + decimal(self.grade as nat)
    }

    /// The class written for a reader, as `Fine 3` or `Standard 12`.
    pub fn label(&self) -> (r: String)
        ensures
            r@ == self.spec_label(),
    {
        let mut s = String::new();
        match self.scale {
            Scale::Fine => s.append("Fine"),
            Scale::Standard => s.append("Standard"),
        }
        s.append(" ");
        push_decimal(&mut s, self.grade as u64);
        assert(s@ =~= self.spec_label());
        s
    }
}

/// Allowable composite errors, thousandths of a micrometre.
#[derive(Clone, Copy, Debug, PartialEq, Eq)]
pub struct CompositeError {
    /// Single-tooth (tooth-to-tooth) composite error.
    pub tooth_to_tooth: u64,
    /// Total composite error.
    pub total: u64,
}

/// One cell of the standard: a class, the module and pitch-diameter bands it
/// covers (thousandths of a millimetre, each `[lo, hi)`), and its errors.
#[derive(Clone, Copy, Debug, PartialEq, Eq)]
pub struct Row {
    pub scale: Scale,
    pub grade: u8,
    pub module: (u64, u64),
    pub diameter: (u64, u64),
    pub error: CompositeError,
}

/// A line's fields, split at every comma.
pub open spec fn fields(line: Seq<char>) -> Seq<Seq<char>>
    decreases line.len(),
{
    let i = first_index(line, ',');
    if i >= line.len() {
        seq![line]
    } else {
        proof {
            first_index_is_first(line, ',');
        }
        seq![line.take(i)] + fields(line.skip(i + 1))
    }
}

/// Whether a line is a row at all, rather than a comment, the header, or
/// blank.
pub open spec fn is_row_line(line: Seq<char>) -> bool {
    &&& !(line.len() > 0 && line[0] == '#')
    &&& !(line.len() >= 6 && line.take(6) == "scale,"@)
    &&& !all_space(line)
}

pub open spec fn scale_named(f: Seq<char>) -> Option<Scale> {
    if f == "fine"@ {
        Some(Scale::Fine)
    } else if f == "standard"@ {
        Some(Scale::Standard)
    } else {
        None
    }
}

/// A grade, as `u8`'s parser reads one.
pub open spec fn parse_grade(f: Seq<char>) -> Option<u8> {
    match parse_u32(f) {
        Some(v) => if v <= 255 {
            Some(v as u8)
        } else {
            None
        },
        None => None,
    }
}

/// The row a line holds: eight fields — a scale by name, a grade, and six
/// decimals — or nothing, for a line that is not a row or does not read as
/// one.
pub open spec fn spec_row(line: Seq<char>) -> Option<Row> {
    if !is_row_line(line) {
        None
    } else {
        let f = fields(line);
        if f.len() != 8 {
            None
        } else {
            match (
                scale_named(f[0]),
                parse_grade(f[1]),
                parse_milli(f[2]),
                parse_milli(f[3]),
                parse_milli(f[4]),
                parse_milli(f[5]),
                parse_milli(f[6]),
                parse_milli(f[7]),
            ) {
                (Some(scale), Some(grade), Some(m0), Some(m1), Some(d0), Some(d1), Some(e0), Some(e1)) => {
                    Some(
                        Row {
                            scale,
                            grade,
                            module: (m0, m1),
                            diameter: (d0, d1),
                            error: CompositeError { tooth_to_tooth: e0, total: e1 },
                        },
                    )
                },
                _ => None,
            }
        }
    }
}

/// The first line of a text: up to its first newline, less the carriage
/// return of a `\r\n` ending.
pub open spec fn first_line(text: Seq<char>) -> Seq<char> {
    let i = first_index(text, '\n');
    if i < text.len() && i > 0 && text[i - 1] == '\r' {
        text.take(i - 1)
    } else {
        text.take(i)
    }
}

/// Every row of a table's text, line by line and in order, skipping lines
/// that are not rows.
pub open spec fn spec_table(text: Seq<char>) -> Seq<Row>
    decreases text.len(),
{
    if text.len() == 0 {
        Seq::empty()
    } else {
        let i = first_index(text, '\n');
        let here = match spec_row(first_line(text)) {
            Some(r) => seq![r],
            None => Seq::empty(),
        };
        if i < text.len() {
            proof {
                first_index_is_first(text, '\n');
            }
            here + spec_table(text.skip(i + 1))
        } else {
            here
        }
    }
}

/// The text of each field range.
pub open spec fn range_texts(v: Seq<char>, ranges: Seq<(usize, usize)>) -> Seq<Seq<char>> {
    Seq::new(ranges.len(), |k: int| v.subrange(ranges[k].0 as int, ranges[k].1 as int))
}

/// Where the fields of `v[lo..hi]` lie.
fn field_ranges(v: &Vec<char>, lo: usize, hi: usize) -> (r: Vec<(usize, usize)>)
    requires
        lo <= hi <= v@.len(),
    ensures
        range_texts(v@, r@) == fields(v@.subrange(lo as int, hi as int)),
        forall|k: int| 0 <= k < r@.len() ==> lo <= #[trigger] r@[k].0 <= r@[k].1 <= hi,
{
    let mut out: Vec<(usize, usize)> = Vec::new();
    let mut p: usize = lo;
    loop
        invariant
            lo <= p <= hi,
            hi <= v@.len(),
            forall|k: int| 0 <= k < out@.len() ==> lo <= #[trigger] out@[k].0 <= out@[k].1 <= hi,
            fields(v@.subrange(lo as int, hi as int)) == range_texts(v@, out@) + fields(
                v@.subrange(p as int, hi as int),
            ),
        decreases hi - p,
    {
        let i = find_char(v, p, hi, ',');
        let ghost rest = v@.subrange(p as int, hi as int);
        let ghost before = range_texts(v@, out@);
        if i == hi {
            out.push((p, hi));
            assert(fields(rest) == seq![rest]);
            assert(range_texts(v@, out@) =~= before + seq![rest]);
            return out;
        }
        assert(rest.take(i - p) =~= v@.subrange(p as int, i as int));
        assert(rest.skip(i - p + 1) =~= v@.subrange(i + 1, hi as int));
        out.push((p, i));
        assert(range_texts(v@, out@) =~= before + seq![v@.subrange(p as int, i as int)]);
        p = i + 1;
    }
}

/// The row `v[lo..hi]` holds, if it holds one.
fn parse_row(v: &Vec<char>, lo: usize, hi: usize) -> (r: Option<Row>)
    requires
        lo <= hi <= v@.len(),
    ensures
        r == spec_row(v@.subrange(lo as int, hi as int)),
{
    let ghost line = v@.subrange(lo as int, hi as int);
    if lo < hi && v[lo] == '#' {
        return None;
    }
    if hi - lo >= 6 && v[lo] == 's' && v[lo + 1] == 'c' && v[lo + 2] == 'a' && v[lo + 3] == 'l'
        && v[lo + 4] == 'e' && v[lo + 5] == ',' {
        proof {
            reveal_strlit("scale,");
            assert(line.take(6) =~= "scale,"@);
        }
        return None;
    }
    proof {
        reveal_strlit("scale,");
        if line.len() >= 6 {
            if line.take(6) == "scale,"@ {
                assert(line[0] == line.take(6)[0]);
                assert(line[1] == line.take(6)[1]);
                assert(line[2] == line.take(6)[2]);
                assert(line[3] == line.take(6)[3]);
                assert(line[4] == line.take(6)[4]);
                assert(line[5] == line.take(6)[5]);
            }
        }
    }
    if all_space_range(v, lo, hi) {
        return None;
    }
    let f = field_ranges(v, lo, hi);
    if f.len() != 8 {
        return None;
    }
    let scale = if text_is(v, f[0].0, f[0].1, "fine") {
        Scale::Fine
    } else if text_is(v, f[0].0, f[0].1, "standard") {
        Scale::Standard
    } else {
        return None;
    };
    let grade = match parse_u32_range(v, f[1].0, f[1].1) {
        Some(g) => if g <= 255 {
            g as u8
        } else {
            return None;
        },
        None => return None,
    };
    let m0 = match parse_milli_range(v, f[2].0, f[2].1) {
        Some(x) => x,
        None => return None,
    };
    let m1 = match parse_milli_range(v, f[3].0, f[3].1) {
        Some(x) => x,
        None => return None,
    };
    let d0 = match parse_milli_range(v, f[4].0, f[4].1) {
        Some(x) => x,
        None => return None,
    };
    let d1 = match parse_milli_range(v, f[5].0, f[5].1) {
        Some(x) => x,
        None => return None,
    };
    let e0 = match parse_milli_range(v, f[6].0, f[6].1) {
        Some(x) => x,
        None => return None,
    };
    let e1 = match parse_milli_range(v, f[7].0, f[7].1) {
        Some(x) => x,
        None => return None,
    };
    Some(
        Row {
            scale,
            grade,
            module: (m0, m1),
            diameter: (d0, d1),
            error: CompositeError { tooth_to_tooth: e0, total: e1 },
        },
    )
}

/// Whether `v[lo..hi]` is exactly the text `t`.
fn text_is(v: &Vec<char>, lo: usize, hi: usize, t: &str) -> (r: bool)
    requires
        lo <= hi <= v@.len(),
    ensures
        r == (v@.subrange(lo as int, hi as int) == t@),
{
    let n = t.unicode_len();
    if hi - lo != n {
        return false;
    }
    let mut i: usize = 0;
    while i < n
        invariant
            n == t@.len(),
            hi - lo == n,
            lo <= hi <= v@.len(),
            i <= n,
            forall|j: int| 0 <= j < i ==> v@[lo + j] == t@[j],
        decreases n - i,
    {
        if v[lo + i] != t.get_char(i) {
            assert(v@.subrange(lo as int, hi as int)[i as int] == v@[lo + i]);
            return false;
        }
        i = i + 1;
    }
    assert(v@.subrange(lo as int, hi as int) =~= t@);
    true
}

/// Every row of a table's text, in order.
pub fn parse_table(text: &str) -> (r: Vec<Row>)
    ensures
        r@ == spec_table(text@),
{
    let v = to_chars(text);
    let n = v.len();
    let mut out: Vec<Row> = Vec::new();
    let mut pos: usize = 0;
    assert(v@.skip(0) =~= v@);
    while pos < n
        invariant
            n == v@.len(),
            pos <= n,
            v@ == text@,
            spec_table(text@) == out@ + spec_table(v@.skip(pos as int)),
        decreases n - pos,
    {
        let ghost rest = v@.skip(pos as int);
        assert(rest =~= v@.subrange(pos as int, n as int));
        let i = find_char(&v, pos, n, '\n');
        let end: usize = if i < n && i > pos && v[i - 1] == '\r' {
            i - 1
        } else {
            i
        };
        assert(first_line(rest) =~= v@.subrange(pos as int, end as int));
        let row = parse_row(&v, pos, end);
        let ghost before = out@;
        match row {
            Some(r) => out.push(r),
            None => {},
        }
        if i < n {
            assert(rest.skip(i - pos + 1) =~= v@.skip(i + 1));
            pos = i + 1;
        } else {
            assert(v@.skip(n as int) =~= Seq::<char>::empty());
            pos = n;
        }
        assert(spec_table(text@) =~= out@ + spec_table(v@.skip(pos as int)));
    }
    assert(v@.skip(n as int) =~= Seq::<char>::empty());
    out
}

/// Bands are half-open: `[lo, hi)`.
pub open spec fn in_band(v: u64, band: (u64, u64)) -> bool {
    band.0 <= v && v < band.1
}

/// Whether a cell covers a gear of this module and pitch diameter.
pub open spec fn covers(r: Row, module: u64, pitch_diameter: u64) -> bool {
    in_band(module, r.module) && in_band(pitch_diameter, r.diameter)
}

pub open spec fn class_of(r: Row) -> Class {
    Class { scale: r.scale, grade: r.grade }
}

/// Where a scale sorts: fine before standard.
pub open spec fn scale_rank(s: Scale) -> int {
    match s {
        Scale::Fine => 0,
        Scale::Standard => 1,
    }
}

/// The order classes are offered in: by scale, fine first, then by grade.
pub open spec fn precedes(a: Class, b: Class) -> bool {
    scale_rank(a.scale) < scale_rank(b.scale) || (a.scale == b.scale && a.grade < b.grade)
}

/// The errors of the first cell for this class that covers the gear.
pub open spec fn spec_lookup(table: Seq<Row>, class: Class, module: u64, pitch_diameter: u64) -> Option<
    CompositeError,
>
    decreases table.len(),
{
    if table.len() == 0 {
        None
    } else {
        match spec_lookup(table.drop_last(), class, module, pitch_diameter) {
            Some(e) => Some(e),
            None => if class_of(table.last()) == class && covers(table.last(), module, pitch_diameter) {
                Some(table.last().error)
            } else {
                None
            },
        }
    }
}

fn same_class(a: Class, b: Class) -> (r: bool)
    ensures
        r == (a == b),
{
    let same_scale = match (a.scale, b.scale) {
        (Scale::Fine, Scale::Fine) => true,
        (Scale::Standard, Scale::Standard) => true,
        _ => false,
    };
    same_scale && a.grade == b.grade
}

fn class_precedes(a: Class, b: Class) -> (r: bool)
    ensures
        r == precedes(a, b),
{
    match (a.scale, b.scale) {
        (Scale::Fine, Scale::Standard) => true,
        (Scale::Standard, Scale::Fine) => false,
        _ => a.grade < b.grade,
    }
}

/// Allowable composite errors for a class at a given module and pitch
/// diameter, both in thousandths of a millimetre.
///
/// `None` when the standard has no entry — an out-of-range module or diameter,
/// or a grade that does not exist on that scale. That is a real answer:
/// extrapolating a tolerance table is not a thing one does.
pub fn lookup(table: &Vec<Row>, class: Class, module: u64, pitch_diameter: u64) -> (r: Option<
    CompositeError,
>)
    ensures
        r == spec_lookup(table@, class, module, pitch_diameter),
{
    let mut i: usize = 0;
    while i < table.len()
        invariant
            i <= table@.len(),
            spec_lookup(table@.take(i as int), class, module, pitch_diameter) is None,
        decreases table.len() - i,
    {
        let r = table[i];
        assert(table@.take(i as int + 1).drop_last() =~= table@.take(i as int));
        if same_class(Class { scale: r.scale, grade: r.grade }, class) && r.module.0 <= module
            && module < r.module.1 && r.diameter.0 <= pitch_diameter && pitch_diameter
            < r.diameter.1 {
            proof {
                lemma_lookup_prefix(table@, class, module, pitch_diameter, i as int + 1);
            }
            return Some(r.error);
        }
        i = i + 1;
    }
    assert(table@.take(table@.len() as int) =~= table@);
    None
}

/// An entry found within a prefix of the table is the table's entry.
proof fn lemma_lookup_prefix(table: Seq<Row>, class: Class, module: u64, pitch_diameter: u64, k: int)
    requires
        0 <= k <= table.len(),
        spec_lookup(table.take(k), class, module, pitch_diameter) is Some,
    ensures
        spec_lookup(table, class, module, pitch_diameter) == spec_lookup(
            table.take(k),
            class,
            module,
            pitch_diameter,
        ),
    decreases table.len() - k,
{
    if k < table.len() {
        assert(table.take(k + 1).drop_last() =~= table.take(k));
        lemma_lookup_prefix(table, class, module, pitch_diameter, k + 1);
    } else {
        assert(table.take(k) =~= table);
    }
}

/// **Line endings do not change the rows read**: a line ended by `\r\n`
/// reads exactly as the same line ended by `\n`, whatever follows it, and a
/// last line reads the same with or without its newline; and the rows of a
/// text are the rows of its first line followed by the rows of the rest.
pub proof fn line_endings_do_not_change_the_rows(line: Seq<char>, rest: Seq<char>)
    requires
        forall|j: int| 0 <= j < line.len() ==> #[trigger] line[j] != '\n',
        line.len() == 0 || line.last() != '\r',
    ensures
        spec_table(line + seq!['\r', '\n'] + rest) == spec_table(line + seq!['\n'] + rest),
        spec_table(line + seq!['\n']) == spec_table(line),
        spec_table(line + seq!['\n'] + rest) == spec_table(line) + spec_table(rest),
{
    let n = line.len() as int;
    let crlf = line + seq!['\r', '\n'] + rest;
    let lf = line + seq!['\n'] + rest;
    let last = line + seq!['\n'];
    assert forall|j: int| 0 <= j < n + 1 implies #[trigger] crlf[j] != '\n' by {
        if j < n {
            assert(crlf[j] == line[j]);
        }
    }
    first_index_unique(crlf, '\n', n + 1);
    assert forall|j: int| 0 <= j < n implies #[trigger] lf[j] != '\n' by {
        assert(lf[j] == line[j]);
    }
    first_index_unique(lf, '\n', n);
    assert forall|j: int| 0 <= j < n implies #[trigger] last[j] != '\n' by {
        assert(last[j] == line[j]);
    }
    first_index_unique(last, '\n', n);
    first_index_unique(line, '\n', n);
    assert(crlf.take(n) =~= line);
    assert(crlf.skip(n + 2) =~= rest);
    assert(first_line(crlf) == line);
    if n > 0 {
        assert(lf[n - 1] == line.last());
        assert(last[n - 1] == line.last());
    }
    assert(lf.take(n) =~= line);
    assert(lf.skip(n + 1) =~= rest);
    assert(first_line(lf) == line);
    assert(last.take(n) =~= line);
    assert(last.skip(n + 1) =~= Seq::<char>::empty());
    assert(first_line(last) == line);
    assert(line.take(n) =~= line);
    let here: Seq<Row> = match spec_row(line) {
        Some(r) => seq![r],
        None => Seq::empty(),
    };
    assert(spec_table(Seq::<char>::empty()) =~= Seq::<Row>::empty());
    assert(spec_table(last) =~= here + spec_table(Seq::<char>::empty()));
    assert(here + Seq::<Row>::empty() =~= here);
    if n == 0 {
        assert(!is_row_line(line)) by {
            assert(all_space(line));
        }
        assert(spec_table(line) =~= Seq::<Row>::empty());
    } else {
        assert(spec_table(line) =~= here);
    }    assert(spec_table(lf) =~= here + spec_table(rest));
}

/// Whether row `k` of a table holds a gear of this class, module and pitch
/// diameter, its bands read as `[lo, hi)`.
pub open spec fn holds_gear(table: Seq<Row>, k: int, class: Class, module: u64, pitch_diameter: u64) -> bool {
    &&& table[k].scale == class.scale
    &&& table[k].grade == class.grade
    &&& table[k].module.0 <= module
    &&& module < table[k].module.1
    &&& table[k].diameter.0 <= pitch_diameter
    &&& pitch_diameter < table[k].diameter.1
}

/// **A lookup reads the first cell that holds the gear, and a band never holds
/// its upper bound**: it answers exactly when some row of the class has the
/// module in `[lo, hi)` of its module band and the pitch diameter in `[lo, hi)`
/// of its diameter band, and then answers with the first such row's errors.
pub proof fn lookup_reads_the_first_cell_that_holds_the_gear(
    table: Seq<Row>,
    class: Class,
    module: u64,
    pitch_diameter: u64,
)
    ensures
        spec_lookup(table, class, module, pitch_diameter) is None <==> forall|k: int|
            0 <= k < table.len() ==> !holds_gear(table, k, class, module, pitch_diameter),
        forall|e: CompositeError|
            spec_lookup(table, class, module, pitch_diameter) == Some(e) ==> exists|k: int|
                0 <= k < table.len() && holds_gear(table, k, class, module, pitch_diameter)
                    && #[trigger] table[k].error == e && forall|j: int|
                    0 <= j < k ==> !holds_gear(table, j, class, module, pitch_diameter),
    decreases table.len(),
{
    if table.len() > 0 {
        let rest = table.drop_last();
        let n = table.len() - 1;
        lookup_reads_the_first_cell_that_holds_the_gear(rest, class, module, pitch_diameter);
        assert forall|k: int| 0 <= k < n implies holds_gear(rest, k, class, module, pitch_diameter)
            == holds_gear(table, k, class, module, pitch_diameter) by {
            assert(rest[k] == table[k]);
        }
        assert(holds_gear(table, n, class, module, pitch_diameter) == (class_of(table.last())
            == class && covers(table.last(), module, pitch_diameter)));
        match spec_lookup(rest, class, module, pitch_diameter) {
            Some(e) => {
                let k = choose|k: int|
                    0 <= k < rest.len() && holds_gear(rest, k, class, module, pitch_diameter)
                        && #[trigger] rest[k].error == e && forall|j: int|
                        0 <= j < k ==> !holds_gear(rest, j, class, module, pitch_diameter);
                assert(table[k].error == e);
            },
            None => {
                if holds_gear(table, n, class, module, pitch_diameter) {
                    assert(table[n].error == table.last().error);
                }
            },
        }
    }
}

/// **A class is offered exactly where the standard has an entry for it**:
/// looking a class up succeeds for a gear precisely when that class is among
/// those available for it.
pub proof fn offered_exactly_where_looked_up(table: Seq<Row>, class: Class, module: u64, pitch_diameter: u64)
    ensures
        spec_lookup(table, class, module, pitch_diameter) is Some <==> available(table, class, module, pitch_diameter),
    decreases table.len(),
{
    if table.len() > 0 {
        let rest = table.drop_last();
        offered_exactly_where_looked_up(rest, class, module, pitch_diameter);
        if available(rest, class, module, pitch_diameter) {
            let k = choose|k: int|
                0 <= k < rest.len() && #[trigger] class_of(rest[k]) == class && covers(rest[k], module, pitch_diameter);
            assert(table[k] == rest[k]);
        }
        if available(table, class, module, pitch_diameter) {
            let k = choose|k: int|
                0 <= k < table.len() && #[trigger] class_of(table[k]) == class && covers(table[k], module, pitch_diameter);
            if k < table.len() - 1 {
                assert(rest[k] == table[k]);
            }
        }
    }
}

/// Strictly in the order classes are offered in, so each class once.
pub open spec fn offered_in_order(classes: Seq<Class>) -> bool {
    forall|i: int, j: int| 0 <= i < j < classes.len() ==> precedes(#[trigger] classes[i], #[trigger] classes[j])
}

/// Whether some cell of the table covers the gear in this class.
pub open spec fn available(table: Seq<Row>, class: Class, module: u64, pitch_diameter: u64) -> bool {
    exists|i: int| 0 <= i < table.len() && #[trigger] class_of(table[i]) == class && covers(table[i], module, pitch_diameter)
}

proof fn lemma_precedes_transitive(a: Class, b: Class, c: Class)
    requires
        precedes(a, b),
        precedes(b, c),
    ensures
        precedes(a, c),
{
}

/// Add a class to a list kept in offering order, unless it is there.
fn insert_class(v: &mut Vec<Class>, c: Class)
    requires
        offered_in_order(old(v)@),
    ensures
        offered_in_order(final(v)@),
        forall|x: Class| final(v)@.contains(x) <==> (old(v)@.contains(x) || x == c),
{
    let mut p: usize = 0;
    while p < v.len()
        invariant
            p <= v@.len(),
            v@ == old(v)@,
            offered_in_order(v@),
            forall|j: int| 0 <= j < p ==> precedes(#[trigger] v@[j], c),
        ensures
            p <= v@.len(),
            v@ == old(v)@,
            forall|j: int| 0 <= j < p ==> precedes(#[trigger] v@[j], c),
            p < v@.len() ==> !precedes(v@[p as int], c),
        decreases v.len() - p,
    {
        if !class_precedes(v[p], c) {
            break;
        }
        p = p + 1;
    }
    if p < v.len() && same_class(v[p], c) {
        assert(v@.contains(c));
        return;
    }
    let ghost before = v@;
    proof {
        if p < v@.len() {
            assert(!precedes(v@[p as int], c));
            assert(v@[p as int] != c);
            assert(precedes(c, v@[p as int]));
            assert forall|j: int| p <= j < v@.len() implies precedes(c, #[trigger] v@[j]) by {
                if j > p {
                    lemma_precedes_transitive(c, v@[p as int], v@[j]);
                }
            }
        }
    }
    v.insert(p, c);
    assert(v@ == before.insert(p as int, c));
    assert forall|i: int, j: int| 0 <= i < j < v@.len() implies precedes(
        #[trigger] v@[i],
        #[trigger] v@[j],
    ) by {
        if j < p {
            assert(v@[i] == before[i] && v@[j] == before[j]);
        } else if j == p {
            assert(v@[i] == before[i]);
        } else if i < p {
            assert(v@[i] == before[i] && v@[j] == before[j - 1]);
            lemma_precedes_transitive(before[i], c, before[j - 1]);
        } else if i == p {
            assert(v@[j] == before[j - 1]);
        } else {
            assert(v@[i] == before[i - 1] && v@[j] == before[j - 1]);
        }
    }
    assert forall|x: Class| v@.contains(x) <==> (before.contains(x) || x == c) by {
        if v@.contains(x) {
            let k = choose|k: int| 0 <= k < v@.len() && v@[k] == x;
            if k < p {
                assert(before[k] == x);
            } else if k > p {
                assert(before[k - 1] == x);
            }
        }
        if before.contains(x) {
            let k = choose|k: int| 0 <= k < before.len() && before[k] == x;
            if k < p {
                assert(v@[k] == x);
            } else {
                assert(v@[k + 1] == x);
            }
        }
        if x == c {
            assert(v@[p as int] == c);
        }
    }
}

/// Every class the standard covers for this gear, in offering order: fine
/// scale first, then by grade, each class once.
pub fn available_classes(table: &Vec<Row>, module: u64, pitch_diameter: u64) -> (r: Vec<Class>)
    ensures
        offered_in_order(r@),
        forall|c: Class| r@.contains(c) <==> available(table@, c, module, pitch_diameter),
{
    let mut v: Vec<Class> = Vec::new();
    let mut i: usize = 0;
    while i < table.len()
        invariant
            i <= table@.len(),
            offered_in_order(v@),
            forall|c: Class| v@.contains(c) <==> available(table@.take(i as int), c, module, pitch_diameter),
        decreases table.len() - i,
    {
        let r = table[i];
        let ghost prev = table@.take(i as int);
        let ghost next = table@.take(i as int + 1);
        if r.module.0 <= module && module < r.module.1 && r.diameter.0 <= pitch_diameter
            && pitch_diameter < r.diameter.1 {
            insert_class(&mut v, Class { scale: r.scale, grade: r.grade });
        }
        assert forall|c: Class| v@.contains(c) <==> available(next, c, module, pitch_diameter) by {
            if available(next, c, module, pitch_diameter) {
                let k = choose|k: int|
                    0 <= k < next.len() && #[trigger] class_of(next[k]) == c && covers(next[k], module, pitch_diameter);
                if k < i {
                    assert(prev[k] == next[k]);
                    assert(available(prev, c, module, pitch_diameter));
                }
            }
            if available(prev, c, module, pitch_diameter) {
                let k = choose|k: int|
                    0 <= k < prev.len() && #[trigger] class_of(prev[k]) == c && covers(prev[k], module, pitch_diameter);
                assert(next[k] == prev[k]);
            }
            if covers(r, module, pitch_diameter) && c == class_of(r) {
                assert(next[i as int] == r);
            }
        }
        i = i + 1;
    }
    assert(table@.take(table@.len() as int) =~= table@);
    v
}

/// The class to select when the user has not chosen: **fine scale first, then
/// lowest grade** — decided on scale and grade ordering alone, not on which
/// entry yields the smaller error.
pub fn default_class(table: &Vec<Row>, module: u64, pitch_diameter: u64) -> (r: Option<Class>)
    ensures
        match r {
            Some(c) => available(table@, c, module, pitch_diameter) && forall|d: Class|
                #![trigger available(table@, d, module, pitch_diameter)]
                available(table@, d, module, pitch_diameter) && d != c ==> precedes(c, d),
            None => forall|d: Class| !available(table@, d, module, pitch_diameter),
        },
{
    let v = available_classes(table, module, pitch_diameter);
    if v.len() == 0 {
        proof {
            assert forall|d: Class| !available(table@, d, module, pitch_diameter) by {
                if available(table@, d, module, pitch_diameter) {
                    assert(v@.contains(d));
                }
            }
        }
        None
    } else {
        let c = v[0];
        proof {
            assert(v@.contains(c));
            assert forall|d: Class|
                #![trigger available(table@, d, module, pitch_diameter)]
                available(table@, d, module, pitch_diameter) && d != c implies precedes(c, d) by {
                assert(v@.contains(d));
                let k = choose|k: int| 0 <= k < v@.len() && v@[k] == d;
                assert(k != 0);
            }
        }
        Some(c)
    }
}

} // verus!
