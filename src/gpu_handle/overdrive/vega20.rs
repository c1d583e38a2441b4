//! The format used by Vega20 and newer GPUs: current min/max ranges and a voltage curve.
use super::{
    after_last, check_clockspeed_in_range, in_allowed_range, item_i32, item_usize,
    lemma_table_lines_split, parse_line_index, parse_line_item, push_level_line,
    push_level_value, range_line, range_line_value, range_rejection, table_lines,
    table_lines_step, units_colon, units_mhz, ClocksLevel, Range,
};
use crate::error::{is_not_allowed, message_of, parse_error_at, Error};
use crate::text::{
    clean, contains_seq, contains_str, eq_str, int_text, lines, parse_i32, push_int, push_str,
    same_letter_exec, signed_value, split_lines, split_words, starts_with_str, to_chars,
    to_string, value_in, words,
};
use vstd::prelude::*;

verus! {

/// Vega20 clocks table.
#[derive(Debug, Clone)]
pub struct Table {
    /// The current core clock range.
    pub current_sclk_range: Range,
    /// The current memory clock range. Empty on iGPUs.
    pub current_mclk_range: Range,
    /// The current voltage curve. May be empty if the GPU does not support it.
    pub vddc_curve: Vec<ClocksLevel>,
    /// Voltage offset (in mV) applied on target voltage calculation.
    ///
    /// Note: editing this value directly does not check if it's in the allowed range!
    pub voltage_offset: Option<i32>,
    /// The allowed ranges for clockspeeds and voltages.
    pub od_range: OdRange,
}

/// The ranges for overclocking values which the GPU allows to be used.
#[derive(Debug, Clone, PartialEq, Eq)]
pub struct OdRange {
    /// Clocks range for sclk (in MHz). Should be present on all GPUs.
    pub sclk: Range,
    /// Clocks range for mclk (in MHz). Present on discrete GPUs only.
    pub mclk: Option<Range>,
    /// Frequencies available at specific curve points.
    pub curve_sclk_points: Vec<Range>,
    /// Voltages available at specific curve points.
    pub curve_voltage_points: Vec<Range>,
    /// Allowed voltage offset range. Present on RDNA3+.
    pub voltage_offset: Option<Range>,
}

/// The section of the table that a line belongs to.
#[derive(PartialEq, Eq, Structural, Clone, Copy)]
pub enum Section {
    Sclk,
    Mclk,
    VddcCurve,
    Range,
    VddGfxOffset,
}

/// What the parser has gathered after some lines.
pub struct ParseState {
    pub section: Option<Section>,
    pub current_sclk: Option<Range>,
    pub current_mclk: Option<Range>,
    pub allowed_sclk: Option<Range>,
    pub allowed_mclk: Option<Range>,
    pub curve: Seq<ClocksLevel>,
    pub curve_sclk_points: Seq<Range>,
    pub curve_voltage_points: Seq<Range>,
    pub offset: Option<i32>,
    pub offset_range: Option<Range>,
}

pub open spec fn initial_state() -> ParseState {
    ParseState {
        section: None,
        current_sclk: None,
        current_mclk: None,
        allowed_sclk: None,
        allowed_mclk: None,
        curve: Seq::empty(),
        curve_sclk_points: Seq::empty(),
        curve_voltage_points: Seq::empty(),
        offset: None,
        offset_range: None,
    }
}

/// What a line `INDEX: CLOCK<MHz>` says: the clockspeed and its index.
pub open spec fn clockspeed_line_value(line: Seq<char>) -> Option<(i32, usize)> {
    let w = words(line);
    if item_usize(w, 0, units_colon()) is Some && item_i32(w, 1, units_mhz()) is Some {
        Some((item_i32(w, 1, units_mhz())->0, item_usize(w, 0, units_colon())->0))
    } else {
        None
    }
}

/// A current range after one of its lines: index 0 starts a range at its minimum, index 1
/// sets the maximum.
pub open spec fn min_max_value(cur: Option<Range>, line: Seq<char>) -> Option<Option<Range>> {
    match clockspeed_line_value(line) {
        Some((c, num)) => if num == 0 {
            Some(Some(Range { min: Some(c), max: None }))
        } else if num == 1 {
            match cur {
                Some(r) => Some(Some(Range { min: r.min, max: Some(c) })),
                None => Some(Some(Range { min: None, max: Some(c) })),
            }
        } else {
            None
        },
        None => None,
    }
}

/// What an offset line `VALUE<mV>` says.
pub open spec fn offset_line_value(line: Seq<char>) -> Option<i32> {
    if line.len() >= 2 && super::ends_with_ci(line, "mv"@) {
        match value_in(
            signed_value(line.subrange(0, line.len() - 2)),
            i32::MIN as int,
            i32::MAX as int,
        ) {
            Some(v) => Some(v as i32),
            None => None,
        }
    } else {
        None
    }
}

pub open spec fn starts_with(line: Seq<char>, p: Seq<char>) -> bool {
    p.len() <= line.len() && line.subrange(0, p.len() as int) == p
}

/// Whether a range line describes the clockspeed of a curve point.
pub open spec fn is_curve_sclk_line(line: Seq<char>) -> bool {
    starts_with(line, "VDDC_CURVE_SCLK"@)
}

/// Whether a range line describes the voltage of a curve point.
pub open spec fn is_curve_volt_line(line: Seq<char>) -> bool {
    starts_with(line, "VDDC_CURVE_VOLT"@) || (starts_with(line, "VDDC_CURVE:"@) && contains_seq(
        line,
        "mv"@,
    ))
}

pub open spec fn range_step(st: ParseState, line: Seq<char>) -> Option<ParseState> {
    match range_line_value(line) {
        Some((r, name)) => if is_curve_sclk_line(line) {
            Some(ParseState { curve_sclk_points: st.curve_sclk_points.push(r), ..st })
        } else if is_curve_volt_line(line) {
            Some(ParseState { curve_voltage_points: st.curve_voltage_points.push(r), ..st })
        } else if name == "SCLK"@ {
            Some(ParseState { allowed_sclk: Some(r), ..st })
        } else if name == "MCLK"@ {
            Some(ParseState { allowed_mclk: Some(r), ..st })
        } else if name == "VDDGFX_OFFSET"@ {
            Some(ParseState { offset_range: Some(r), ..st })
        } else {
            None
        },
        None => None,
    }
}

/// The state after one non-empty line, or `None` when the line is rejected.
pub open spec fn parse_step(st: ParseState, line: Seq<char>) -> Option<ParseState> {
    if line == "OD_SCLK:"@ {
        Some(ParseState { section: Some(Section::Sclk), ..st })
    } else if line == "OD_MCLK:"@ {
        Some(ParseState { section: Some(Section::Mclk), ..st })
    } else if line == "OD_RANGE:"@ {
        Some(ParseState { section: Some(Section::Range), ..st })
    } else if line == "OD_VDDC_CURVE:"@ {
        Some(ParseState { section: Some(Section::VddcCurve), ..st })
    } else if line == "OD_VDDGFX_OFFSET:"@ {
        Some(ParseState { section: Some(Section::VddGfxOffset), ..st })
    } else {
        match st.section {
            Some(Section::Range) => range_step(st, line),
            Some(Section::Sclk) => match min_max_value(st.current_sclk, line) {
                Some(r) => Some(ParseState { current_sclk: r, ..st }),
                None => None,
            },
            Some(Section::Mclk) => match min_max_value(st.current_mclk, line) {
                Some(r) => Some(ParseState { current_mclk: r, ..st }),
                None => None,
            },
            Some(Section::VddcCurve) => match push_level_value(st.curve, line) {
                Some(c) => Some(ParseState { curve: c, ..st }),
                None => None,
            },
            Some(Section::VddGfxOffset) => match offset_line_value(line) {
                Some(v) => Some(ParseState { offset: Some(v), ..st }),
                None => None,
            },
            None => None,
        }
    }
}

/// The state after the given non-empty lines, or the 1-based number of the first
/// rejected one.
pub open spec fn parse_fold(ls: Seq<Seq<char>>) -> Result<ParseState, int>
    decreases ls.len(),
{
    if ls.len() == 0 {
        Ok(initial_state())
    } else {
        match parse_fold(ls.drop_last()) {
            Err(l) => Err(l),
            Ok(st) => match parse_step(st, ls.last()) {
                Some(next) => Ok(next),
                None => Err(ls.len() as int),
            },
        }
    }
}

/// The gathered state of a whole text, which must report the allowed and the current
/// sclk range; or the line of the first error.
pub open spec fn parse_table(s: Seq<char>) -> Result<ParseState, int> {
    let ls = table_lines(lines(s));
    match parse_fold(ls) {
        Err(l) => Err(l),
        Ok(st) => if st.allowed_sclk is Some && st.current_sclk is Some {
            Ok(st)
        } else {
            Err(after_last(ls.len() as int))
        },
    }
}

/// Whether `t` is the table that a parsed state describes.
pub open spec fn describes(st: ParseState, t: Table) -> bool {
    &&& Some(t.current_sclk_range) == st.current_sclk
    &&& t.current_mclk_range == (match st.current_mclk {
        Some(r) => r,
        None => Range { min: None, max: None },
    })
    &&& t.vddc_curve@ == st.curve
    &&& t.voltage_offset == st.offset
    &&& Some(t.od_range.sclk) == st.allowed_sclk
    &&& t.od_range.mclk == st.allowed_mclk
    &&& t.od_range.curve_sclk_points@ == st.curve_sclk_points
    &&& t.od_range.curve_voltage_points@ == st.curve_voltage_points
    &&& t.od_range.voltage_offset == st.offset_range
}

proof fn lemma_fold_error_extends(a: Seq<Seq<char>>, b: Seq<Seq<char>>, l: int)
    requires
        parse_fold(a) == Err::<ParseState, int>(l),
    ensures
        parse_fold(a + b) == Err::<ParseState, int>(l),
    decreases b.len(),
{
    if b.len() == 0 {
        assert(a + b =~= a);
    } else {
        lemma_fold_error_extends(a, b.drop_last(), l);
        assert((a + b).drop_last() =~= a + b.drop_last());
    }
}

fn clockspeed_line(line: &[char], i: usize) -> (r: Result<(i32, usize), Error>)
    ensures
        match r {
            Ok(v) => clockspeed_line_value(line@) == Some(v),
            Err(e) => clockspeed_line_value(line@) is None && parse_error_at(e, i as int),
        },
{
    let toks = split_words(line);
    assert(toks@.map_values(|w: Vec<char>| w@) =~= words(line@));
    let colon: [&str; 1] = [":"];
    let mhz: [&str; 1] = ["mhz"];
    assert(colon@ =~= units_colon());
    assert(mhz@ =~= units_mhz());
    let num = parse_line_index(&toks, 0, i, "level number", &colon)?;
    let clockspeed = parse_line_item(&toks, 1, i, "clockspeed", &mhz)?;
    Ok((clockspeed, num))
}

fn min_max_line(line: &[char], i: usize, range: &mut Option<Range>) -> (r: Result<(), Error>)
    ensures
        match r {
            Ok(()) => min_max_value(*old(range), line@) == Some(*final(range)),
            Err(e) => min_max_value(*old(range), line@) is None && parse_error_at(e, i as int),
        },
{
    let (clockspeed, num) = clockspeed_line(line, i)?;
    if num == 0 {
        *range = Some(Range::min(clockspeed));
        Ok(())
    } else if num == 1 {
        match *range {
            Some(r) => {
                *range = Some(Range { min: r.min, max: Some(clockspeed) });
            },
            None => {
                *range = Some(Range::max(clockspeed));
            },
        }
        Ok(())
    } else {
        Err(Error::parse_error("Unexpected range number", i))
    }
}

fn voltage_offset_line(line: &[char], i: usize) -> (r: Result<i32, Error>)
    ensures
        match r {
            Ok(v) => offset_line_value(line@) == Some(v),
            Err(e) => offset_line_value(line@) is None && parse_error_at(e, i as int),
        },
{
    let n = line.len();
    proof {
        reveal_strlit("mv");
    }
    if n >= 2 && same_letter_exec(line[n - 2], 'm') && same_letter_exec(line[n - 1], 'v') {
        assert(super::ends_with_ci(line@, "mv"@));
        let body = crate::text::copy_range(line, 0, n - 2);
        match parse_i32(body.as_slice()) {
            Some(v) => Ok(v),
            None => Err(Error::parse_error("Could not parse the voltage offset", i)),
        }
    } else {
        proof {
            if n >= 2 && super::ends_with_ci(line@, "mv"@) {
                assert("mv"@[0] == 'm');
                assert("mv"@[1] == 'v');
                assert(crate::text::same_letter(line@[n - 2], "mv"@[0]));
                assert(crate::text::same_letter(line@[n - 1], "mv"@[1]));
            }
        }
        Err(Error::parse_error("Could not find expected `mV` suffix in offset line", i))
    }
}

struct Parser {
    section: Option<Section>,
    current_sclk: Option<Range>,
    current_mclk: Option<Range>,
    allowed_sclk: Option<Range>,
    allowed_mclk: Option<Range>,
    curve: Vec<ClocksLevel>,
    curve_sclk_points: Vec<Range>,
    curve_voltage_points: Vec<Range>,
    offset: Option<i32>,
    offset_range: Option<Range>,
}

impl Parser {
    spec fn state(&self) -> ParseState {
        ParseState {
            section: self.section,
            current_sclk: self.current_sclk,
            current_mclk: self.current_mclk,
            allowed_sclk: self.allowed_sclk,
            allowed_mclk: self.allowed_mclk,
            curve: self.curve@,
            curve_sclk_points: self.curve_sclk_points@,
            curve_voltage_points: self.curve_voltage_points@,
            offset: self.offset,
            offset_range: self.offset_range,
        }
    }

    fn feed_range(&mut self, line: &[char], n: usize) -> (r: Result<(), Error>)
        ensures
            match r {
                Ok(()) => range_step(old(self).state(), line@) == Some(final(self).state()),
                Err(e) => range_step(old(self).state(), line@) is None && parse_error_at(e, n as int),
            },
    {
        let (range, name) = range_line(line, n)?;
        if starts_with_str(line, "VDDC_CURVE_SCLK") {
            self.curve_sclk_points.push(range);
            Ok(())
        } else if starts_with_str(line, "VDDC_CURVE_VOLT") || (starts_with_str(line, "VDDC_CURVE:")
            && contains_str(line, "mv")) {
            self.curve_voltage_points.push(range);
            Ok(())
        } else if eq_str(name.as_slice(), "SCLK") {
            self.allowed_sclk = Some(range);
            Ok(())
        } else if eq_str(name.as_slice(), "MCLK") {
            self.allowed_mclk = Some(range);
            Ok(())
        } else if eq_str(name.as_slice(), "VDDGFX_OFFSET") {
            self.offset_range = Some(range);
            Ok(())
        } else {
            Err(Error::parse_error("Unexpected range item", n))
        }
    }

    fn feed(&mut self, line: &[char], n: usize) -> (r: Result<(), Error>)
        ensures
            match r {
                Ok(()) => parse_step(old(self).state(), line@) == Some(final(self).state()),
                Err(e) => parse_step(old(self).state(), line@) is None && parse_error_at(e, n as int),
            },
    {
        if eq_str(line, "OD_SCLK:") {
            self.section = Some(Section::Sclk);
            return Ok(());
        }
        if eq_str(line, "OD_MCLK:") {
            self.section = Some(Section::Mclk);
            return Ok(());
        }
        if eq_str(line, "OD_RANGE:") {
            self.section = Some(Section::Range);
            return Ok(());
        }
        if eq_str(line, "OD_VDDC_CURVE:") {
            self.section = Some(Section::VddcCurve);
            return Ok(());
        }
        if eq_str(line, "OD_VDDGFX_OFFSET:") {
            self.section = Some(Section::VddGfxOffset);
            return Ok(());
        }
        match self.section {
            Some(Section::Range) => self.feed_range(line, n),
            Some(Section::Sclk) => min_max_line(line, n, &mut self.current_sclk),
            Some(Section::Mclk) => min_max_line(line, n, &mut self.current_mclk),
            Some(Section::VddcCurve) => push_level_line(line, &mut self.curve, n),
            Some(Section::VddGfxOffset) => {
                let v = voltage_offset_line(line, n)?;
                self.offset = Some(v);
                Ok(())
            },
            None => Err(Error::parse_error("Unexpected line without section", n)),
        }
    }
}

/// `v` moved into `range` where a bound is known.
pub open spec fn normalized(v: i32, range: Range) -> i32 {
    let a = match range.min {
        Some(lo) => if lo > v {
            lo
        } else {
            v
        },
        None => v,
    };
    match range.max {
        Some(hi) => if hi < a {
            hi
        } else {
            a
        },
        None => a,
    }
}

/// Moves `value` into `range`: up to its minimum, then down to its maximum.
pub fn normalize_value(value: i32, range: Range) -> (r: i32)
    ensures
        r == normalized(value, range),
{
    let mut value = value;
    if let Some(min_allowed) = range.min {
        if min_allowed > value {
            value = min_allowed;
        }
    }
    if let Some(max_allowed) = range.max {
        if max_allowed < value {
            value = max_allowed;
        }
    }
    value
}

/// The curve with every point moved into the allowed ranges reported for its index.
pub open spec fn normalized_curve(curve: Seq<ClocksLevel>, sclk_points: Seq<Range>, voltage_points: Seq<Range>) -> Seq<ClocksLevel> {
    Seq::new(
        curve.len(),
        |k: int|
            ClocksLevel {
                clockspeed: if k < sclk_points.len() {
                    normalized(curve[k].clockspeed, sclk_points[k])
                } else {
                    curve[k].clockspeed
                },
                voltage: if k < voltage_points.len() {
                    normalized(curve[k].voltage, voltage_points[k])
                } else {
                    curve[k].voltage
                },
            },
    )
}

/// Normalizing twice gives what normalizing once gives, for any value and range.
pub proof fn lemma_normalized_idempotent(v: i32, range: Range)
    ensures
        normalized(normalized(v, range), range) == normalized(v, range),
{
}

/// Normalizing a curve is idempotent.
pub proof fn lemma_normalized_curve_idempotent(
    curve: Seq<ClocksLevel>,
    sclk_points: Seq<Range>,
    voltage_points: Seq<Range>,
)
    ensures
        normalized_curve(normalized_curve(curve, sclk_points, voltage_points), sclk_points, voltage_points)
            == normalized_curve(curve, sclk_points, voltage_points),
{
    let once = normalized_curve(curve, sclk_points, voltage_points);
    let twice = normalized_curve(once, sclk_points, voltage_points);
    assert forall|k: int| 0 <= k < curve.len() implies #[trigger] twice[k] == once[k] by {
        if k < sclk_points.len() {
            lemma_normalized_idempotent(curve[k].clockspeed, sclk_points[k]);
        }
        if k < voltage_points.len() {
            lemma_normalized_idempotent(curve[k].voltage, voltage_points[k]);
        }
    }
    assert(twice =~= once);
}

// ---------------------------------------------------------------------------
// Commands
/// `<symbol> <index> <clockspeed>`
pub open spec fn clock_command(symbol: char, index: int, clockspeed: int) -> Seq<char> {
    seq![symbol, ' '] + int_text(index) + seq![' '] + int_text(clockspeed)
}

pub open spec fn optional_clock_command(symbol: char, index: int, v: Option<i32>) -> Seq<Seq<char>> {
    match v {
        Some(c) => seq![clock_command(symbol, index, c as int)],
        None => Seq::empty(),
    }
}

/// Whether the new minimum lies above the maximum that the driver holds now, so that the
/// new maximum has to be written first.
pub open spec fn raises_min_over_old_max(current: Range, previous: Range) -> bool {
    match (current.min, previous.max) {
        (Some(new_min), Some(old_max)) => new_min > old_max,
        _ => false,
    }
}

/// The commands for one clock domain: the new maximum first when the new minimum lies
/// above the old maximum, then the minimum and the maximum; unknown values are skipped.
pub open spec fn domain_commands(symbol: char, current: Range, previous: Range) -> Seq<Seq<char>> {
    (if raises_min_over_old_max(current, previous) {
        optional_clock_command(symbol, 1, current.max)
    } else {
        Seq::empty()
    }) + optional_clock_command(symbol, 0, current.min) + optional_clock_command(
        symbol,
        1,
        current.max,
    )
}

/// `vc <index> <clockspeed> <voltage>`
pub open spec fn curve_command(index: int, l: ClocksLevel) -> Seq<char> {
    seq!['v', 'c', ' '] + int_text(index) + seq![' '] + int_text(l.clockspeed as int) + seq![' ']
        + int_text(l.voltage as int)
}

pub open spec fn curve_commands(curve: Seq<ClocksLevel>) -> Seq<Seq<char>> {
    Seq::new(curve.len(), |k: int| curve_command(k, curve[k]))
}

/// `vo <offset>`
pub open spec fn offset_command(offset: int) -> Seq<char> {
    seq!['v', 'o', ' '] + int_text(offset)
}

pub open spec fn offset_commands(offset: Option<i32>) -> Seq<Seq<char>> {
    match offset {
        Some(v) => seq![offset_command(v as int)],
        None => Seq::empty(),
    }
}

/// The commands that bring the driver from the `previous` table to `t`: sclk, mclk, the
/// voltage curve, then the voltage offset.
pub open spec fn table_commands(t: Table, previous: Table) -> Seq<Seq<char>> {
    domain_commands('s', t.current_sclk_range, previous.current_sclk_range) + domain_commands(
        'm',
        t.current_mclk_range,
        previous.current_mclk_range,
    ) + curve_commands(t.vddc_curve@) + offset_commands(t.voltage_offset)
}

fn clock_line_text(symbol: char, index: usize, clockspeed: i32) -> (r: String)
    ensures
        r@ == clock_command(symbol, index as int, clockspeed as int),
{
    let mut out: Vec<char> = Vec::new();
    out.push(symbol);
    out.push(' ');
    crate::text::push_u64(&mut out, index as u64);
    out.push(' ');
    push_int(&mut out, clockspeed as i64);
    assert(out@ =~= clock_command(symbol, index as int, clockspeed as int));
    to_string(out.as_slice())
}

fn push_optional_clock(out: &mut Vec<String>, symbol: char, index: usize, v: Option<i32>)
    ensures
        final(out)@.map_values(|s: String| s@) == old(out)@.map_values(|s: String| s@)
            + optional_clock_command(symbol, index as int, v),
{
    if let Some(c) = v {
        let line = clock_line_text(symbol, index, c);
        out.push(line);
        assert(out@.map_values(|s: String| s@) =~= old(out)@.map_values(|s: String| s@)
            + optional_clock_command(symbol, index as int, v));
    } else {
        assert(out@.map_values(|s: String| s@) =~= old(out)@.map_values(|s: String| s@)
            + optional_clock_command(symbol, index as int, v));
    }
}

fn push_domain(out: &mut Vec<String>, symbol: char, current: Range, previous: Range)
    ensures
        final(out)@.map_values(|s: String| s@) == old(out)@.map_values(|s: String| s@)
            + domain_commands(symbol, current, previous),
{
    let ghost start = out@.map_values(|s: String| s@);
    let raise = match (current.min, previous.max) {
        (Some(new_min), Some(old_max)) => new_min > old_max,
        _ => false,
    };
    if raise {
        push_optional_clock(out, symbol, 1, current.max);
    }
    let ghost first = out@.map_values(|s: String| s@);
    assert(first == start + (if raises_min_over_old_max(current, previous) {
        optional_clock_command(symbol, 1, current.max)
    } else {
        Seq::empty()
    })) by {
        if !raise {
            assert(start + Seq::<Seq<char>>::empty() =~= start);
        }
    }
    push_optional_clock(out, symbol, 0, current.min);
    push_optional_clock(out, symbol, 1, current.max);
    assert(out@.map_values(|s: String| s@) =~= start + domain_commands(symbol, current, previous));
}

impl Table {
    /// Parses the table from the text of `pp_od_clk_voltage`.
    pub fn from_str(s: &str) -> (r: Result<Self, Error>)
        ensures
            match r {
                Ok(t) => parse_table(s@) matches Ok(st) && describes(st, t),
                Err(e) => parse_table(s@) matches Err(l) && parse_error_at(e, l),
            },
    {
        let chars = to_chars(s);
        let raw = split_lines(chars.as_slice());
        let ghost ls = lines(s@);
        let mut p = Parser {
            section: None,
            current_sclk: None,
            current_mclk: None,
            allowed_sclk: None,
            allowed_mclk: None,
            curve: Vec::new(),
            curve_sclk_points: Vec::new(),
            curve_voltage_points: Vec::new(),
            offset: None,
            offset_range: None,
        };
        let mut n: usize = 0;
        let mut k: usize = 0;
        while k < raw.len()
            invariant
                ls == lines(s@),
                raw@.len() == ls.len(),
                forall|j: int| 0 <= j < raw@.len() ==> #[trigger] raw@[j]@ == ls[j],
                k <= raw@.len(),
                n == table_lines(ls.subrange(0, k as int)).len(),
                n <= k,
                parse_fold(table_lines(ls.subrange(0, k as int))) == Ok::<ParseState, int>(p.state()),
            decreases raw@.len() - k,
        {
            let line = clean(raw[k].as_slice());
            proof {
                table_lines_step(ls, k as int);
            }
            let ghost q = table_lines(ls.subrange(0, k as int));
            proof {
                assert(q.push(line@).drop_last() =~= q);
            }
            if line.len() > 0 {
                n += 1;
                match p.feed(line.as_slice(), n) {
                    Ok(()) => {},
                    Err(e) => {
                        proof {
                            let len = ls.len() as int;
                            assert(table_lines(ls.subrange(0, k + 1)) == q.push(line@));
                            lemma_table_lines_split(ls, k + 1);
                            lemma_fold_error_extends(
                                table_lines(ls.subrange(0, k + 1)),
                                table_lines(ls.subrange(k + 1, len)),
                                n as int,
                            );
                        }
                        return Err(e);
                    },
                }
            }
            k += 1;
        }
        assert(ls.subrange(0, k as int) =~= ls);
        let at = if n < usize::MAX {
            n + 1
        } else {
            n
        };
        let sclk = match p.allowed_sclk {
            Some(r) => r,
            None => {
                return Err(Error::parse_error("No sclk range found", at));
            },
        };
        let current_sclk_range = match p.current_sclk {
            Some(r) => r,
            None => {
                return Err(Error::parse_error("No current sclk range found", at));
            },
        };
        let current_mclk_range = match p.current_mclk {
            Some(r) => r,
            None => Range::empty(),
        };
        Ok(Table {
            current_sclk_range,
            current_mclk_range,
            vddc_curve: p.curve,
            voltage_offset: p.offset,
            od_range: OdRange {
                sclk,
                mclk: p.allowed_mclk,
                curve_sclk_points: p.curve_sclk_points,
                curve_voltage_points: p.curve_voltage_points,
                voltage_offset: p.offset_range,
            },
        })
    }

    /// Gets the core clock range usable at the highest power level: that of the last curve
    /// point, or the general sclk range.
    pub fn get_max_sclk_range(&self) -> (r: Option<Range>)
        ensures
            r == Some(max_sclk_range_of(*self)),
    {
        let n = self.od_range.curve_sclk_points.len();
        if n > 0 {
            Some(self.od_range.curve_sclk_points[n - 1])
        } else {
            Some(self.od_range.sclk)
        }
    }

    /// Gets the core clock range usable at the lowest power level: that of the first curve
    /// point, or the general sclk range.
    pub fn get_min_sclk_range(&self) -> (r: Option<Range>)
        ensures
            r == Some(min_sclk_range_of(*self)),
    {
        let n = self.od_range.curve_sclk_points.len();
        if n > 0 {
            Some(self.od_range.curve_sclk_points[0])
        } else {
            Some(self.od_range.sclk)
        }
    }

    /// Gets the memory clock range usable at the highest power level.
    pub fn get_max_mclk_range(&self) -> (r: Option<Range>)
        ensures
            r == self.od_range.mclk,
    {
        self.od_range.mclk
    }

    /// Gets the memory clock range usable at the lowest power level.
    pub fn get_min_mclk_range(&self) -> (r: Option<Range>)
        ensures
            r == self.od_range.mclk,
    {
        self.od_range.mclk
    }

    /// Gets the voltage range of the last curve point.
    pub fn get_max_voltage_range(&self) -> (r: Option<Range>)
        ensures
            r == max_voltage_range_of(*self),
    {
        let n = self.od_range.curve_voltage_points.len();
        if n > 0 {
            Some(self.od_range.curve_voltage_points[n - 1])
        } else {
            None
        }
    }

    /// Gets the voltage range of the first curve point.
    pub fn get_min_voltage_range(&self) -> (r: Option<Range>)
        ensures
            r == min_voltage_range_of(*self),
    {
        let n = self.od_range.curve_voltage_points.len();
        if n > 0 {
            Some(self.od_range.curve_voltage_points[0])
        } else {
            None
        }
    }

    /// Gets the voltages of the first and last curve points.
    pub fn get_current_voltage_range(&self) -> (r: Option<Range>)
        ensures
            r == (if self.vddc_curve@.len() > 0 {
                Some(
                    Range {
                        min: Some(self.vddc_curve@[0].voltage),
                        max: Some(self.vddc_curve@.last().voltage),
                    },
                )
            } else {
                None
            }),
    {
        let n = self.vddc_curve.len();
        if n > 0 {
            Some(Range::full(self.vddc_curve[0].voltage, self.vddc_curve[n - 1].voltage))
        } else {
            None
        }
    }

    /// Gets the current range of values for core clocks.
    pub fn get_current_sclk_range(&self) -> (r: Range)
        ensures
            r == self.current_sclk_range,
    {
        self.current_sclk_range
    }

    /// Gets the current range of values for memory clocks.
    pub fn get_current_mclk_range(&self) -> (r: Range)
        ensures
            r == self.current_mclk_range,
    {
        self.current_mclk_range
    }

    /// Gets the current maximum core clock.
    pub fn get_max_sclk(&self) -> (r: Option<i32>)
        ensures
            r == self.current_sclk_range.max,
    {
        self.current_sclk_range.max
    }

    /// Gets the current maximum memory clock.
    pub fn get_max_mclk(&self) -> (r: Option<i32>)
        ensures
            r == self.current_mclk_range.max,
    {
        self.current_mclk_range.max
    }

    /// Gets the voltage of the last curve point.
    pub fn get_max_sclk_voltage(&self) -> (r: Option<i32>)
        ensures
            r == (if self.vddc_curve@.len() > 0 {
                Some(self.vddc_curve@.last().voltage)
            } else {
                None
            }),
    {
        let n = self.vddc_curve.len();
        if n > 0 {
            Some(self.vddc_curve[n - 1].voltage)
        } else {
            None
        }
    }

    /// Sets the maximum core clock, and the clockspeed of the last curve point with it.
    pub fn set_max_sclk_unchecked(&mut self, clockspeed: i32) -> (r: Result<(), Error>)
        ensures
            r is Ok,
            after_set(*old(self), *final(self), super::Setting::MaxSclk, clockspeed),
    {
        self.current_sclk_range.max = Some(clockspeed);
        let n = self.vddc_curve.len();
        if n > 0 {
            let p = self.vddc_curve[n - 1];
            self.vddc_curve.set(n - 1, ClocksLevel { clockspeed, voltage: p.voltage });
        }
        Ok(())
    }

    /// Sets the minimum core clock, and the clockspeed of the first curve point with it.
    pub fn set_min_sclk_unchecked(&mut self, clockspeed: i32) -> (r: Result<(), Error>)
        ensures
            r is Ok,
            after_set(*old(self), *final(self), super::Setting::MinSclk, clockspeed),
    {
        self.current_sclk_range.min = Some(clockspeed);
        let n = self.vddc_curve.len();
        if n > 0 {
            let p = self.vddc_curve[0];
            self.vddc_curve.set(0, ClocksLevel { clockspeed, voltage: p.voltage });
        }
        Ok(())
    }

    /// Sets the maximum memory clock.
    pub fn set_max_mclk_unchecked(&mut self, clockspeed: i32) -> (r: Result<(), Error>)
        ensures
            r is Ok,
            after_set(*old(self), *final(self), super::Setting::MaxMclk, clockspeed),
    {
        self.current_mclk_range.max = Some(clockspeed);
        Ok(())
    }

    /// Sets the minimum memory clock.
    pub fn set_min_mclk_unchecked(&mut self, clockspeed: i32) -> (r: Result<(), Error>)
        ensures
            r is Ok,
            after_set(*old(self), *final(self), super::Setting::MinMclk, clockspeed),
    {
        self.current_mclk_range.min = Some(clockspeed);
        Ok(())
    }

    /// Sets the voltage of the last curve point; fails when there is no curve.
    pub fn set_max_voltage_unchecked(&mut self, voltage: i32) -> (r: Result<(), Error>)
        ensures
            r is Ok <==> old(self).vddc_curve@.len() > 0,
            r is Ok ==> after_set(*old(self), *final(self), super::Setting::MaxVoltage, voltage),
            r matches Err(e) ==> is_not_allowed(e) && unchanged(*old(self), *final(self)),
    {
        let n = self.vddc_curve.len();
        if n == 0 {
            return Err(no_curve_error());
        }
        let p = self.vddc_curve[n - 1];
        self.vddc_curve.set(n - 1, ClocksLevel { clockspeed: p.clockspeed, voltage });
        Ok(())
    }

    /// Sets the voltage of the first curve point; fails when there is no curve.
    pub fn set_min_voltage_unchecked(&mut self, voltage: i32) -> (r: Result<(), Error>)
        ensures
            r is Ok <==> old(self).vddc_curve@.len() > 0,
            r is Ok ==> after_set(*old(self), *final(self), super::Setting::MinVoltage, voltage),
            r matches Err(e) ==> is_not_allowed(e) && unchanged(*old(self), *final(self)),
    {
        let n = self.vddc_curve.len();
        if n == 0 {
            return Err(no_curve_error());
        }
        let p = self.vddc_curve[0];
        self.vddc_curve.set(0, ClocksLevel { clockspeed: p.clockspeed, voltage });
        Ok(())
    }

    /// Sets the maximum core clock if the range reported for it allows it.
    pub fn set_max_sclk(&mut self, clockspeed: i32) -> (r: Result<(), Error>)
        ensures
            r is Ok <==> in_allowed_range(Some(max_sclk_range_of(*old(self))), clockspeed as int),
            r is Ok ==> after_set(*old(self), *final(self), super::Setting::MaxSclk, clockspeed),
            r matches Err(e) ==> is_not_allowed(e) && unchanged(*old(self), *final(self))
                && message_of(e) == range_rejection(Some(max_sclk_range_of(*old(self))), clockspeed as int),
    {
        check_clockspeed_in_range(self.get_max_sclk_range(), clockspeed)?;
        self.set_max_sclk_unchecked(clockspeed)
    }

    /// Sets the minimum core clock if the range reported for it allows it.
    pub fn set_min_sclk(&mut self, clockspeed: i32) -> (r: Result<(), Error>)
        ensures
            r is Ok <==> in_allowed_range(Some(min_sclk_range_of(*old(self))), clockspeed as int),
            r is Ok ==> after_set(*old(self), *final(self), super::Setting::MinSclk, clockspeed),
            r matches Err(e) ==> is_not_allowed(e) && unchanged(*old(self), *final(self))
                && message_of(e) == range_rejection(Some(min_sclk_range_of(*old(self))), clockspeed as int),
    {
        check_clockspeed_in_range(self.get_min_sclk_range(), clockspeed)?;
        self.set_min_sclk_unchecked(clockspeed)
    }

    /// Sets the maximum memory clock if the reported mclk range allows it.
    pub fn set_max_mclk(&mut self, clockspeed: i32) -> (r: Result<(), Error>)
        ensures
            r is Ok <==> in_allowed_range(old(self).od_range.mclk, clockspeed as int),
            r is Ok ==> after_set(*old(self), *final(self), super::Setting::MaxMclk, clockspeed),
            r matches Err(e) ==> is_not_allowed(e) && unchanged(*old(self), *final(self))
                && message_of(e) == range_rejection(old(self).od_range.mclk, clockspeed as int),
    {
        check_clockspeed_in_range(self.get_max_mclk_range(), clockspeed)?;
        self.set_max_mclk_unchecked(clockspeed)
    }

    /// Sets the minimum memory clock if the reported mclk range allows it.
    pub fn set_min_mclk(&mut self, clockspeed: i32) -> (r: Result<(), Error>)
        ensures
            r is Ok <==> in_allowed_range(old(self).od_range.mclk, clockspeed as int),
            r is Ok ==> after_set(*old(self), *final(self), super::Setting::MinMclk, clockspeed),
            r matches Err(e) ==> is_not_allowed(e) && unchanged(*old(self), *final(self))
                && message_of(e) == range_rejection(old(self).od_range.mclk, clockspeed as int),
    {
        check_clockspeed_in_range(self.get_min_mclk_range(), clockspeed)?;
        self.set_min_mclk_unchecked(clockspeed)
    }

    /// Sets the voltage of the last curve point if the range reported for it allows it.
    pub fn set_max_voltage(&mut self, voltage: i32) -> (r: Result<(), Error>)
        ensures
            r is Ok <==> in_allowed_range(max_voltage_range_of(*old(self)), voltage as int)
                && old(self).vddc_curve@.len() > 0,
            r is Ok ==> after_set(*old(self), *final(self), super::Setting::MaxVoltage, voltage),
            r matches Err(e) ==> is_not_allowed(e) && unchanged(*old(self), *final(self)),
            !in_allowed_range(max_voltage_range_of(*old(self)), voltage as int) ==> (r matches Err(e)
                && message_of(e) == range_rejection(max_voltage_range_of(*old(self)), voltage as int)),
    {
        check_clockspeed_in_range(self.get_max_voltage_range(), voltage)?;
        self.set_max_voltage_unchecked(voltage)
    }

    /// Sets the voltage of the first curve point if the range reported for it allows it.
    pub fn set_min_voltage(&mut self, voltage: i32) -> (r: Result<(), Error>)
        ensures
            r is Ok <==> in_allowed_range(min_voltage_range_of(*old(self)), voltage as int)
                && old(self).vddc_curve@.len() > 0,
            r is Ok ==> after_set(*old(self), *final(self), super::Setting::MinVoltage, voltage),
            r matches Err(e) ==> is_not_allowed(e) && unchanged(*old(self), *final(self)),
            !in_allowed_range(min_voltage_range_of(*old(self)), voltage as int) ==> (r matches Err(e)
                && message_of(e) == range_rejection(min_voltage_range_of(*old(self)), voltage as int)),
    {
        check_clockspeed_in_range(self.get_min_voltage_range(), voltage)?;
        self.set_min_voltage_unchecked(voltage)
    }

    /// Sets the voltage offset, checking it against the offset range when the GPU reports
    /// one with both bounds.
    pub fn set_voltage_offset(&mut self, offset: i32) -> (r: Result<(), Error>)
        ensures
            r is Ok <==> offset_allowed(old(self).od_range.voltage_offset, offset as int),
            r is Ok ==> final(self).voltage_offset == Some(offset) && final(self).current_sclk_range
                == old(self).current_sclk_range && final(self).current_mclk_range
                == old(self).current_mclk_range && final(self).vddc_curve@ == old(self).vddc_curve@
                && final(self).od_range == old(self).od_range,
            r matches Err(e) ==> is_not_allowed(e) && unchanged(*old(self), *final(self))
                && (old(self).od_range.voltage_offset matches Some(range) && message_of(e)
                == offset_rejection(offset as int, range.min->0 as int, range.max->0 as int)),
    {
        if let Some(offset_range) = self.od_range.voltage_offset {
            if let Some((min, max)) = offset_range.into_full() {
                if !(min <= offset && offset <= max) {
                    let mut msg: Vec<char> = Vec::new();
                    push_str(&mut msg, "Provided voltage offset ");
                    push_int(&mut msg, offset as i64);
                    push_str(&mut msg, " is out of range, should be between ");
                    push_int(&mut msg, min as i64);
                    push_str(&mut msg, " and ");
                    push_int(&mut msg, max as i64);
                    return Err(Error::not_allowed(to_string(msg.as_slice())));
                }
            }
        }
        self.voltage_offset = Some(offset);
        Ok(())
    }

    /// Clears the values that a write would apply: both current clock ranges and the
    /// voltage offset. The allowed ranges and the voltage curve stay.
    pub fn clear(&mut self)
        ensures
            final(self).current_sclk_range == (Range { min: None, max: None }),
            final(self).current_mclk_range == (Range { min: None, max: None }),
            final(self).voltage_offset is None,
            final(self).vddc_curve@ == old(self).vddc_curve@,
            final(self).od_range == old(self).od_range,
    {
        self.current_sclk_range = Range::empty();
        self.current_mclk_range = Range::empty();
        self.voltage_offset = None;
    }

    /// Moves every curve point into the ranges reported for its index.
    pub fn normalize_vddc_curve(&mut self)
        ensures
            final(self).vddc_curve@ == normalized_curve(
                old(self).vddc_curve@,
                old(self).od_range.curve_sclk_points@,
                old(self).od_range.curve_voltage_points@,
            ),
            final(self).current_sclk_range == old(self).current_sclk_range,
            final(self).current_mclk_range == old(self).current_mclk_range,
            final(self).voltage_offset == old(self).voltage_offset,
            final(self).od_range == old(self).od_range,
    {
        let n = self.vddc_curve.len();
        let ghost target = normalized_curve(
            self.vddc_curve@,
            self.od_range.curve_sclk_points@,
            self.od_range.curve_voltage_points@,
        );
        let mut k: usize = 0;
        while k < n
            invariant
                n == self.vddc_curve@.len(),
                n == old(self).vddc_curve@.len(),
                k <= n,
                self.od_range == old(self).od_range,
                self.current_sclk_range == old(self).current_sclk_range,
                self.current_mclk_range == old(self).current_mclk_range,
                self.voltage_offset == old(self).voltage_offset,
                target == normalized_curve(
                    old(self).vddc_curve@,
                    old(self).od_range.curve_sclk_points@,
                    old(self).od_range.curve_voltage_points@,
                ),
                forall|j: int| 0 <= j < k ==> self.vddc_curve@[j] == target[j],
                forall|j: int| k <= j < n ==> self.vddc_curve@[j] == old(self).vddc_curve@[j],
            decreases n - k,
        {
            let point = self.vddc_curve[k];
            let clockspeed = if k < self.od_range.curve_sclk_points.len() {
                normalize_value(point.clockspeed, self.od_range.curve_sclk_points[k])
            } else {
                point.clockspeed
            };
            let voltage = if k < self.od_range.curve_voltage_points.len() {
                normalize_value(point.voltage, self.od_range.curve_voltage_points[k])
            } else {
                point.voltage
            };
            self.vddc_curve.set(k, ClocksLevel { clockspeed, voltage });
            k += 1;
        }
        assert(self.vddc_curve@ =~= target);
    }

    /// The commands that bring the driver from `previous` to this table.
    pub fn commands_from(&self, previous: &Table) -> (r: Vec<String>)
        ensures
            r@.map_values(|s: String| s@) == table_commands(*self, *previous),
    {
        let mut out: Vec<String> = Vec::new();
        assert(out@.map_values(|s: String| s@) =~= Seq::<Seq<char>>::empty());
        push_domain(&mut out, 's', self.current_sclk_range, previous.current_sclk_range);
        push_domain(&mut out, 'm', self.current_mclk_range, previous.current_mclk_range);
        let ghost head = out@.map_values(|s: String| s@);
        let n = self.vddc_curve.len();
        let mut k: usize = 0;
        while k < n
            invariant
                n == self.vddc_curve@.len(),
                k <= n,
                out@.map_values(|s: String| s@) == head + curve_commands(self.vddc_curve@).subrange(
                    0,
                    k as int,
                ),
            decreases n - k,
        {
            let point = self.vddc_curve[k];
            let mut line: Vec<char> = Vec::new();
            push_str(&mut line, "vc ");
            crate::text::push_u64(&mut line, k as u64);
            line.push(' ');
            push_int(&mut line, point.clockspeed as i64);
            line.push(' ');
            push_int(&mut line, point.voltage as i64);
            proof {
                reveal_strlit("vc ");
                assert(line@ =~= curve_command(k as int, point));
            }
            let text = to_string(line.as_slice());
            let ghost before = out@;
            out.push(text);
            assert(out@.map_values(|s: String| s@) =~= before.map_values(|s: String| s@).push(
                text@,
            ));
            assert(curve_commands(self.vddc_curve@).subrange(0, k + 1) =~= curve_commands(
                self.vddc_curve@,
            ).subrange(0, k as int).push(curve_command(k as int, self.vddc_curve@[k as int])));
            k += 1;
            assert(out@.map_values(|s: String| s@) =~= head + curve_commands(
                self.vddc_curve@,
            ).subrange(0, k as int));
        }
        assert(curve_commands(self.vddc_curve@).subrange(0, n as int) =~= curve_commands(
            self.vddc_curve@,
        ));
        let ghost body = out@.map_values(|s: String| s@);
        if let Some(offset) = self.voltage_offset {
            let mut line: Vec<char> = Vec::new();
            push_str(&mut line, "vo ");
            push_int(&mut line, offset as i64);
            proof {
                reveal_strlit("vo ");
                assert(line@ =~= offset_command(offset as int));
            }
            out.push(to_string(line.as_slice()));
        }
        assert(out@.map_values(|s: String| s@) =~= body + offset_commands(self.voltage_offset));
        out
    }

    /// The commands that bring the driver from `previous` to this table. The previous
    /// table must have the same format.
    pub fn get_commands(&self, previous: &super::ClocksTableGen) -> (r: Result<Vec<String>, Error>)
        ensures
            match previous {
                super::ClocksTableGen::Vega20(p) => r matches Ok(c) && c@.map_values(|s: String| s@)
                    == table_commands(*self, *p),
                super::ClocksTableGen::Vega10(_) => r matches Err(e) && is_not_allowed(e),
            },
    {
        match previous {
            super::ClocksTableGen::Vega20(p) => Ok(self.commands_from(p)),
            super::ClocksTableGen::Vega10(_) => Err(Error::not_allowed(
                to_string(to_chars("Mismatched clocks table format").as_slice()),
            )),
        }
    }
}

fn no_curve_error() -> (r: Error)
    ensures
        is_not_allowed(r),
{
    Error::not_allowed(
        to_string(to_chars("The GPU did not report any voltage curve points").as_slice()),
    )
}

/// The message of an offset outside its range: the offset and both bounds.
pub open spec fn offset_rejection(offset: int, lo: int, hi: int) -> Seq<char> {
    "Provided voltage offset "@ + int_text(offset) + " is out of range, should be between "@
        + int_text(lo) + " and "@ + int_text(hi)
}

/// Whether an offset is accepted: always, unless both bounds of a range are known and it
/// lies outside them.
pub open spec fn offset_allowed(range: Option<Range>, offset: int) -> bool {
    match range {
        Some(r) => match (r.min, r.max) {
            (Some(lo), Some(hi)) => lo <= offset <= hi,
            _ => true,
        },
        None => true,
    }
}

pub open spec fn max_sclk_range_of(t: Table) -> Range {
    if t.od_range.curve_sclk_points@.len() > 0 {
        t.od_range.curve_sclk_points@.last()
    } else {
        t.od_range.sclk
    }
}

pub open spec fn min_sclk_range_of(t: Table) -> Range {
    if t.od_range.curve_sclk_points@.len() > 0 {
        t.od_range.curve_sclk_points@[0]
    } else {
        t.od_range.sclk
    }
}

pub open spec fn max_voltage_range_of(t: Table) -> Option<Range> {
    if t.od_range.curve_voltage_points@.len() > 0 {
        Some(t.od_range.curve_voltage_points@.last())
    } else {
        None
    }
}

pub open spec fn min_voltage_range_of(t: Table) -> Option<Range> {
    if t.od_range.curve_voltage_points@.len() > 0 {
        Some(t.od_range.curve_voltage_points@[0])
    } else {
        None
    }
}

/// Whether two tables hold the same values.
pub open spec fn unchanged(a: Table, b: Table) -> bool {
    &&& b.current_sclk_range == a.current_sclk_range
    &&& b.current_mclk_range == a.current_mclk_range
    &&& b.vddc_curve@ == a.vddc_curve@
    &&& b.voltage_offset == a.voltage_offset
    &&& b.od_range == a.od_range
}

/// The curve with the clockspeed of point `k` replaced.
pub open spec fn with_point_clock(c: Seq<ClocksLevel>, k: int, v: i32) -> Seq<ClocksLevel> {
    if 0 <= k < c.len() {
        c.update(k, ClocksLevel { clockspeed: v, voltage: c[k].voltage })
    } else {
        c
    }
}

/// The curve with the voltage of point `k` replaced.
pub open spec fn with_point_voltage(c: Seq<ClocksLevel>, k: int, v: i32) -> Seq<ClocksLevel> {
    if 0 <= k < c.len() {
        c.update(k, ClocksLevel { clockspeed: c[k].clockspeed, voltage: v })
    } else {
        c
    }
}

/// How a table changes when one of its values is set to `v`. The sclk bounds keep the
/// curve's end points in step; other fields stay.
pub open spec fn after_set(a: Table, b: Table, what: super::Setting, v: i32) -> bool {
    &&& b.voltage_offset == a.voltage_offset
    &&& b.od_range == a.od_range
    &&& match what {
        super::Setting::MaxSclk => b.current_sclk_range == (Range { min: a.current_sclk_range.min, max: Some(v) })
            && b.current_mclk_range == a.current_mclk_range && b.vddc_curve@ == with_point_clock(
            a.vddc_curve@,
            a.vddc_curve@.len() - 1,
            v,
        ),
        super::Setting::MinSclk => b.current_sclk_range == (Range { min: Some(v), max: a.current_sclk_range.max })
            && b.current_mclk_range == a.current_mclk_range && b.vddc_curve@ == with_point_clock(
            a.vddc_curve@,
            0,
            v,
        ),
        super::Setting::MaxMclk => b.current_mclk_range == (Range { min: a.current_mclk_range.min, max: Some(v) })
            && b.current_sclk_range == a.current_sclk_range && b.vddc_curve@ == a.vddc_curve@,
        super::Setting::MinMclk => b.current_mclk_range == (Range { min: Some(v), max: a.current_mclk_range.max })
            && b.current_sclk_range == a.current_sclk_range && b.vddc_curve@ == a.vddc_curve@,
        super::Setting::MaxVoltage => b.current_sclk_range == a.current_sclk_range
            && b.current_mclk_range == a.current_mclk_range && b.vddc_curve@ == with_point_voltage(
            a.vddc_curve@,
            a.vddc_curve@.len() - 1,
            v,
        ),
        super::Setting::MinVoltage => b.current_sclk_range == a.current_sclk_range
            && b.current_mclk_range == a.current_mclk_range && b.vddc_curve@ == with_point_voltage(
            a.vddc_curve@,
            0,
            v,
        ),
    }
}

/// Whether a setting can be applied: the voltages need a voltage curve.
pub open spec fn can_set(t: Table, what: super::Setting) -> bool {
    match what {
        super::Setting::MaxVoltage | super::Setting::MinVoltage => t.vddc_curve@.len() > 0,
        _ => true,
    }
}

/// The reported range that a setting is checked against.
pub open spec fn allowed_range(t: Table, what: super::Setting) -> Option<Range> {
    match what {
        super::Setting::MaxSclk => Some(max_sclk_range_of(t)),
        super::Setting::MinSclk => Some(min_sclk_range_of(t)),
        super::Setting::MaxMclk | super::Setting::MinMclk => t.od_range.mclk,
        super::Setting::MaxVoltage => max_voltage_range_of(t),
        super::Setting::MinVoltage => min_voltage_range_of(t),
    }
}

/// When a new minimum clock lies above the maximum that the driver holds now, the line
/// that writes the new maximum comes before the line that writes the new minimum.
pub proof fn lemma_new_max_written_before_new_min(t: Table, previous: Table)
    requires
        raises_min_over_old_max(t.current_mclk_range, previous.current_mclk_range),
        t.current_mclk_range.max is Some,
    ensures
        ({
            let cmds = table_commands(t, previous);
            let lo = t.current_mclk_range.min->0 as int;
            let hi = t.current_mclk_range.max->0 as int;
            exists|i: int, j: int|
                0 <= i < j < cmds.len() && cmds[i] == clock_command('m', 1, hi) && cmds[j]
                    == clock_command('m', 0, lo)
        }),
{
    let cmds = table_commands(t, previous);
    let a = domain_commands('s', t.current_sclk_range, previous.current_sclk_range);
    let m = domain_commands('m', t.current_mclk_range, previous.current_mclk_range);
    let lo = t.current_mclk_range.min->0 as int;
    let hi = t.current_mclk_range.max->0 as int;
    assert(m =~= seq![clock_command('m', 1, hi), clock_command('m', 0, lo), clock_command('m', 1, hi)]);
    assert(cmds[a.len() as int] == clock_command('m', 1, hi));
    assert(cmds[a.len() as int + 1] == clock_command('m', 0, lo));
}

/// The same for core clocks.
pub proof fn lemma_new_sclk_max_written_before_new_min(t: Table, previous: Table)
    requires
        raises_min_over_old_max(t.current_sclk_range, previous.current_sclk_range),
        t.current_sclk_range.max is Some,
    ensures
        ({
            let cmds = table_commands(t, previous);
            let lo = t.current_sclk_range.min->0 as int;
            let hi = t.current_sclk_range.max->0 as int;
            cmds[0] == clock_command('s', 1, hi) && cmds[1] == clock_command('s', 0, lo)
        }),
{
    let a = domain_commands('s', t.current_sclk_range, previous.current_sclk_range);
    let lo = t.current_sclk_range.min->0 as int;
    let hi = t.current_sclk_range.max->0 as int;
    assert(a =~= seq![clock_command('s', 1, hi), clock_command('s', 0, lo), clock_command('s', 1, hi)]);
}

} // verus!
