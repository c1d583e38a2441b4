//! The format used by Vega10 and older GPUs: discrete lists of clock levels.
use super::{
    after_last, check_clockspeed_in_range, in_allowed_range, lemma_table_lines_split,
    level_commands, level_line_text, push_level_line, push_level_value, range_line,
    range_line_value, range_rejection, table_lines, table_lines_step, ClocksLevel, Range,
};
use crate::error::{is_not_allowed, message_of, parse_error_at, Error};
use crate::text::{clean, eq_str, lines, split_lines, to_chars, to_string};
use vstd::prelude::*;

verus! {

/// Vega10 clocks table.
#[derive(Debug, Clone)]
pub struct Table {
    /// List of core clock levels.
    pub sclk_levels: Vec<ClocksLevel>,
    /// List of memory clock levels.
    pub mclk_levels: Vec<ClocksLevel>,
    /// The allowed ranges for clockspeeds and voltages.
    pub od_range: OdRange,
}

/// The ranges for overclocking values which the GPU allows to be used.
#[derive(Debug, Clone, Copy, PartialEq, Eq, Structural)]
pub struct OdRange {
    /// Clocks range for sclk (in MHz). Should be present on all GPUs.
    pub sclk: Range,
    /// Clocks range for mclk (in MHz). Present on discrete GPUs only.
    pub mclk: Option<Range>,
    /// Voltage range (in mV). Present on Vega10 and older GPUs only.
    pub vddc: Option<Range>,
}

/// The section of the table that a line belongs to.
#[derive(PartialEq, Eq, Structural, Clone, Copy)]
pub enum Section {
    Sclk,
    Mclk,
    Range,
}

/// What the parser has gathered after some lines.
pub struct ParseState {
    pub section: Option<Section>,
    pub sclk: Seq<ClocksLevel>,
    pub mclk: Seq<ClocksLevel>,
    pub sclk_range: Option<Range>,
    pub mclk_range: Option<Range>,
    pub vddc_range: Option<Range>,
}

pub open spec fn initial_state() -> ParseState {
    ParseState {
        section: None,
        sclk: Seq::empty(),
        mclk: Seq::empty(),
        sclk_range: None,
        mclk_range: None,
        vddc_range: None,
    }
}

/// The state after one non-empty line, or `None` when the line is rejected.
pub open spec fn parse_step(st: ParseState, line: Seq<char>) -> Option<ParseState> {
    if line == "OD_SCLK:"@ {
        Some(ParseState { section: Some(Section::Sclk), ..st })
    } else if line == "OD_MCLK:"@ {
        Some(ParseState { section: Some(Section::Mclk), ..st })
    } else if line == "OD_RANGE:"@ {
        Some(ParseState { section: Some(Section::Range), ..st })
    } else {
        match st.section {
            Some(Section::Sclk) => match push_level_value(st.sclk, line) {
                Some(l) => Some(ParseState { sclk: l, ..st }),
                None => None,
            },
            Some(Section::Mclk) => match push_level_value(st.mclk, line) {
                Some(l) => Some(ParseState { mclk: l, ..st }),
                None => None,
            },
            Some(Section::Range) => match range_line_value(line) {
                Some((r, name)) => if name == "SCLK"@ {
                    Some(ParseState { sclk_range: Some(r), ..st })
                } else if name == "MCLK"@ {
                    Some(ParseState { mclk_range: Some(r), ..st })
                } else if name == "VDDC"@ {
                    Some(ParseState { vddc_range: Some(r), ..st })
                } else {
                    None
                },
                None => None,
            },
            None => None,
        }
    }
}

/// The state after the given non-empty lines, or the 1-based number of the first
/// rejected one.
pub open spec fn parse_fold(ls: Seq<Seq<char>>) -> Result<ParseState, int>
    decreases ls.len(),
{
    if ls.len() == 0 {
        Ok(initial_state())
    } else {
        match parse_fold(ls.drop_last()) {
            Err(l) => Err(l),
            Ok(st) => match parse_step(st, ls.last()) {
                Some(next) => Ok(next),
                None => Err(ls.len() as int),
            },
        }
    }
}

/// The table that the text describes: its sclk levels, mclk levels and ranges; or the
/// line of the first error. A missing sclk range is reported after the last line.
pub open spec fn parse_table(s: Seq<char>) -> Result<(Seq<ClocksLevel>, Seq<ClocksLevel>, OdRange), int> {
    let ls = table_lines(lines(s));
    match parse_fold(ls) {
        Err(l) => Err(l),
        Ok(st) => match st.sclk_range {
            Some(r) => Ok((st.sclk, st.mclk, OdRange { sclk: r, mclk: st.mclk_range, vddc: st.vddc_range })),
            None => Err(after_last(ls.len() as int)),
        },
    }
}

/// Once a prefix of the lines is rejected, the whole text is rejected at that line.
proof fn lemma_fold_error_extends(a: Seq<Seq<char>>, b: Seq<Seq<char>>, l: int)
    requires
        parse_fold(a) == Err::<ParseState, int>(l),
    ensures
        parse_fold(a + b) == Err::<ParseState, int>(l),
    decreases b.len(),
{
    if b.len() == 0 {
        assert(a + b =~= a);
    } else {
        lemma_fold_error_extends(a, b.drop_last(), l);
        assert((a + b).drop_last() =~= a + b.drop_last());
    }
}

struct Parser {
    section: Option<Section>,
    sclk: Vec<ClocksLevel>,
    mclk: Vec<ClocksLevel>,
    sclk_range: Option<Range>,
    mclk_range: Option<Range>,
    vddc_range: Option<Range>,
}

impl Parser {
    spec fn state(&self) -> ParseState {
        ParseState {
            section: self.section,
            sclk: self.sclk@,
            mclk: self.mclk@,
            sclk_range: self.sclk_range,
            mclk_range: self.mclk_range,
            vddc_range: self.vddc_range,
        }
    }

    fn feed(&mut self, line: &[char], n: usize) -> (r: Result<(), Error>)
        ensures
            match r {
                Ok(()) => parse_step(old(self).state(), line@) == Some(final(self).state()),
                Err(e) => parse_step(old(self).state(), line@) is None && parse_error_at(e, n as int),
            },
    {
        if eq_str(line, "OD_SCLK:") {
            self.section = Some(Section::Sclk);
            return Ok(());
        }
        if eq_str(line, "OD_MCLK:") {
            self.section = Some(Section::Mclk);
            return Ok(());
        }
        if eq_str(line, "OD_RANGE:") {
            self.section = Some(Section::Range);
            return Ok(());
        }
        match self.section {
            Some(Section::Sclk) => push_level_line(line, &mut self.sclk, n),
            Some(Section::Mclk) => push_level_line(line, &mut self.mclk, n),
            Some(Section::Range) => {
                let (range, name) = range_line(line, n)?;
                if eq_str(name.as_slice(), "SCLK") {
                    self.sclk_range = Some(range);
                    Ok(())
                } else if eq_str(name.as_slice(), "MCLK") {
                    self.mclk_range = Some(range);
                    Ok(())
                } else if eq_str(name.as_slice(), "VDDC") {
                    self.vddc_range = Some(range);
                    Ok(())
                } else {
                    Err(Error::parse_error("Unexpected range item", n))
                }
            },
            None => Err(Error::parse_error("Could not find section", n)),
        }
    }
}

/// The levels after the highest one is set to `v` and the others are capped at `v`.
pub open spec fn cap_clocks(ls: Seq<ClocksLevel>, v: i32) -> Seq<ClocksLevel> {
    Seq::new(
        ls.len(),
        |k: int|
            if k == ls.len() - 1 {
                ClocksLevel { clockspeed: v, voltage: ls[k].voltage }
            } else {
                ClocksLevel {
                    clockspeed: if ls[k].clockspeed < v {
                        ls[k].clockspeed
                    } else {
                        v
                    },
                    voltage: ls[k].voltage,
                }
            },
    )
}

/// The levels after the lowest one is set to `v` and the others are raised to `v`.
pub open spec fn floor_clocks(ls: Seq<ClocksLevel>, v: i32) -> Seq<ClocksLevel> {
    Seq::new(
        ls.len(),
        |k: int|
            if k == 0 {
                ClocksLevel { clockspeed: v, voltage: ls[k].voltage }
            } else {
                ClocksLevel {
                    clockspeed: if ls[k].clockspeed > v {
                        ls[k].clockspeed
                    } else {
                        v
                    },
                    voltage: ls[k].voltage,
                }
            },
    )
}

/// The levels after the highest one gets voltage `v` and the others are capped at `v`.
pub open spec fn cap_voltages(ls: Seq<ClocksLevel>, v: i32) -> Seq<ClocksLevel> {
    Seq::new(
        ls.len(),
        |k: int|
            if k == ls.len() - 1 {
                ClocksLevel { clockspeed: ls[k].clockspeed, voltage: v }
            } else {
                ClocksLevel {
                    clockspeed: ls[k].clockspeed,
                    voltage: if ls[k].voltage < v {
                        ls[k].voltage
                    } else {
                        v
                    },
                }
            },
    )
}

/// The levels after the lowest one gets voltage `v` and the ones between the lowest and
/// the highest are raised to `v`; the highest keeps its voltage.
pub open spec fn floor_voltages(ls: Seq<ClocksLevel>, v: i32) -> Seq<ClocksLevel> {
    Seq::new(
        ls.len(),
        |k: int|
            if k == 0 {
                ClocksLevel { clockspeed: ls[k].clockspeed, voltage: v }
            } else if k < ls.len() - 1 {
                ClocksLevel {
                    clockspeed: ls[k].clockspeed,
                    voltage: if ls[k].voltage > v {
                        ls[k].voltage
                    } else {
                        v
                    },
                }
            } else {
                ls[k]
            },
    )
}

fn set_top_clock(levels: &mut Vec<ClocksLevel>, v: i32)
    requires
        old(levels)@.len() > 0,
    ensures
        final(levels)@ == cap_clocks(old(levels)@, v),
{
    let len = levels.len();
    let mut k: usize = 0;
    while k < len
        invariant
            len == levels@.len(),
            len == old(levels)@.len(),
            k <= len,
            forall|j: int| 0 <= j < k ==> levels@[j] == cap_clocks(old(levels)@, v)[j],
            forall|j: int| k <= j < len ==> levels@[j] == old(levels)@[j],
        decreases len - k,
    {
        let l = levels[k];
        let c = if k == len - 1 || v < l.clockspeed {
            v
        } else {
            l.clockspeed
        };
        levels.set(k, ClocksLevel { clockspeed: c, voltage: l.voltage });
        k += 1;
    }
    assert(levels@ =~= cap_clocks(old(levels)@, v));
}

fn set_bottom_clock(levels: &mut Vec<ClocksLevel>, v: i32)
    requires
        old(levels)@.len() > 0,
    ensures
        final(levels)@ == floor_clocks(old(levels)@, v),
{
    let len = levels.len();
    let mut k: usize = 0;
    while k < len
        invariant
            len == levels@.len(),
            len == old(levels)@.len(),
            k <= len,
            forall|j: int| 0 <= j < k ==> levels@[j] == floor_clocks(old(levels)@, v)[j],
            forall|j: int| k <= j < len ==> levels@[j] == old(levels)@[j],
        decreases len - k,
    {
        let l = levels[k];
        let c = if k == 0 || v > l.clockspeed {
            v
        } else {
            l.clockspeed
        };
        levels.set(k, ClocksLevel { clockspeed: c, voltage: l.voltage });
        k += 1;
    }
    assert(levels@ =~= floor_clocks(old(levels)@, v));
}

fn set_top_voltage(levels: &mut Vec<ClocksLevel>, v: i32)
    requires
        old(levels)@.len() > 0,
    ensures
        final(levels)@ == cap_voltages(old(levels)@, v),
{
    let len = levels.len();
    let mut k: usize = 0;
    while k < len
        invariant
            len == levels@.len(),
            len == old(levels)@.len(),
            k <= len,
            forall|j: int| 0 <= j < k ==> levels@[j] == cap_voltages(old(levels)@, v)[j],
            forall|j: int| k <= j < len ==> levels@[j] == old(levels)@[j],
        decreases len - k,
    {
        let l = levels[k];
        let u = if k == len - 1 || v < l.voltage {
            v
        } else {
            l.voltage
        };
        levels.set(k, ClocksLevel { clockspeed: l.clockspeed, voltage: u });
        k += 1;
    }
    assert(levels@ =~= cap_voltages(old(levels)@, v));
}

fn set_bottom_voltage(levels: &mut Vec<ClocksLevel>, v: i32)
    requires
        old(levels)@.len() > 0,
    ensures
        final(levels)@ == floor_voltages(old(levels)@, v),
{
    let len = levels.len();
    let mut k: usize = 0;
    while k < len
        invariant
            len == levels@.len(),
            len == old(levels)@.len(),
            k <= len,
            forall|j: int| 0 <= j < k ==> levels@[j] == floor_voltages(old(levels)@, v)[j],
            forall|j: int| k <= j < len ==> levels@[j] == old(levels)@[j],
        decreases len - k,
    {
        let l = levels[k];
        let u = if k == 0 {
            v
        } else if k < len - 1 && v > l.voltage {
            v
        } else {
            l.voltage
        };
        levels.set(k, ClocksLevel { clockspeed: l.clockspeed, voltage: u });
        k += 1;
    }
    assert(levels@ =~= floor_voltages(old(levels)@, v));
}

/// The range spanned by the first and last entries of a list.
pub open spec fn ends_range(first: Option<i32>, last: Option<i32>) -> Range {
    Range { min: first, max: last }
}

pub open spec fn first_clock(ls: Seq<ClocksLevel>) -> Option<i32> {
    if ls.len() > 0 {
        Some(ls[0].clockspeed)
    } else {
        None
    }
}

pub open spec fn last_clock(ls: Seq<ClocksLevel>) -> Option<i32> {
    if ls.len() > 0 {
        Some(ls.last().clockspeed)
    } else {
        None
    }
}

pub open spec fn first_voltage(ls: Seq<ClocksLevel>) -> Option<i32> {
    if ls.len() > 0 {
        Some(ls[0].voltage)
    } else {
        None
    }
}

pub open spec fn last_voltage(ls: Seq<ClocksLevel>) -> Option<i32> {
    if ls.len() > 0 {
        Some(ls.last().voltage)
    } else {
        None
    }
}

/// The commands that write a table: every sclk level, then every mclk level.
pub open spec fn table_commands(sclk: Seq<ClocksLevel>, mclk: Seq<ClocksLevel>) -> Seq<Seq<char>> {
    level_commands('s', sclk) + level_commands('m', mclk)
}

fn empty_list_error() -> (r: Error)
    ensures
        is_not_allowed(r),
{
    Error::not_allowed(to_string(to_chars("The GPU did not report any clock levels").as_slice()))
}

impl Table {
    /// Parses the table from the text of `pp_od_clk_voltage`.
    pub fn from_str(s: &str) -> (r: Result<Self, Error>)
        ensures
            match r {
                Ok(t) => parse_table(s@) == Ok::<_, int>((t.sclk_levels@, t.mclk_levels@, t.od_range)),
                Err(e) => parse_table(s@) matches Err(l) && parse_error_at(e, l),
            },
    {
        let chars = to_chars(s);
        let raw = split_lines(chars.as_slice());
        let ghost ls = lines(s@);
        let mut p = Parser {
            section: None,
            sclk: Vec::new(),
            mclk: Vec::new(),
            sclk_range: None,
            mclk_range: None,
            vddc_range: None,
        };
        let mut n: usize = 0;
        let mut k: usize = 0;
        while k < raw.len()
            invariant
                ls == lines(s@),
                raw@.len() == ls.len(),
                forall|j: int| 0 <= j < raw@.len() ==> #[trigger] raw@[j]@ == ls[j],
                k <= raw@.len(),
                n == table_lines(ls.subrange(0, k as int)).len(),
                n <= k,
                parse_fold(table_lines(ls.subrange(0, k as int))) == Ok::<ParseState, int>(p.state()),
            decreases raw@.len() - k,
        {
            let line = clean(raw[k].as_slice());
            proof {
                table_lines_step(ls, k as int);
            }
            let ghost q = table_lines(ls.subrange(0, k as int));
            proof {
                assert(q.push(line@).drop_last() =~= q);
            }
            if line.len() > 0 {
                n += 1;
                match p.feed(line.as_slice(), n) {
                    Ok(()) => {},
                    Err(e) => {
                        proof {
                            let len = ls.len() as int;
                            assert(table_lines(ls.subrange(0, k + 1)) == q.push(line@));
                            assert(parse_fold(table_lines(ls.subrange(0, k + 1))) == Err::<ParseState, int>(n as int));
                            lemma_table_lines_split(ls, k + 1);
                            lemma_fold_error_extends(
                                table_lines(ls.subrange(0, k + 1)),
                                table_lines(ls.subrange(k + 1, len)),
                                n as int,
                            );
                        }
                        assert(parse_fold(table_lines(ls)) == Err::<ParseState, int>(n as int));
                        return Err(e);
                    },
                }
            }
            k += 1;
        }
        assert(ls.subrange(0, k as int) =~= ls);
        match p.sclk_range {
            Some(sclk) => Ok(Table {
                sclk_levels: p.sclk,
                mclk_levels: p.mclk,
                od_range: OdRange { sclk, mclk: p.mclk_range, vddc: p.vddc_range },
            }),
            None => {
                let at = if n < usize::MAX {
                    n + 1
                } else {
                    n
                };
                Err(Error::parse_error("No sclk range found", at))
            },
        }
    }

    /// Gets the core clock range usable at the highest power level.
    pub fn get_max_sclk_range(&self) -> (r: Option<Range>)
        ensures
            r == Some(self.od_range.sclk),
    {
        Some(self.od_range.sclk)
    }

    /// Gets the core clock range usable at the lowest power level.
    pub fn get_min_sclk_range(&self) -> (r: Option<Range>)
        ensures
            r == Some(self.od_range.sclk),
    {
        Some(self.od_range.sclk)
    }

    /// Gets the memory clock range usable at the highest power level.
    pub fn get_max_mclk_range(&self) -> (r: Option<Range>)
        ensures
            r == self.od_range.mclk,
    {
        self.od_range.mclk
    }

    /// Gets the memory clock range usable at the lowest power level.
    pub fn get_min_mclk_range(&self) -> (r: Option<Range>)
        ensures
            r == self.od_range.mclk,
    {
        self.od_range.mclk
    }

    /// Gets the voltage range usable at the highest power level.
    pub fn get_max_voltage_range(&self) -> (r: Option<Range>)
        ensures
            r == self.od_range.vddc,
    {
        self.od_range.vddc
    }

    /// Gets the voltage range usable at the lowest power level.
    pub fn get_min_voltage_range(&self) -> (r: Option<Range>)
        ensures
            r == self.od_range.vddc,
    {
        self.od_range.vddc
    }

    /// Gets the current voltage range: the voltages of the lowest and highest sclk levels.
    pub fn get_current_voltage_range(&self) -> (r: Option<Range>)
        ensures
            r == Some(ends_range(first_voltage(self.sclk_levels@), last_voltage(self.sclk_levels@))),
    {
        let len = self.sclk_levels.len();
        if len == 0 {
            Some(Range { min: None, max: None })
        } else {
            Some(Range { min: Some(self.sclk_levels[0].voltage), max: Some(self.sclk_levels[len - 1].voltage) })
        }
    }

    /// Gets the current range of values for core clocks.
    pub fn get_current_sclk_range(&self) -> (r: Range)
        ensures
            r == ends_range(first_clock(self.sclk_levels@), last_clock(self.sclk_levels@)),
    {
        let len = self.sclk_levels.len();
        if len == 0 {
            Range { min: None, max: None }
        } else {
            Range { min: Some(self.sclk_levels[0].clockspeed), max: Some(self.sclk_levels[len - 1].clockspeed) }
        }
    }

    /// Gets the current range of values for memory clocks.
    pub fn get_current_mclk_range(&self) -> (r: Range)
        ensures
            r == ends_range(first_clock(self.mclk_levels@), last_clock(self.mclk_levels@)),
    {
        let len = self.mclk_levels.len();
        if len == 0 {
            Range { min: None, max: None }
        } else {
            Range { min: Some(self.mclk_levels[0].clockspeed), max: Some(self.mclk_levels[len - 1].clockspeed) }
        }
    }

    /// Gets the current maximum core clock.
    pub fn get_max_sclk(&self) -> (r: Option<i32>)
        ensures
            r == last_clock(self.sclk_levels@),
    {
        self.get_current_sclk_range().max
    }

    /// Gets the current maximum memory clock.
    pub fn get_max_mclk(&self) -> (r: Option<i32>)
        ensures
            r == last_clock(self.mclk_levels@),
    {
        self.get_current_mclk_range().max
    }

    /// Gets the current maximum voltage (used on maximum clockspeed).
    pub fn get_max_sclk_voltage(&self) -> (r: Option<i32>)
        ensures
            r == last_voltage(self.sclk_levels@),
    {
        let len = self.sclk_levels.len();
        if len == 0 {
            None
        } else {
            Some(self.sclk_levels[len - 1].voltage)
        }
    }

    /// Sets the maximum core clock, lowering the levels below it that exceed it.
    pub fn set_max_sclk_unchecked(&mut self, clockspeed: i32) -> (r: Result<(), Error>)
        ensures
            r is Ok <==> old(self).sclk_levels@.len() > 0,
            r is Ok ==> final(self).sclk_levels@ == cap_clocks(old(self).sclk_levels@, clockspeed),
            r matches Err(e) ==> is_not_allowed(e) && final(self).sclk_levels@ == old(self).sclk_levels@,
            final(self).mclk_levels@ == old(self).mclk_levels@,
            final(self).od_range == old(self).od_range,
    {
        if self.sclk_levels.len() == 0 {
            return Err(empty_list_error());
        }
        set_top_clock(&mut self.sclk_levels, clockspeed);
        Ok(())
    }

    /// Sets the minimum core clock, raising the levels above it that are below it.
    pub fn set_min_sclk_unchecked(&mut self, clockspeed: i32) -> (r: Result<(), Error>)
        ensures
            r is Ok <==> old(self).sclk_levels@.len() > 0,
            r is Ok ==> final(self).sclk_levels@ == floor_clocks(old(self).sclk_levels@, clockspeed),
            r matches Err(e) ==> is_not_allowed(e) && final(self).sclk_levels@ == old(self).sclk_levels@,
            final(self).mclk_levels@ == old(self).mclk_levels@,
            final(self).od_range == old(self).od_range,
    {
        if self.sclk_levels.len() == 0 {
            return Err(empty_list_error());
        }
        set_bottom_clock(&mut self.sclk_levels, clockspeed);
        Ok(())
    }

    /// Sets the maximum memory clock, lowering the levels below it that exceed it.
    pub fn set_max_mclk_unchecked(&mut self, clockspeed: i32) -> (r: Result<(), Error>)
        ensures
            r is Ok <==> old(self).mclk_levels@.len() > 0,
            r is Ok ==> final(self).mclk_levels@ == cap_clocks(old(self).mclk_levels@, clockspeed),
            r matches Err(e) ==> is_not_allowed(e) && final(self).mclk_levels@ == old(self).mclk_levels@,
            final(self).sclk_levels@ == old(self).sclk_levels@,
            final(self).od_range == old(self).od_range,
    {
        if self.mclk_levels.len() == 0 {
            return Err(empty_list_error());
        }
        set_top_clock(&mut self.mclk_levels, clockspeed);
        Ok(())
    }

    /// Sets the minimum memory clock, raising the levels above it that are below it.
    pub fn set_min_mclk_unchecked(&mut self, clockspeed: i32) -> (r: Result<(), Error>)
        ensures
            r is Ok <==> old(self).mclk_levels@.len() > 0,
            r is Ok ==> final(self).mclk_levels@ == floor_clocks(old(self).mclk_levels@, clockspeed),
            r matches Err(e) ==> is_not_allowed(e) && final(self).mclk_levels@ == old(self).mclk_levels@,
            final(self).sclk_levels@ == old(self).sclk_levels@,
            final(self).od_range == old(self).od_range,
    {
        if self.mclk_levels.len() == 0 {
            return Err(empty_list_error());
        }
        set_bottom_clock(&mut self.mclk_levels, clockspeed);
        Ok(())
    }

    /// Sets the voltage of the highest sclk level, lowering the others that exceed it.
    pub fn set_max_voltage_unchecked(&mut self, voltage: i32) -> (r: Result<(), Error>)
        ensures
            r is Ok <==> old(self).sclk_levels@.len() > 0,
            r is Ok ==> final(self).sclk_levels@ == cap_voltages(old(self).sclk_levels@, voltage),
            r matches Err(e) ==> is_not_allowed(e) && final(self).sclk_levels@ == old(self).sclk_levels@,
            final(self).mclk_levels@ == old(self).mclk_levels@,
            final(self).od_range == old(self).od_range,
    {
        if self.sclk_levels.len() == 0 {
            return Err(empty_list_error());
        }
        set_top_voltage(&mut self.sclk_levels, voltage);
        Ok(())
    }

    /// Sets the voltage of the lowest sclk level, raising the middle ones that are below it.
    pub fn set_min_voltage_unchecked(&mut self, voltage: i32) -> (r: Result<(), Error>)
        ensures
            r is Ok <==> old(self).sclk_levels@.len() > 0,
            r is Ok ==> final(self).sclk_levels@ == floor_voltages(old(self).sclk_levels@, voltage),
            r matches Err(e) ==> is_not_allowed(e) && final(self).sclk_levels@ == old(self).sclk_levels@,
            final(self).mclk_levels@ == old(self).mclk_levels@,
            final(self).od_range == old(self).od_range,
    {
        if self.sclk_levels.len() == 0 {
            return Err(empty_list_error());
        }
        set_bottom_voltage(&mut self.sclk_levels, voltage);
        Ok(())
    }

    /// Sets the maximum core clock if the reported sclk range allows it.
    pub fn set_max_sclk(&mut self, clockspeed: i32) -> (r: Result<(), Error>)
        ensures
            r is Ok <==> in_allowed_range(Some(old(self).od_range.sclk), clockspeed as int)
                && old(self).sclk_levels@.len() > 0,
            r is Ok ==> final(self).sclk_levels@ == cap_clocks(old(self).sclk_levels@, clockspeed),
            r matches Err(e) ==> is_not_allowed(e) && final(self).sclk_levels@ == old(self).sclk_levels@,
            !in_allowed_range(Some(old(self).od_range.sclk), clockspeed as int) ==> (r matches Err(e)
                && message_of(e) == range_rejection(Some(old(self).od_range.sclk), clockspeed as int)),
            final(self).mclk_levels@ == old(self).mclk_levels@,
            final(self).od_range == old(self).od_range,
    {
        check_clockspeed_in_range(self.get_max_sclk_range(), clockspeed)?;
        self.set_max_sclk_unchecked(clockspeed)
    }

    /// Sets the minimum core clock if the reported sclk range allows it.
    pub fn set_min_sclk(&mut self, clockspeed: i32) -> (r: Result<(), Error>)
        ensures
            r is Ok <==> in_allowed_range(Some(old(self).od_range.sclk), clockspeed as int)
                && old(self).sclk_levels@.len() > 0,
            r is Ok ==> final(self).sclk_levels@ == floor_clocks(old(self).sclk_levels@, clockspeed),
            r matches Err(e) ==> is_not_allowed(e) && final(self).sclk_levels@ == old(self).sclk_levels@,
            !in_allowed_range(Some(old(self).od_range.sclk), clockspeed as int) ==> (r matches Err(e)
                && message_of(e) == range_rejection(Some(old(self).od_range.sclk), clockspeed as int)),
            final(self).mclk_levels@ == old(self).mclk_levels@,
            final(self).od_range == old(self).od_range,
    {
        check_clockspeed_in_range(self.get_min_sclk_range(), clockspeed)?;
        self.set_min_sclk_unchecked(clockspeed)
    }

    /// Sets the maximum memory clock if the reported mclk range allows it.
    pub fn set_max_mclk(&mut self, clockspeed: i32) -> (r: Result<(), Error>)
        ensures
            r is Ok <==> in_allowed_range(old(self).od_range.mclk, clockspeed as int)
                && old(self).mclk_levels@.len() > 0,
            r is Ok ==> final(self).mclk_levels@ == cap_clocks(old(self).mclk_levels@, clockspeed),
            r matches Err(e) ==> is_not_allowed(e) && final(self).mclk_levels@ == old(self).mclk_levels@,
            !in_allowed_range(old(self).od_range.mclk, clockspeed as int) ==> (r matches Err(e)
                && message_of(e) == range_rejection(old(self).od_range.mclk, clockspeed as int)),
            final(self).sclk_levels@ == old(self).sclk_levels@,
            final(self).od_range == old(self).od_range,
    {
        check_clockspeed_in_range(self.get_max_mclk_range(), clockspeed)?;
        self.set_max_mclk_unchecked(clockspeed)
    }

    /// Sets the minimum memory clock if the reported mclk range allows it.
    pub fn set_min_mclk(&mut self, clockspeed: i32) -> (r: Result<(), Error>)
        ensures
            r is Ok <==> in_allowed_range(old(self).od_range.mclk, clockspeed as int)
                && old(self).mclk_levels@.len() > 0,
            r is Ok ==> final(self).mclk_levels@ == floor_clocks(old(self).mclk_levels@, clockspeed),
            r matches Err(e) ==> is_not_allowed(e) && final(self).mclk_levels@ == old(self).mclk_levels@,
            !in_allowed_range(old(self).od_range.mclk, clockspeed as int) ==> (r matches Err(e)
                && message_of(e) == range_rejection(old(self).od_range.mclk, clockspeed as int)),
            final(self).sclk_levels@ == old(self).sclk_levels@,
            final(self).od_range == old(self).od_range,
    {
        check_clockspeed_in_range(self.get_min_mclk_range(), clockspeed)?;
        self.set_min_mclk_unchecked(clockspeed)
    }

    /// Sets the voltage of the highest sclk level if the reported voltage range allows it.
    pub fn set_max_voltage(&mut self, voltage: i32) -> (r: Result<(), Error>)
        ensures
            r is Ok <==> in_allowed_range(old(self).od_range.vddc, voltage as int)
                && old(self).sclk_levels@.len() > 0,
            r is Ok ==> final(self).sclk_levels@ == cap_voltages(old(self).sclk_levels@, voltage),
            r matches Err(e) ==> is_not_allowed(e) && final(self).sclk_levels@ == old(self).sclk_levels@,
            !in_allowed_range(old(self).od_range.vddc, voltage as int) ==> (r matches Err(e)
                && message_of(e) == range_rejection(old(self).od_range.vddc, voltage as int)),
            final(self).mclk_levels@ == old(self).mclk_levels@,
            final(self).od_range == old(self).od_range,
    {
        check_clockspeed_in_range(self.get_max_voltage_range(), voltage)?;
        self.set_max_voltage_unchecked(voltage)
    }

    /// Sets the voltage of the lowest sclk level if the reported voltage range allows it.
    pub fn set_min_voltage(&mut self, voltage: i32) -> (r: Result<(), Error>)
        ensures
            r is Ok <==> in_allowed_range(old(self).od_range.vddc, voltage as int)
                && old(self).sclk_levels@.len() > 0,
            r is Ok ==> final(self).sclk_levels@ == floor_voltages(old(self).sclk_levels@, voltage),
            r matches Err(e) ==> is_not_allowed(e) && final(self).sclk_levels@ == old(self).sclk_levels@,
            !in_allowed_range(old(self).od_range.vddc, voltage as int) ==> (r matches Err(e)
                && message_of(e) == range_rejection(old(self).od_range.vddc, voltage as int)),
            final(self).mclk_levels@ == old(self).mclk_levels@,
            final(self).od_range == old(self).od_range,
    {
        check_clockspeed_in_range(self.get_min_voltage_range(), voltage)?;
        self.set_min_voltage_unchecked(voltage)
    }

    /// The command lines that write this table: `s <index> <clock> <voltage>` for every
    /// sclk level, then `m <index> <clock> <voltage>` for every mclk level.
    pub fn get_commands(&self) -> (r: Vec<String>)
        ensures
            r@.len() == table_commands(self.sclk_levels@, self.mclk_levels@).len(),
            forall|k: int| 0 <= k < r@.len() ==> #[trigger] r@[k]@ == table_commands(
                self.sclk_levels@,
                self.mclk_levels@,
            )[k],
    {
        let mut out: Vec<String> = Vec::new();
        let ghost cmds = table_commands(self.sclk_levels@, self.mclk_levels@);
        let ns = self.sclk_levels.len();
        let mut k: usize = 0;
        while k < ns
            invariant
                ns == self.sclk_levels@.len(),
                cmds == table_commands(self.sclk_levels@, self.mclk_levels@),
                k <= ns,
                out@.len() == k,
                forall|j: int| 0 <= j < k ==> #[trigger] out@[j]@ == cmds[j],
            decreases ns - k,
        {
            let line = level_line_text('s', k, self.sclk_levels[k]);
            out.push(line);
            k += 1;
        }
        let nm = self.mclk_levels.len();
        let mut k: usize = 0;
        while k < nm
            invariant
                ns == self.sclk_levels@.len(),
                nm == self.mclk_levels@.len(),
                cmds == table_commands(self.sclk_levels@, self.mclk_levels@),
                k <= nm,
                out@.len() == ns + k,
                forall|j: int| 0 <= j < ns + k ==> #[trigger] out@[j]@ == cmds[j],
            decreases nm - k,
        {
            let line = level_line_text('m', k, self.mclk_levels[k]);
            out.push(line);
            k += 1;
        }
        out
    }
}

/// Whether two tables hold the same values.
pub open spec fn unchanged(a: Table, b: Table) -> bool {
    &&& b.sclk_levels@ == a.sclk_levels@
    &&& b.mclk_levels@ == a.mclk_levels@
    &&& b.od_range == a.od_range
}

/// How a table changes when one of its values is set to `v`.
pub open spec fn after_set(a: Table, b: Table, what: super::Setting, v: i32) -> bool {
    &&& b.od_range == a.od_range
    &&& match what {
        super::Setting::MaxSclk => b.sclk_levels@ == cap_clocks(a.sclk_levels@, v)
            && b.mclk_levels@ == a.mclk_levels@,
        super::Setting::MinSclk => b.sclk_levels@ == floor_clocks(a.sclk_levels@, v)
            && b.mclk_levels@ == a.mclk_levels@,
        super::Setting::MaxMclk => b.mclk_levels@ == cap_clocks(a.mclk_levels@, v)
            && b.sclk_levels@ == a.sclk_levels@,
        super::Setting::MinMclk => b.mclk_levels@ == floor_clocks(a.mclk_levels@, v)
            && b.sclk_levels@ == a.sclk_levels@,
        super::Setting::MaxVoltage => b.sclk_levels@ == cap_voltages(a.sclk_levels@, v)
            && b.mclk_levels@ == a.mclk_levels@,
        super::Setting::MinVoltage => b.sclk_levels@ == floor_voltages(a.sclk_levels@, v)
            && b.mclk_levels@ == a.mclk_levels@,
    }
}

/// Whether the list that a setting changes has any level.
pub open spec fn can_set(t: Table, what: super::Setting) -> bool {
    match what {
        super::Setting::MaxMclk | super::Setting::MinMclk => t.mclk_levels@.len() > 0,
        _ => t.sclk_levels@.len() > 0,
    }
}

/// The reported range that a setting is checked against.
pub open spec fn allowed_range(t: Table, what: super::Setting) -> Option<Range> {
    match what {
        super::Setting::MaxSclk | super::Setting::MinSclk => Some(t.od_range.sclk),
        super::Setting::MaxMclk | super::Setting::MinMclk => t.od_range.mclk,
        _ => t.od_range.vddc,
    }
}

} // verus!
