//! GPU overdrive (overclocking): the clocks and voltage table `pp_od_clk_voltage`.
//!
//! Two incompatible layouts exist. [`vega10`] holds discrete per-level lists, [`vega20`]
//! holds current min/max ranges and a voltage curve. [`ClocksTableGen`] tells them apart
//! and offers one set of operations over both.
pub mod vega10;
pub mod vega20;
pub mod round_trip;

use crate::error::{is_not_allowed, message_of, parse_error_at, Error};
use crate::text::{
    clean_line, contains_ci, contains_ci_str, contains_seq, contains_str, copy_range, eq_str,
    int_text, lines, parse_i32, parse_unsigned, push_chars, push_int, push_str, push_u64,
    same_letter, same_letter_exec, signed_value, split_lines, split_words, to_chars, to_string,
    unsigned_value, value_in, words,
};
use vstd::prelude::*;

verus! {

/// A range.
#[derive(Debug, Clone, Copy, PartialEq, Eq, Structural)]
pub struct Range {
    /// The lower value of a range.
    pub min: Option<i32>,
    /// The higher value of a range.
    pub max: Option<i32>,
}

impl Range {
    /// Creates a range with both a minimum and a maximum value.
    pub fn full(min: i32, max: i32) -> (r: Self)
        ensures
            r == (Range { min: Some(min), max: Some(max) }),
    {
        Range { min: Some(min), max: Some(max) }
    }

    /// Creates a range with a minimum value only.
    pub fn min(min: i32) -> (r: Self)
        ensures
            r == (Range { min: Some(min), max: None }),
    {
        Range { min: Some(min), max: None }
    }

    /// Creates a range with a maximum value only.
    pub fn max(max: i32) -> (r: Self)
        ensures
            r == (Range { min: None, max: Some(max) }),
    {
        Range { min: None, max: Some(max) }
    }

    /// Creates an empty range.
    pub fn empty() -> (r: Self)
        ensures
            r == (Range { min: None, max: None }),
    {
        Range { min: None, max: None }
    }

    /// Tries to convert the current range into a (min, max) pair.
    pub fn into_full(self) -> (r: Option<(i32, i32)>)
        ensures
            r == (match (self.min, self.max) {
                (Some(a), Some(b)) => Some((a, b)),
                _ => None,
            }),
    {
        match (self.min, self.max) {
            (Some(a), Some(b)) => Some((a, b)),
            _ => None,
        }
    }
}

/// A combination of a clockspeed and a voltage. Its meaning depends on the table format.
#[derive(Debug, Clone, Copy, PartialEq, Eq, Structural)]
pub struct ClocksLevel {
    /// Clockspeed (in MHz)
    pub clockspeed: i32,
    /// Voltage (in mV)
    pub voltage: i32,
}

impl ClocksLevel {
    /// Create a new clocks level.
    pub fn new(clockspeed: i32, voltage: i32) -> (r: Self)
        ensures
            r == (ClocksLevel { clockspeed, voltage }),
    {
        ClocksLevel { clockspeed, voltage }
    }
}

// ---------------------------------------------------------------------------
// Allowed ranges
/// Whether `value` lies within `range`, both of whose bounds must be known.
pub open spec fn in_allowed_range(range: Option<Range>, value: int) -> bool {
    match range {
        Some(r) => match (r.min, r.max) {
            (Some(lo), Some(hi)) => lo <= value <= hi,
            _ => false,
        },
        None => false,
    }
}

/// The message of a value outside a known range.
pub open spec fn out_of_range_message(value: int, lo: int, hi: int) -> Seq<char> {
    "Given clockspeed "@ + int_text(value) + " is out of the allowed OD range "@ + int_text(lo)
        + " to "@ + int_text(hi)
}

/// What a rejected value is told: the value and both bounds, or that no bounds are known.
pub open spec fn range_rejection(range: Option<Range>, value: int) -> Seq<char> {
    match range {
        Some(r) => match (r.min, r.max) {
            (Some(lo), Some(hi)) => out_of_range_message(value, lo as int, hi as int),
            _ => "GPU does not report allowed OD ranges"@,
        },
        None => "GPU does not report allowed OD ranges"@,
    }
}

/// Accepts `clockspeed` when the reported range holds it.
pub fn check_clockspeed_in_range(range: Option<Range>, clockspeed: i32) -> (r: Result<(), Error>)
    ensures
        r is Ok <==> in_allowed_range(range, clockspeed as int),
        r matches Err(e) ==> is_not_allowed(e) && message_of(e) == range_rejection(
            range,
            clockspeed as int,
        ),
{
    let bounds = match range {
        Some(r) => (r.min, r.max),
        None => (None, None),
    };
    if let (Some(min), Some(max)) = bounds {
        if min <= clockspeed && clockspeed <= max {
            Ok(())
        } else {
            let mut msg: Vec<char> = Vec::new();
            push_str(&mut msg, "Given clockspeed ");
            push_int(&mut msg, clockspeed as i64);
            push_str(&mut msg, " is out of the allowed OD range ");
            push_int(&mut msg, min as i64);
            push_str(&mut msg, " to ");
            push_int(&mut msg, max as i64);
            Err(Error::not_allowed(to_string(msg.as_slice())))
        }
    } else {
        let mut msg: Vec<char> = Vec::new();
        push_str(&mut msg, "GPU does not report allowed OD ranges");
        Err(Error::not_allowed(to_string(msg.as_slice())))
    }
}

// ---------------------------------------------------------------------------
// Line items
/// Whether `t` ends with `suf`, ignoring ASCII letter case.
pub open spec fn ends_with_ci(t: Seq<char>, suf: Seq<char>) -> bool {
    suf.len() <= t.len() && forall|k: int|
        0 <= k < suf.len() ==> same_letter(t[t.len() - suf.len() + k], #[trigger] suf[k])
}

/// `t` with every trailing repetition of `suf` removed.
pub open spec fn strip_all(t: Seq<char>, suf: Seq<char>) -> Seq<char>
    decreases t.len(),
{
    if suf.len() > 0 && ends_with_ci(t, suf) {
        strip_all(t.subrange(0, t.len() - suf.len()), suf)
    } else {
        t
    }
}

/// `t` after [`strip_all`] with each suffix in turn.
pub open spec fn strip_units(t: Seq<char>, sufs: Seq<&str>) -> Seq<char>
    decreases sufs.len(),
{
    if sufs.len() == 0 {
        t
    } else {
        strip_units(strip_all(t, sufs[0]@), sufs.drop_first())
    }
}

fn ends_with_ci_exec(t: &[char], end: usize, suf: &[char]) -> (r: bool)
    requires
        end <= t@.len(),
    ensures
        r == ends_with_ci(t@.subrange(0, end as int), suf@),
{
    let n = suf.len();
    if n > end {
        return false;
    }
    let ghost p = t@.subrange(0, end as int);
    let mut k: usize = 0;
    while k < n
        invariant
            n == suf@.len(),
            n <= end <= t@.len(),
            p == t@.subrange(0, end as int),
            k <= n,
            forall|j: int| 0 <= j < k ==> same_letter(p[p.len() - n + j], #[trigger] suf@[j]),
        decreases n - k,
    {
        if !same_letter_exec(t[end - n + k], suf[k]) {
            assert(!same_letter(p[p.len() - n + k], suf@[k as int]));
            return false;
        }
        k += 1;
    }
    true
}

fn strip_unit(t: &[char], suf: &str) -> (r: Vec<char>)
    ensures
        r@ == strip_all(t@, suf@),
{
    let sv = to_chars(suf);
    let n = sv.len();
    let mut end: usize = t.len();
    assert(t@.subrange(0, end as int) =~= t@);
    if n == 0 {
        return copy_range(t, 0, end);
    }
    while ends_with_ci_exec(t, end, sv.as_slice())
        invariant
            sv@ == suf@,
            n == sv@.len(),
            n > 0,
            end <= t@.len(),
            strip_all(t@, suf@) == strip_all(t@.subrange(0, end as int), suf@),
        decreases end,
    {
        assert(t@.subrange(0, end as int).subrange(0, end - n) =~= t@.subrange(0, end - n));
        end -= n;
    }
    copy_range(t, 0, end)
}

fn strip_suffixes(t: &[char], sufs: &[&str]) -> (r: Vec<char>)
    ensures
        r@ == strip_units(t@, sufs@),
{
    let mut cur = copy_range(t, 0, t.len());
    assert(t@.subrange(0, t@.len() as int) =~= t@);
    let mut k: usize = 0;
    assert(sufs@.subrange(0, sufs@.len() as int) =~= sufs@);
    while k < sufs.len()
        invariant
            k <= sufs@.len(),
            strip_units(cur@, sufs@.subrange(k as int, sufs@.len() as int)) == strip_units(
                t@,
                sufs@,
            ),
        decreases sufs@.len() - k,
    {
        let ghost rest = sufs@.subrange(k as int, sufs@.len() as int);
        assert(rest.drop_first() =~= sufs@.subrange(k + 1, sufs@.len() as int));
        cur = strip_unit(cur.as_slice(), sufs[k]);
        k += 1;
    }
    assert(sufs@.subrange(k as int, sufs@.len() as int) =~= Seq::<&str>::empty());
    cur
}

/// The `k`-th word of a line as an `i32`, after its unit suffixes are stripped.
pub open spec fn item_i32(w: Seq<Seq<char>>, k: int, sufs: Seq<&str>) -> Option<i32> {
    if 0 <= k < w.len() {
        match value_in(signed_value(strip_units(w[k], sufs)), i32::MIN as int, i32::MAX as int) {
            Some(v) => Some(v as i32),
            None => None,
        }
    } else {
        None
    }
}

/// The `k`-th word of a line as a `usize`, after its unit suffixes are stripped.
pub open spec fn item_usize(w: Seq<Seq<char>>, k: int, sufs: Seq<&str>) -> Option<usize> {
    if 0 <= k < w.len() {
        match value_in(unsigned_value(strip_units(w[k], sufs)), 0, usize::MAX as int) {
            Some(v) => Some(v as usize),
            None => None,
        }
    } else {
        None
    }
}

fn item_error(words: &Vec<Vec<char>>, k: usize, line: usize, item: &str) -> (r: Error)
    ensures
        parse_error_at(r, line as int),
{
    if k >= words.len() {
        Error::unexpected_eol(item, line)
    } else {
        let mut msg: Vec<char> = Vec::new();
        push_str(&mut msg, "Could not parse ");
        push_str(&mut msg, item);
        push_str(&mut msg, " with value ");
        crate::text::push_chars(&mut msg, words[k].as_slice());
        let m = to_string(msg.as_slice());
        Error::from_kind(crate::error::ErrorKind::ParseError { msg: m, line })
    }
}

/// Takes word `k` of a line, strips the given unit suffixes (ignoring letter case) and
/// reads it as an `i32`.
pub fn parse_line_item(words: &Vec<Vec<char>>, k: usize, line: usize, item: &str, sufs: &[&str]) -> (r:
    Result<i32, Error>)
    ensures
        match r {
            Ok(v) => item_i32(words@.map_values(|w: Vec<char>| w@), k as int, sufs@) == Some(v),
            Err(e) => item_i32(words@.map_values(|w: Vec<char>| w@), k as int, sufs@) is None
                && parse_error_at(e, line as int),
        },
{
    let ghost w = words@.map_values(|w: Vec<char>| w@);
    if k >= words.len() {
        return Err(item_error(words, k, line, item));
    }
    let text = strip_suffixes(words[k].as_slice(), sufs);
    match parse_i32(text.as_slice()) {
        Some(v) => Ok(v),
        None => Err(item_error(words, k, line, item)),
    }
}

/// As [`parse_line_item`], for a `usize`.
pub fn parse_line_index(words: &Vec<Vec<char>>, k: usize, line: usize, item: &str, sufs: &[&str]) -> (r:
    Result<usize, Error>)
    ensures
        match r {
            Ok(v) => item_usize(words@.map_values(|w: Vec<char>| w@), k as int, sufs@) == Some(v),
            Err(e) => item_usize(words@.map_values(|w: Vec<char>| w@), k as int, sufs@) is None
                && parse_error_at(e, line as int),
        },
{
    if k >= words.len() {
        return Err(item_error(words, k, line, item));
    }
    let text = strip_suffixes(words[k].as_slice(), sufs);
    match parse_unsigned(text.as_slice(), usize::MAX as u64) {
        Some(v) => Ok(v as usize),
        None => Err(item_error(words, k, line, item)),
    }
}

pub open spec fn units_mhz_mv() -> Seq<&'static str> {
    seq!["mhz", "mv"]
}

pub open spec fn units_colon() -> Seq<&'static str> {
    seq![":"]
}

pub open spec fn units_mhz() -> Seq<&'static str> {
    seq!["mhz"]
}

pub open spec fn units_mv() -> Seq<&'static str> {
    seq!["mv"]
}

/// What a range line `NAME: MIN<unit> MAX<unit>` says: the range and the name without
/// its trailing colons.
pub open spec fn range_line_value(line: Seq<char>) -> Option<(Range, Seq<char>)> {
    let w = words(line);
    if w.len() >= 1 && item_i32(w, 1, units_mhz_mv()) is Some && item_i32(w, 2, units_mhz_mv()) is Some {
        Some(
            (
                Range {
                    min: Some(item_i32(w, 1, units_mhz_mv())->0),
                    max: Some(item_i32(w, 2, units_mhz_mv())->0),
                },
                strip_all(w[0], seq![':']),
            ),
        )
    } else {
        None
    }
}

/// What a level line `INDEX: CLOCK<MHz> VOLTAGE<mV>` says: the level and its index.
pub open spec fn level_line_value(line: Seq<char>) -> Option<(ClocksLevel, usize)> {
    let w = words(line);
    if item_usize(w, 0, units_colon()) is Some && item_i32(w, 1, units_mhz()) is Some && item_i32(
        w,
        2,
        units_mv(),
    ) is Some {
        Some(
            (
                ClocksLevel {
                    clockspeed: item_i32(w, 1, units_mhz())->0,
                    voltage: item_i32(w, 2, units_mv())->0,
                },
                item_usize(w, 0, units_colon())->0,
            ),
        )
    } else {
        None
    }
}

fn split_words_of(line: &[char]) -> (r: Vec<Vec<char>>)
    ensures
        r@.map_values(|w: Vec<char>| w@) == words(line@),
{
    let r = split_words(line);
    assert(r@.map_values(|w: Vec<char>| w@) =~= words(line@));
    r
}

/// Reads a range line given as characters.
pub fn range_line(line: &[char], i: usize) -> (r: Result<(Range, Vec<char>), Error>)
    ensures
        match r {
            Ok((range, name)) => range_line_value(line@) == Some((range, name@)),
            Err(e) => range_line_value(line@) is None && parse_error_at(e, i as int),
        },
{
    let toks = split_words_of(line);
    if toks.len() == 0 {
        return Err(Error::unexpected_eol("range name", i));
    }
    let name = strip_unit(toks[0].as_slice(), ":");
    proof {
        reveal_strlit(":");
        assert(":"@ =~= seq![':']);
    }
    let units: [&str; 2] = ["mhz", "mv"];
    assert(units@ =~= units_mhz_mv());
    let min = parse_line_item(&toks, 1, i, "range minimum", &units)?;
    let max = parse_line_item(&toks, 2, i, "range maximum", &units)?;
    Ok((Range::full(min, max), name))
}

/// Reads a range line `NAME: MIN<unit> MAX<unit>`, giving the range and its name.
pub fn parse_range_line(line: &str, i: usize) -> (r: Result<(Range, String), Error>)
    ensures
        match r {
            Ok((range, name)) => range_line_value(line@) == Some((range, name@)),
            Err(e) => range_line_value(line@) is None && parse_error_at(e, i as int),
        },
{
    let chars = to_chars(line);
    let (range, name) = range_line(chars.as_slice(), i)?;
    Ok((range, to_string(name.as_slice())))
}

/// Reads a level line given as characters.
pub fn level_line(line: &[char], i: usize) -> (r: Result<(ClocksLevel, usize), Error>)
    ensures
        match r {
            Ok(v) => level_line_value(line@) == Some(v),
            Err(e) => level_line_value(line@) is None && parse_error_at(e, i as int),
        },
{
    let toks = split_words_of(line);
    let colon: [&str; 1] = [":"];
    let mhz: [&str; 1] = ["mhz"];
    let mv: [&str; 1] = ["mv"];
    assert(colon@ =~= units_colon());
    assert(mhz@ =~= units_mhz());
    assert(mv@ =~= units_mv());
    let num = parse_line_index(&toks, 0, i, "level number", &colon)?;
    let clockspeed = parse_line_item(&toks, 1, i, "clockspeed", &mhz)?;
    let voltage = parse_line_item(&toks, 2, i, "voltage", &mv)?;
    Ok((ClocksLevel::new(clockspeed, voltage), num))
}

/// Reads a level line `INDEX: CLOCK<MHz> VOLTAGE<mV>`, giving the level and its index.
pub fn parse_level_line(line: &str, i: usize) -> (r: Result<(ClocksLevel, usize), Error>)
    ensures
        match r {
            Ok(v) => level_line_value(line@) == Some(v),
            Err(e) => level_line_value(line@) is None && parse_error_at(e, i as int),
        },
{
    let chars = to_chars(line);
    level_line(chars.as_slice(), i)
}

/// The list after a level line is added to it: the line must be readable and carry the
/// next index.
pub open spec fn push_level_value(levels: Seq<ClocksLevel>, line: Seq<char>) -> Option<
    Seq<ClocksLevel>,
> {
    match level_line_value(line) {
        Some((level, num)) => if num == levels.len() {
            Some(levels.push(level))
        } else {
            None
        },
        None => None,
    }
}

/// A level list stays contiguous: a level line whose index differs from the number of
/// levels read so far (as in `0` followed by `2`) is rejected.
pub proof fn lemma_level_index_gap_rejected(levels: Seq<ClocksLevel>, line: Seq<char>)
    requires
        level_line_value(line) matches Some((_, num)) && num != levels.len(),
    ensures
        push_level_value(levels, line) is None,
{
}

/// Every level list that lines build is numbered from 0 without gaps: each accepted line
/// carries the index at which its level lands.
pub proof fn lemma_level_index_matches(levels: Seq<ClocksLevel>, line: Seq<char>)
    requires
        push_level_value(levels, line) is Some,
    ensures
        level_line_value(line) matches Some((level, num)) && num == levels.len()
            && push_level_value(levels, line) == Some(levels.push(level)),
{
}

/// Adds the level of a level line to `levels`; its index must equal the list's length.
pub fn push_level_line(line: &[char], levels: &mut Vec<ClocksLevel>, i: usize) -> (r: Result<(), Error>)
    ensures
        match r {
            Ok(()) => push_level_value(old(levels)@, line@) == Some(final(levels)@),
            Err(e) => push_level_value(old(levels)@, line@) is None && final(levels)@ == old(
                levels,
            )@ && parse_error_at(e, i as int),
        },
{
    let (level, num) = level_line(line, i)?;
    let len = levels.len();
    if num != len {
        let mut msg: Vec<char> = Vec::new();
        push_str(&mut msg, "Unexpected level num: expected ");
        crate::text::push_u64(&mut msg, len as u64);
        push_str(&mut msg, ", got ");
        crate::text::push_u64(&mut msg, num as u64);
        let m = to_string(msg.as_slice());
        return Err(Error::from_kind(crate::error::ErrorKind::ParseError { msg: m, line: i }));
    }
    levels.push(level);
    Ok(())
}

// ---------------------------------------------------------------------------
// Table text
/// The non-empty lines of a table after [`clean_line`].
pub open spec fn table_lines(ls: Seq<Seq<char>>) -> Seq<Seq<char>>
    decreases ls.len(),
{
    if ls.len() == 0 {
        Seq::empty()
    } else {
        let p = table_lines(ls.drop_last());
        let c = clean_line(ls.last());
        if c.len() == 0 {
            p
        } else {
            p.push(c)
        }
    }
}

pub proof fn table_lines_step(ls: Seq<Seq<char>>, k: int)
    requires
        0 <= k < ls.len(),
    ensures
        table_lines(ls.subrange(0, k + 1)) == (if clean_line(ls[k]).len() == 0 {
            table_lines(ls.subrange(0, k))
        } else {
            table_lines(ls.subrange(0, k)).push(clean_line(ls[k]))
        }),
        table_lines(ls.subrange(0, k)).len() <= k,
{
    assert(ls.subrange(0, k + 1).drop_last() =~= ls.subrange(0, k));
    lemma_table_lines_len(ls.subrange(0, k));
}

pub proof fn lemma_table_lines_len(ls: Seq<Seq<char>>)
    ensures
        table_lines(ls).len() <= ls.len(),
    decreases ls.len(),
{
    if ls.len() > 0 {
        lemma_table_lines_len(ls.drop_last());
    }
}

/// The table lines of a whole text are those of a prefix followed by those of the rest.
pub proof fn lemma_table_lines_split(ls: Seq<Seq<char>>, k: int)
    requires
        0 <= k <= ls.len(),
    ensures
        table_lines(ls) == table_lines(ls.subrange(0, k)) + table_lines(ls.subrange(k, ls.len() as int)),
    decreases ls.len(),
{
    if k == ls.len() {
        assert(ls.subrange(0, k) =~= ls);
        assert(table_lines(ls.subrange(k, ls.len() as int)) =~= Seq::<Seq<char>>::empty()) by {
            assert(ls.subrange(k, ls.len() as int).len() == 0);
        }
        assert(table_lines(ls) + Seq::<Seq<char>>::empty() =~= table_lines(ls));
    } else {
        let d = ls.drop_last();
        lemma_table_lines_split(d, k);
        assert(d.subrange(0, k) =~= ls.subrange(0, k));
        let rest = ls.subrange(k, ls.len() as int);
        assert(rest.drop_last() =~= d.subrange(k, d.len() as int));
        assert(rest.last() == ls.last());
        let a = table_lines(ls.subrange(0, k));
        let b = table_lines(d.subrange(k, d.len() as int));
        if clean_line(ls.last()).len() != 0 {
            assert((a + b).push(clean_line(ls.last())) =~= a + b.push(clean_line(ls.last())));
        }
    }
}

/// The line number reported after the last line of a table.
pub open spec fn after_last(n: int) -> int {
    if n < usize::MAX {
        n + 1
    } else {
        n
    }
}

// ---------------------------------------------------------------------------
// Commands
/// `<symbol> <index> <clockspeed> <voltage>`
pub open spec fn level_command(symbol: char, i: int, l: ClocksLevel) -> Seq<char> {
    seq![symbol, ' '] + int_text(i) + seq![' '] + int_text(l.clockspeed as int) + seq![' ']
        + int_text(l.voltage as int)
}

/// One level command per level, indexed from 0.
pub open spec fn level_commands(symbol: char, ls: Seq<ClocksLevel>) -> Seq<Seq<char>> {
    Seq::new(ls.len(), |i: int| level_command(symbol, i, ls[i]))
}

/// Writes [`level_command`].
pub fn level_line_text(symbol: char, i: usize, l: ClocksLevel) -> (r: String)
    ensures
        r@ == level_command(symbol, i as int, l),
{
    let mut out: Vec<char> = Vec::new();
    out.push(symbol);
    out.push(' ');
    push_u64(&mut out, i as u64);
    out.push(' ');
    push_int(&mut out, l.clockspeed as i64);
    out.push(' ');
    push_int(&mut out, l.voltage as i64);
    assert(out@ =~= level_command(symbol, i as int, l));
    to_string(out.as_slice())
}

// ---------------------------------------------------------------------------
// Both formats
/// One of the values that a table lets its user set.
#[derive(Clone, Copy)]
pub enum Setting {
    MaxSclk,
    MinSclk,
    MaxMclk,
    MinMclk,
    MaxVoltage,
    MinVoltage,
}

/// Representation of the clocks and voltage table (`pp_od_clk_voltage`).
///
/// Despite the names, the formats are not exclusive to Vega10 and Vega20: Vega10 covers
/// everything up to Vega10 (including Polaris), Vega20 every newer GPU (like Navi).
#[derive(Debug, Clone)]
pub enum ClocksTableGen {
    /// Vega10 (and older) format
    Vega10(vega10::Table),
    /// Vega20 (and newer) format
    Vega20(vega20::Table),
}

/// The two table formats.
#[derive(Debug, Clone, Copy, PartialEq, Eq, Structural)]
pub enum TableFormat {
    Vega10,
    Vega20,
}

/// Whether a text is in the Vega20 format: it names a voltage curve or a gfx voltage
/// offset, or its first section is `OD_SCLK:` and the line after it gives a clockspeed in
/// MHz without a voltage in mV. The format is not versioned; this is a best guess.
pub open spec fn looks_like_vega20(s: Seq<char>) -> bool {
    ||| contains_seq(s, "VDDC_CURVE"@)
    ||| contains_seq(s, "OD_VDDGFX_OFFSET"@)
    ||| (lines(s).len() >= 2 && lines(s)[0] == "OD_SCLK:"@ && contains_ci(lines(s)[1], "mhz"@)
        && !contains_ci(lines(s)[1], "mv"@))
}

/// Tells which format a table text is in (see [`looks_like_vega20`]).
pub fn detect_table_format(s: &str) -> (r: TableFormat)
    ensures
        r == (if looks_like_vega20(s@) {
            TableFormat::Vega20
        } else {
            TableFormat::Vega10
        }),
{
    let chars = to_chars(s);
    if contains_str(chars.as_slice(), "VDDC_CURVE") || contains_str(chars.as_slice(), "OD_VDDGFX_OFFSET") {
        return TableFormat::Vega20;
    }
    let ls = split_lines(chars.as_slice());
    if ls.len() >= 2 && eq_str(ls[0].as_slice(), "OD_SCLK:") && contains_ci_str(ls[1].as_slice(), "mhz")
        && !contains_ci_str(ls[1].as_slice(), "mv") {
        TableFormat::Vega20
    } else {
        TableFormat::Vega10
    }
}

impl ClocksTableGen {
    /// The current core clock range.
    pub open spec fn current_sclk(self) -> Range {
        match self {
            ClocksTableGen::Vega10(t) => vega10::ends_range(
                vega10::first_clock(t.sclk_levels@),
                vega10::last_clock(t.sclk_levels@),
            ),
            ClocksTableGen::Vega20(t) => t.current_sclk_range,
        }
    }

    /// The current memory clock range.
    pub open spec fn current_mclk(self) -> Range {
        match self {
            ClocksTableGen::Vega10(t) => vega10::ends_range(
                vega10::first_clock(t.mclk_levels@),
                vega10::last_clock(t.mclk_levels@),
            ),
            ClocksTableGen::Vega20(t) => t.current_mclk_range,
        }
    }

    /// The range that a setting is checked against.
    pub open spec fn allowed(self, what: Setting) -> Option<Range> {
        match self {
            ClocksTableGen::Vega10(t) => vega10::allowed_range(t, what),
            ClocksTableGen::Vega20(t) => vega20::allowed_range(t, what),
        }
    }

    /// Whether the table has what a setting changes.
    pub open spec fn can_set(self, what: Setting) -> bool {
        match self {
            ClocksTableGen::Vega10(t) => vega10::can_set(t, what),
            ClocksTableGen::Vega20(t) => vega20::can_set(t, what),
        }
    }

    /// How the table changes when a setting is set to `v`; the format stays.
    pub open spec fn after_set(self, next: ClocksTableGen, what: Setting, v: i32) -> bool {
        match (self, next) {
            (ClocksTableGen::Vega10(a), ClocksTableGen::Vega10(b)) => vega10::after_set(a, b, what, v),
            (ClocksTableGen::Vega20(a), ClocksTableGen::Vega20(b)) => vega20::after_set(a, b, what, v),
            _ => false,
        }
    }

    /// Whether two tables have the same format and hold the same values.
    pub open spec fn same_values(self, next: ClocksTableGen) -> bool {
        match (self, next) {
            (ClocksTableGen::Vega10(a), ClocksTableGen::Vega10(b)) => vega10::unchanged(a, b),
            (ClocksTableGen::Vega20(a), ClocksTableGen::Vega20(b)) => vega20::unchanged(a, b),
            _ => false,
        }
    }

    /// Parses a table, choosing the format with [`detect_table_format`].
    pub fn from_str(s: &str) -> (r: Result<Self, Error>)
        ensures
            looks_like_vega20(s@) ==> match r {
                Ok(ClocksTableGen::Vega20(t)) => vega20::parse_table(s@) matches Ok(st)
                    && vega20::describes(st, t),
                Ok(ClocksTableGen::Vega10(_)) => false,
                Err(e) => vega20::parse_table(s@) matches Err(l) && parse_error_at(e, l),
            },
            !looks_like_vega20(s@) ==> match r {
                Ok(ClocksTableGen::Vega10(t)) => vega10::parse_table(s@) == Ok::<_, int>(
                    (t.sclk_levels@, t.mclk_levels@, t.od_range),
                ),
                Ok(ClocksTableGen::Vega20(_)) => false,
                Err(e) => vega10::parse_table(s@) matches Err(l) && parse_error_at(e, l),
            },
    {
        match detect_table_format(s) {
            TableFormat::Vega20 => match vega20::Table::from_str(s) {
                Ok(t) => Ok(ClocksTableGen::Vega20(t)),
                Err(e) => Err(e),
            },
            TableFormat::Vega10 => match vega10::Table::from_str(s) {
                Ok(t) => Ok(ClocksTableGen::Vega10(t)),
                Err(e) => Err(e),
            },
        }
    }

    /// Gets the current range of values for core clocks.
    pub fn get_current_sclk_range(&self) -> (r: Range)
        ensures
            r == self.current_sclk(),
    {
        match self {
            ClocksTableGen::Vega10(t) => t.get_current_sclk_range(),
            ClocksTableGen::Vega20(t) => t.get_current_sclk_range(),
        }
    }

    /// Gets the current range of values for memory clocks.
    pub fn get_current_mclk_range(&self) -> (r: Range)
        ensures
            r == self.current_mclk(),
    {
        match self {
            ClocksTableGen::Vega10(t) => t.get_current_mclk_range(),
            ClocksTableGen::Vega20(t) => t.get_current_mclk_range(),
        }
    }

    /// Gets the current maximum core clock.
    pub fn get_max_sclk(&self) -> (r: Option<i32>)
        ensures
            r == self.current_sclk().max,
    {
        self.get_current_sclk_range().max
    }

    /// Gets the current maximum memory clock.
    pub fn get_max_mclk(&self) -> (r: Option<i32>)
        ensures
            r == self.current_mclk().max,
    {
        self.get_current_mclk_range().max
    }

    /// Gets the current voltage range.
    pub fn get_current_voltage_range(&self) -> (r: Option<Range>)
        ensures
            match self {
                ClocksTableGen::Vega10(t) => r == Some(
                    vega10::ends_range(
                        vega10::first_voltage(t.sclk_levels@),
                        vega10::last_voltage(t.sclk_levels@),
                    ),
                ),
                ClocksTableGen::Vega20(t) => r == (if t.vddc_curve@.len() > 0 {
                    Some(
                        Range {
                            min: Some(t.vddc_curve@[0].voltage),
                            max: Some(t.vddc_curve@.last().voltage),
                        },
                    )
                } else {
                    None
                }),
            },
    {
        match self {
            ClocksTableGen::Vega10(t) => t.get_current_voltage_range(),
            ClocksTableGen::Vega20(t) => t.get_current_voltage_range(),
        }
    }

    /// Gets the current maximum voltage (used on maximum clockspeed).
    pub fn get_max_sclk_voltage(&self) -> (r: Option<i32>)
        ensures
            match self {
                ClocksTableGen::Vega10(t) => r == vega10::last_voltage(t.sclk_levels@),
                ClocksTableGen::Vega20(t) => r == vega10::last_voltage(t.vddc_curve@),
            },
    {
        match self {
            ClocksTableGen::Vega10(t) => t.get_max_sclk_voltage(),
            ClocksTableGen::Vega20(t) => t.get_max_sclk_voltage(),
        }
    }

    /// Gets the core clock range usable at the highest power level.
    pub fn get_max_sclk_range(&self) -> (r: Option<Range>)
        ensures
            r == self.allowed(Setting::MaxSclk),
    {
        match self {
            ClocksTableGen::Vega10(t) => t.get_max_sclk_range(),
            ClocksTableGen::Vega20(t) => t.get_max_sclk_range(),
        }
    }

    /// Gets the core clock range usable at the lowest power level.
    pub fn get_min_sclk_range(&self) -> (r: Option<Range>)
        ensures
            r == self.allowed(Setting::MinSclk),
    {
        match self {
            ClocksTableGen::Vega10(t) => t.get_min_sclk_range(),
            ClocksTableGen::Vega20(t) => t.get_min_sclk_range(),
        }
    }

    /// Gets the memory clock range usable at the highest power level.
    pub fn get_max_mclk_range(&self) -> (r: Option<Range>)
        ensures
            r == self.allowed(Setting::MaxMclk),
    {
        match self {
            ClocksTableGen::Vega10(t) => t.get_max_mclk_range(),
            ClocksTableGen::Vega20(t) => t.get_max_mclk_range(),
        }
    }

    /// Gets the memory clock range usable at the lowest power level.
    pub fn get_min_mclk_range(&self) -> (r: Option<Range>)
        ensures
            r == self.allowed(Setting::MinMclk),
    {
        match self {
            ClocksTableGen::Vega10(t) => t.get_min_mclk_range(),
            ClocksTableGen::Vega20(t) => t.get_min_mclk_range(),
        }
    }

    /// Gets the voltage range usable at the highest power level.
    pub fn get_max_voltage_range(&self) -> (r: Option<Range>)
        ensures
            r == self.allowed(Setting::MaxVoltage),
    {
        match self {
            ClocksTableGen::Vega10(t) => t.get_max_voltage_range(),
            ClocksTableGen::Vega20(t) => t.get_max_voltage_range(),
        }
    }

    /// Gets the voltage range usable at the lowest power level.
    pub fn get_min_voltage_range(&self) -> (r: Option<Range>)
        ensures
            r == self.allowed(Setting::MinVoltage),
    {
        match self {
            ClocksTableGen::Vega10(t) => t.get_min_voltage_range(),
            ClocksTableGen::Vega20(t) => t.get_min_voltage_range(),
        }
    }

    fn set_unchecked(&mut self, what: Setting, v: i32) -> (r: Result<(), Error>)
        ensures
            r is Ok <==> old(self).can_set(what),
            r is Ok ==> old(self).after_set(*final(self), what, v),
            r matches Err(e) ==> is_not_allowed(e) && old(self).same_values(*final(self)),
    {
        match self {
            ClocksTableGen::Vega10(t) => match what {
                Setting::MaxSclk => t.set_max_sclk_unchecked(v),
                Setting::MinSclk => t.set_min_sclk_unchecked(v),
                Setting::MaxMclk => t.set_max_mclk_unchecked(v),
                Setting::MinMclk => t.set_min_mclk_unchecked(v),
                Setting::MaxVoltage => t.set_max_voltage_unchecked(v),
                Setting::MinVoltage => t.set_min_voltage_unchecked(v),
            },
            ClocksTableGen::Vega20(t) => match what {
                Setting::MaxSclk => t.set_max_sclk_unchecked(v),
                Setting::MinSclk => t.set_min_sclk_unchecked(v),
                Setting::MaxMclk => t.set_max_mclk_unchecked(v),
                Setting::MinMclk => t.set_min_mclk_unchecked(v),
                Setting::MaxVoltage => t.set_max_voltage_unchecked(v),
                Setting::MinVoltage => t.set_min_voltage_unchecked(v),
            },
        }
    }

    fn set_checked(&mut self, what: Setting, v: i32) -> (r: Result<(), Error>)
        ensures
            r is Ok <==> in_allowed_range(old(self).allowed(what), v as int) && old(self).can_set(what),
            r is Ok ==> old(self).after_set(*final(self), what, v),
            r matches Err(e) ==> is_not_allowed(e) && old(self).same_values(*final(self)),
            !in_allowed_range(old(self).allowed(what), v as int) ==> (r matches Err(e) && message_of(e)
                == range_rejection(old(self).allowed(what), v as int)),
    {
        let range = match what {
            Setting::MaxSclk => self.get_max_sclk_range(),
            Setting::MinSclk => self.get_min_sclk_range(),
            Setting::MaxMclk => self.get_max_mclk_range(),
            Setting::MinMclk => self.get_min_mclk_range(),
            Setting::MaxVoltage => self.get_max_voltage_range(),
            Setting::MinVoltage => self.get_min_voltage_range(),
        };
        match check_clockspeed_in_range(range, v) {
            Ok(()) => {},
            Err(e) => {
                proof {
                    lemma_same_values_refl(*self);
                }
                return Err(e);
            },
        }
        self.set_unchecked(what, v)
    }

    /// Sets the maximum core clock if the reported range allows it.
    pub fn set_max_sclk(&mut self, clockspeed: i32) -> (r: Result<(), Error>)
        ensures
            r is Ok <==> in_allowed_range(old(self).allowed(Setting::MaxSclk), clockspeed as int)
                && old(self).can_set(Setting::MaxSclk),
            r is Ok ==> old(self).after_set(*final(self), Setting::MaxSclk, clockspeed),
            r matches Err(e) ==> is_not_allowed(e) && old(self).same_values(*final(self)),
            !in_allowed_range(old(self).allowed(Setting::MaxSclk), clockspeed as int) ==> (r matches Err(e)
                && message_of(e) == range_rejection(old(self).allowed(Setting::MaxSclk), clockspeed as int)),
    {
        self.set_checked(Setting::MaxSclk, clockspeed)
    }

    /// Sets the minimum core clock if the reported range allows it.
    pub fn set_min_sclk(&mut self, clockspeed: i32) -> (r: Result<(), Error>)
        ensures
            r is Ok <==> in_allowed_range(old(self).allowed(Setting::MinSclk), clockspeed as int)
                && old(self).can_set(Setting::MinSclk),
            r is Ok ==> old(self).after_set(*final(self), Setting::MinSclk, clockspeed),
            r matches Err(e) ==> is_not_allowed(e) && old(self).same_values(*final(self)),
            !in_allowed_range(old(self).allowed(Setting::MinSclk), clockspeed as int) ==> (r matches Err(e)
                && message_of(e) == range_rejection(old(self).allowed(Setting::MinSclk), clockspeed as int)),
    {
        self.set_checked(Setting::MinSclk, clockspeed)
    }

    /// Sets the maximum memory clock if the reported range allows it.
    pub fn set_max_mclk(&mut self, clockspeed: i32) -> (r: Result<(), Error>)
        ensures
            r is Ok <==> in_allowed_range(old(self).allowed(Setting::MaxMclk), clockspeed as int)
                && old(self).can_set(Setting::MaxMclk),
            r is Ok ==> old(self).after_set(*final(self), Setting::MaxMclk, clockspeed),
            r matches Err(e) ==> is_not_allowed(e) && old(self).same_values(*final(self)),
            !in_allowed_range(old(self).allowed(Setting::MaxMclk), clockspeed as int) ==> (r matches Err(e)
                && message_of(e) == range_rejection(old(self).allowed(Setting::MaxMclk), clockspeed as int)),
    {
        self.set_checked(Setting::MaxMclk, clockspeed)
    }

    /// Sets the minimum memory clock if the reported range allows it.
    pub fn set_min_mclk(&mut self, clockspeed: i32) -> (r: Result<(), Error>)
        ensures
            r is Ok <==> in_allowed_range(old(self).allowed(Setting::MinMclk), clockspeed as int)
                && old(self).can_set(Setting::MinMclk),
            r is Ok ==> old(self).after_set(*final(self), Setting::MinMclk, clockspeed),
            r matches Err(e) ==> is_not_allowed(e) && old(self).same_values(*final(self)),
            !in_allowed_range(old(self).allowed(Setting::MinMclk), clockspeed as int) ==> (r matches Err(e)
                && message_of(e) == range_rejection(old(self).allowed(Setting::MinMclk), clockspeed as int)),
    {
        self.set_checked(Setting::MinMclk, clockspeed)
    }

    /// Sets the voltage used at the maximum clockspeed if the reported range allows it.
    pub fn set_max_voltage(&mut self, voltage: i32) -> (r: Result<(), Error>)
        ensures
            r is Ok <==> in_allowed_range(old(self).allowed(Setting::MaxVoltage), voltage as int)
                && old(self).can_set(Setting::MaxVoltage),
            r is Ok ==> old(self).after_set(*final(self), Setting::MaxVoltage, voltage),
            r matches Err(e) ==> is_not_allowed(e) && old(self).same_values(*final(self)),
            !in_allowed_range(old(self).allowed(Setting::MaxVoltage), voltage as int) ==> (r matches Err(e)
                && message_of(e) == range_rejection(old(self).allowed(Setting::MaxVoltage), voltage as int)),
    {
        self.set_checked(Setting::MaxVoltage, voltage)
    }

    /// Sets the voltage used at the minimum clockspeed if the reported range allows it.
    pub fn set_min_voltage(&mut self, voltage: i32) -> (r: Result<(), Error>)
        ensures
            r is Ok <==> in_allowed_range(old(self).allowed(Setting::MinVoltage), voltage as int)
                && old(self).can_set(Setting::MinVoltage),
            r is Ok ==> old(self).after_set(*final(self), Setting::MinVoltage, voltage),
            r matches Err(e) ==> is_not_allowed(e) && old(self).same_values(*final(self)),
            !in_allowed_range(old(self).allowed(Setting::MinVoltage), voltage as int) ==> (r matches Err(e)
                && message_of(e) == range_rejection(old(self).allowed(Setting::MinVoltage), voltage as int)),
    {
        self.set_checked(Setting::MinVoltage, voltage)
    }

    /// Sets the maximum core clock without checking the allowed range.
    pub fn set_max_sclk_unchecked(&mut self, clockspeed: i32) -> (r: Result<(), Error>)
        ensures
            r is Ok <==> old(self).can_set(Setting::MaxSclk),
            r is Ok ==> old(self).after_set(*final(self), Setting::MaxSclk, clockspeed),
            r matches Err(e) ==> is_not_allowed(e) && old(self).same_values(*final(self)),
    {
        self.set_unchecked(Setting::MaxSclk, clockspeed)
    }

    /// Sets the minimum core clock without checking the allowed range.
    pub fn set_min_sclk_unchecked(&mut self, clockspeed: i32) -> (r: Result<(), Error>)
        ensures
            r is Ok <==> old(self).can_set(Setting::MinSclk),
            r is Ok ==> old(self).after_set(*final(self), Setting::MinSclk, clockspeed),
            r matches Err(e) ==> is_not_allowed(e) && old(self).same_values(*final(self)),
    {
        self.set_unchecked(Setting::MinSclk, clockspeed)
    }

    /// Sets the maximum memory clock without checking the allowed range.
    pub fn set_max_mclk_unchecked(&mut self, clockspeed: i32) -> (r: Result<(), Error>)
        ensures
            r is Ok <==> old(self).can_set(Setting::MaxMclk),
            r is Ok ==> old(self).after_set(*final(self), Setting::MaxMclk, clockspeed),
            r matches Err(e) ==> is_not_allowed(e) && old(self).same_values(*final(self)),
    {
        self.set_unchecked(Setting::MaxMclk, clockspeed)
    }

    /// Sets the minimum memory clock without checking the allowed range.
    pub fn set_min_mclk_unchecked(&mut self, clockspeed: i32) -> (r: Result<(), Error>)
        ensures
            r is Ok <==> old(self).can_set(Setting::MinMclk),
            r is Ok ==> old(self).after_set(*final(self), Setting::MinMclk, clockspeed),
            r matches Err(e) ==> is_not_allowed(e) && old(self).same_values(*final(self)),
    {
        self.set_unchecked(Setting::MinMclk, clockspeed)
    }

    /// Sets the voltage used at the maximum clockspeed without checking the allowed range.
    pub fn set_max_voltage_unchecked(&mut self, voltage: i32) -> (r: Result<(), Error>)
        ensures
            r is Ok <==> old(self).can_set(Setting::MaxVoltage),
            r is Ok ==> old(self).after_set(*final(self), Setting::MaxVoltage, voltage),
            r matches Err(e) ==> is_not_allowed(e) && old(self).same_values(*final(self)),
    {
        self.set_unchecked(Setting::MaxVoltage, voltage)
    }

    /// Sets the voltage used at the minimum clockspeed without checking the allowed range.
    pub fn set_min_voltage_unchecked(&mut self, voltage: i32) -> (r: Result<(), Error>)
        ensures
            r is Ok <==> old(self).can_set(Setting::MinVoltage),
            r is Ok ==> old(self).after_set(*final(self), Setting::MinVoltage, voltage),
            r matches Err(e) ==> is_not_allowed(e) && old(self).same_values(*final(self)),
    {
        self.set_unchecked(Setting::MinVoltage, voltage)
    }

    /// The command lines that apply this table, given the table the driver holds now.
    pub fn get_commands(&self, previous: &ClocksTableGen) -> (r: Result<Vec<String>, Error>)
        ensures
            match (self, previous) {
                (ClocksTableGen::Vega10(t), _) => r matches Ok(c) && c@.map_values(|s: String| s@)
                    == vega10::table_commands(t.sclk_levels@, t.mclk_levels@),
                (ClocksTableGen::Vega20(t), ClocksTableGen::Vega20(p)) => r matches Ok(c)
                    && c@.map_values(|s: String| s@) == vega20::table_commands(*t, *p),
                (ClocksTableGen::Vega20(_), ClocksTableGen::Vega10(_)) => r matches Err(e)
                    && is_not_allowed(e),
            },
    {
        match self {
            ClocksTableGen::Vega10(t) => {
                let c = t.get_commands();
                assert(c@.map_values(|s: String| s@) =~= vega10::table_commands(
                    t.sclk_levels@,
                    t.mclk_levels@,
                ));
                Ok(c)
            },
            ClocksTableGen::Vega20(t) => t.get_commands(previous),
        }
    }
}

proof fn lemma_same_values_refl(t: ClocksTableGen)
    ensures
        t.same_values(t),
{
    match t {
        ClocksTableGen::Vega10(a) => {
            assert(vega10::unchanged(a, a));
        },
        ClocksTableGen::Vega20(a) => {
            assert(vega20::unchanged(a, a));
        },
    }
}

impl From<vega10::Table> for ClocksTableGen {
    fn from(t: vega10::Table) -> (r: Self) {
        ClocksTableGen::Vega10(t)
    }
}

impl From<vega20::Table> for ClocksTableGen {
    fn from(t: vega20::Table) -> (r: Self) {
        ClocksTableGen::Vega20(t)
    }
}

impl vstd::std_specs::convert::FromSpecImpl<vega10::Table> for ClocksTableGen {
    open spec fn obeys_from_spec() -> bool {
        true
    }

    open spec fn from_spec(t: vega10::Table) -> Self {
        ClocksTableGen::Vega10(t)
    }
}

impl vstd::std_specs::convert::FromSpecImpl<vega20::Table> for ClocksTableGen {
    open spec fn obeys_from_spec() -> bool {
        true
    }

    open spec fn from_spec(t: vega20::Table) -> Self {
        ClocksTableGen::Vega20(t)
    }
}

/// What both table formats offer: reading the current clocks and the allowed ranges, and
/// setting the maximum and minimum clocks and voltages, checked against those ranges or not.
pub trait ClocksTable: Sized {
    /// The current core clock range.
    spec fn current_sclk(&self) -> Range;

    /// The current memory clock range.
    spec fn current_mclk(&self) -> Range;

    /// The range that a setting is checked against.
    spec fn allowed(&self, what: Setting) -> Option<Range>;

    /// Whether the table has what a setting changes.
    spec fn can_set(&self, what: Setting) -> bool;

    /// How the table changes when a setting is set to `v`.
    spec fn after_set(&self, next: Self, what: Setting, v: i32) -> bool;

    /// Whether two tables hold the same values.
    spec fn same_values(&self, next: Self) -> bool;

    /// Gets the current range of values for core clocks.
    fn get_current_sclk_range(&self) -> (r: Range)
        ensures
            r == self.current_sclk(),
    ;

    /// Gets the current range of values for memory clocks.
    fn get_current_mclk_range(&self) -> (r: Range)
        ensures
            r == self.current_mclk(),
    ;

    /// Gets the current maximum core clock.
    fn get_max_sclk(&self) -> (r: Option<i32>)
        ensures
            r == self.current_sclk().max,
    ;

    /// Gets the current maximum memory clock.
    fn get_max_mclk(&self) -> (r: Option<i32>)
        ensures
            r == self.current_mclk().max,
    ;

    /// Gets the core clock range usable at the highest power level.
    fn get_max_sclk_range(&self) -> (r: Option<Range>)
        ensures
            r == self.allowed(Setting::MaxSclk),
    ;

    /// Gets the core clock range usable at the lowest power level.
    fn get_min_sclk_range(&self) -> (r: Option<Range>)
        ensures
            r == self.allowed(Setting::MinSclk),
    ;

    /// Gets the memory clock range usable at the highest power level.
    fn get_max_mclk_range(&self) -> (r: Option<Range>)
        ensures
            r == self.allowed(Setting::MaxMclk),
    ;

    /// Gets the memory clock range usable at the lowest power level.
    fn get_min_mclk_range(&self) -> (r: Option<Range>)
        ensures
            r == self.allowed(Setting::MinMclk),
    ;

    /// Gets the voltage range usable at the highest power level.
    fn get_max_voltage_range(&self) -> (r: Option<Range>)
        ensures
            r == self.allowed(Setting::MaxVoltage),
    ;

    /// Gets the voltage range usable at the lowest power level.
    fn get_min_voltage_range(&self) -> (r: Option<Range>)
        ensures
            r == self.allowed(Setting::MinVoltage),
    ;

    /// Sets the maximum core clock if the reported range allows it.
    fn set_max_sclk(&mut self, clockspeed: i32) -> (r: Result<(), Error>)
        ensures
            r is Ok <==> in_allowed_range(old(self).allowed(Setting::MaxSclk), clockspeed as int)
                && old(self).can_set(Setting::MaxSclk),
            r is Ok ==> old(self).after_set(*final(self), Setting::MaxSclk, clockspeed),
            r matches Err(e) ==> is_not_allowed(e) && old(self).same_values(*final(self)),
            !in_allowed_range(old(self).allowed(Setting::MaxSclk), clockspeed as int) ==> (r matches Err(e)
                && message_of(e) == range_rejection(old(self).allowed(Setting::MaxSclk), clockspeed as int)),
    ;

    /// Sets the maximum core clock without checking the allowed range.
    fn set_max_sclk_unchecked(&mut self, clockspeed: i32) -> (r: Result<(), Error>)
        ensures
            r is Ok <==> old(self).can_set(Setting::MaxSclk),
            r is Ok ==> old(self).after_set(*final(self), Setting::MaxSclk, clockspeed),
            r matches Err(e) ==> is_not_allowed(e) && old(self).same_values(*final(self)),
    ;

    /// Sets the minimum core clock if the reported range allows it.
    fn set_min_sclk(&mut self, clockspeed: i32) -> (r: Result<(), Error>)
        ensures
            r is Ok <==> in_allowed_range(old(self).allowed(Setting::MinSclk), clockspeed as int)
                && old(self).can_set(Setting::MinSclk),
            r is Ok ==> old(self).after_set(*final(self), Setting::MinSclk, clockspeed),
            r matches Err(e) ==> is_not_allowed(e) && old(self).same_values(*final(self)),
            !in_allowed_range(old(self).allowed(Setting::MinSclk), clockspeed as int) ==> (r matches Err(e)
                && message_of(e) == range_rejection(old(self).allowed(Setting::MinSclk), clockspeed as int)),
    ;

    /// Sets the minimum core clock without checking the allowed range.
    fn set_min_sclk_unchecked(&mut self, clockspeed: i32) -> (r: Result<(), Error>)
        ensures
            r is Ok <==> old(self).can_set(Setting::MinSclk),
            r is Ok ==> old(self).after_set(*final(self), Setting::MinSclk, clockspeed),
            r matches Err(e) ==> is_not_allowed(e) && old(self).same_values(*final(self)),
    ;

    /// Sets the maximum memory clock if the reported range allows it.
    fn set_max_mclk(&mut self, clockspeed: i32) -> (r: Result<(), Error>)
        ensures
            r is Ok <==> in_allowed_range(old(self).allowed(Setting::MaxMclk), clockspeed as int)
                && old(self).can_set(Setting::MaxMclk),
            r is Ok ==> old(self).after_set(*final(self), Setting::MaxMclk, clockspeed),
            r matches Err(e) ==> is_not_allowed(e) && old(self).same_values(*final(self)),
            !in_allowed_range(old(self).allowed(Setting::MaxMclk), clockspeed as int) ==> (r matches Err(e)
                && message_of(e) == range_rejection(old(self).allowed(Setting::MaxMclk), clockspeed as int)),
    ;

    /// Sets the maximum memory clock without checking the allowed range.
    fn set_max_mclk_unchecked(&mut self, clockspeed: i32) -> (r: Result<(), Error>)
        ensures
            r is Ok <==> old(self).can_set(Setting::MaxMclk),
            r is Ok ==> old(self).after_set(*final(self), Setting::MaxMclk, clockspeed),
            r matches Err(e) ==> is_not_allowed(e) && old(self).same_values(*final(self)),
    ;

    /// Sets the minimum memory clock if the reported range allows it.
    fn set_min_mclk(&mut self, clockspeed: i32) -> (r: Result<(), Error>)
        ensures
            r is Ok <==> in_allowed_range(old(self).allowed(Setting::MinMclk), clockspeed as int)
                && old(self).can_set(Setting::MinMclk),
            r is Ok ==> old(self).after_set(*final(self), Setting::MinMclk, clockspeed),
            r matches Err(e) ==> is_not_allowed(e) && old(self).same_values(*final(self)),
            !in_allowed_range(old(self).allowed(Setting::MinMclk), clockspeed as int) ==> (r matches Err(e)
                && message_of(e) == range_rejection(old(self).allowed(Setting::MinMclk), clockspeed as int)),
    ;

    /// Sets the minimum memory clock without checking the allowed range.
    fn set_min_mclk_unchecked(&mut self, clockspeed: i32) -> (r: Result<(), Error>)
        ensures
            r is Ok <==> old(self).can_set(Setting::MinMclk),
            r is Ok ==> old(self).after_set(*final(self), Setting::MinMclk, clockspeed),
            r matches Err(e) ==> is_not_allowed(e) && old(self).same_values(*final(self)),
    ;

    /// Sets the voltage used at the maximum clockspeed if the reported range allows it.
    fn set_max_voltage(&mut self, voltage: i32) -> (r: Result<(), Error>)
        ensures
            r is Ok <==> in_allowed_range(old(self).allowed(Setting::MaxVoltage), voltage as int)
                && old(self).can_set(Setting::MaxVoltage),
            r is Ok ==> old(self).after_set(*final(self), Setting::MaxVoltage, voltage),
            r matches Err(e) ==> is_not_allowed(e) && old(self).same_values(*final(self)),
            !in_allowed_range(old(self).allowed(Setting::MaxVoltage), voltage as int) ==> (r matches Err(e)
                && message_of(e) == range_rejection(old(self).allowed(Setting::MaxVoltage), voltage as int)),
    ;

    /// Sets the voltage used at the maximum clockspeed without checking the allowed range.
    fn set_max_voltage_unchecked(&mut self, voltage: i32) -> (r: Result<(), Error>)
        ensures
            r is Ok <==> old(self).can_set(Setting::MaxVoltage),
            r is Ok ==> old(self).after_set(*final(self), Setting::MaxVoltage, voltage),
            r matches Err(e) ==> is_not_allowed(e) && old(self).same_values(*final(self)),
    ;

    /// Sets the voltage used at the minimum clockspeed if the reported range allows it.
    fn set_min_voltage(&mut self, voltage: i32) -> (r: Result<(), Error>)
        ensures
            r is Ok <==> in_allowed_range(old(self).allowed(Setting::MinVoltage), voltage as int)
                && old(self).can_set(Setting::MinVoltage),
            r is Ok ==> old(self).after_set(*final(self), Setting::MinVoltage, voltage),
            r matches Err(e) ==> is_not_allowed(e) && old(self).same_values(*final(self)),
            !in_allowed_range(old(self).allowed(Setting::MinVoltage), voltage as int) ==> (r matches Err(e)
                && message_of(e) == range_rejection(old(self).allowed(Setting::MinVoltage), voltage as int)),
    ;

    /// Sets the voltage used at the minimum clockspeed without checking the allowed range.
    fn set_min_voltage_unchecked(&mut self, voltage: i32) -> (r: Result<(), Error>)
        ensures
            r is Ok <==> old(self).can_set(Setting::MinVoltage),
            r is Ok ==> old(self).after_set(*final(self), Setting::MinVoltage, voltage),
            r matches Err(e) ==> is_not_allowed(e) && old(self).same_values(*final(self)),
    ;
}

impl ClocksTable for vega10::Table {
    open spec fn current_sclk(&self) -> Range {
        vega10::ends_range(vega10::first_clock(self.sclk_levels@), vega10::last_clock(self.sclk_levels@))
    }

    open spec fn current_mclk(&self) -> Range {
        vega10::ends_range(vega10::first_clock(self.mclk_levels@), vega10::last_clock(self.mclk_levels@))
    }

    open spec fn allowed(&self, what: Setting) -> Option<Range> {
        vega10::allowed_range(*self, what)
    }

    open spec fn can_set(&self, what: Setting) -> bool {
        vega10::can_set(*self, what)
    }

    open spec fn after_set(&self, next: Self, what: Setting, v: i32) -> bool {
        vega10::after_set(*self, next, what, v)
    }

    open spec fn same_values(&self, next: Self) -> bool {
        vega10::unchanged(*self, next)
    }

    fn get_current_sclk_range(&self) -> (r: Range) {
        vega10::Table::get_current_sclk_range(self)
    }

    fn get_current_mclk_range(&self) -> (r: Range) {
        vega10::Table::get_current_mclk_range(self)
    }

    fn get_max_sclk(&self) -> (r: Option<i32>) {
        vega10::Table::get_max_sclk(self)
    }

    fn get_max_mclk(&self) -> (r: Option<i32>) {
        vega10::Table::get_max_mclk(self)
    }

    fn get_max_sclk_range(&self) -> (r: Option<Range>) {
        vega10::Table::get_max_sclk_range(self)
    }

    fn get_min_sclk_range(&self) -> (r: Option<Range>) {
        vega10::Table::get_min_sclk_range(self)
    }

    fn get_max_mclk_range(&self) -> (r: Option<Range>) {
        vega10::Table::get_max_mclk_range(self)
    }

    fn get_min_mclk_range(&self) -> (r: Option<Range>) {
        vega10::Table::get_min_mclk_range(self)
    }

    fn get_max_voltage_range(&self) -> (r: Option<Range>) {
        vega10::Table::get_max_voltage_range(self)
    }

    fn get_min_voltage_range(&self) -> (r: Option<Range>) {
        vega10::Table::get_min_voltage_range(self)
    }

    fn set_max_sclk(&mut self, clockspeed: i32) -> (r: Result<(), Error>) {
        vega10::Table::set_max_sclk(self, clockspeed)
    }

    fn set_max_sclk_unchecked(&mut self, clockspeed: i32) -> (r: Result<(), Error>) {
        vega10::Table::set_max_sclk_unchecked(self, clockspeed)
    }

    fn set_min_sclk(&mut self, clockspeed: i32) -> (r: Result<(), Error>) {
        vega10::Table::set_min_sclk(self, clockspeed)
    }

    fn set_min_sclk_unchecked(&mut self, clockspeed: i32) -> (r: Result<(), Error>) {
        vega10::Table::set_min_sclk_unchecked(self, clockspeed)
    }

    fn set_max_mclk(&mut self, clockspeed: i32) -> (r: Result<(), Error>) {
        vega10::Table::set_max_mclk(self, clockspeed)
    }

    fn set_max_mclk_unchecked(&mut self, clockspeed: i32) -> (r: Result<(), Error>) {
        vega10::Table::set_max_mclk_unchecked(self, clockspeed)
    }

    fn set_min_mclk(&mut self, clockspeed: i32) -> (r: Result<(), Error>) {
        vega10::Table::set_min_mclk(self, clockspeed)
    }

    fn set_min_mclk_unchecked(&mut self, clockspeed: i32) -> (r: Result<(), Error>) {
        vega10::Table::set_min_mclk_unchecked(self, clockspeed)
    }

    fn set_max_voltage(&mut self, voltage: i32) -> (r: Result<(), Error>) {
        vega10::Table::set_max_voltage(self, voltage)
    }

    fn set_max_voltage_unchecked(&mut self, voltage: i32) -> (r: Result<(), Error>) {
        vega10::Table::set_max_voltage_unchecked(self, voltage)
    }

    fn set_min_voltage(&mut self, voltage: i32) -> (r: Result<(), Error>) {
        vega10::Table::set_min_voltage(self, voltage)
    }

    fn set_min_voltage_unchecked(&mut self, voltage: i32) -> (r: Result<(), Error>) {
        vega10::Table::set_min_voltage_unchecked(self, voltage)
    }
}

impl ClocksTable for vega20::Table {
    open spec fn current_sclk(&self) -> Range {
        self.current_sclk_range
    }

    open spec fn current_mclk(&self) -> Range {
        self.current_mclk_range
    }

    open spec fn allowed(&self, what: Setting) -> Option<Range> {
        vega20::allowed_range(*self, what)
    }

    open spec fn can_set(&self, what: Setting) -> bool {
        vega20::can_set(*self, what)
    }

    open spec fn after_set(&self, next: Self, what: Setting, v: i32) -> bool {
        vega20::after_set(*self, next, what, v)
    }

    open spec fn same_values(&self, next: Self) -> bool {
        vega20::unchanged(*self, next)
    }

    fn get_current_sclk_range(&self) -> (r: Range) {
        vega20::Table::get_current_sclk_range(self)
    }

    fn get_current_mclk_range(&self) -> (r: Range) {
        vega20::Table::get_current_mclk_range(self)
    }

    fn get_max_sclk(&self) -> (r: Option<i32>) {
        vega20::Table::get_max_sclk(self)
    }

    fn get_max_mclk(&self) -> (r: Option<i32>) {
        vega20::Table::get_max_mclk(self)
    }

    fn get_max_sclk_range(&self) -> (r: Option<Range>) {
        vega20::Table::get_max_sclk_range(self)
    }

    fn get_min_sclk_range(&self) -> (r: Option<Range>) {
        vega20::Table::get_min_sclk_range(self)
    }

    fn get_max_mclk_range(&self) -> (r: Option<Range>) {
        vega20::Table::get_max_mclk_range(self)
    }

    fn get_min_mclk_range(&self) -> (r: Option<Range>) {
        vega20::Table::get_min_mclk_range(self)
    }

    fn get_max_voltage_range(&self) -> (r: Option<Range>) {
        vega20::Table::get_max_voltage_range(self)
    }

    fn get_min_voltage_range(&self) -> (r: Option<Range>) {
        vega20::Table::get_min_voltage_range(self)
    }

    fn set_max_sclk(&mut self, clockspeed: i32) -> (r: Result<(), Error>) {
        vega20::Table::set_max_sclk(self, clockspeed)
    }

    fn set_max_sclk_unchecked(&mut self, clockspeed: i32) -> (r: Result<(), Error>) {
        vega20::Table::set_max_sclk_unchecked(self, clockspeed)
    }

    fn set_min_sclk(&mut self, clockspeed: i32) -> (r: Result<(), Error>) {
        vega20::Table::set_min_sclk(self, clockspeed)
    }

    fn set_min_sclk_unchecked(&mut self, clockspeed: i32) -> (r: Result<(), Error>) {
        vega20::Table::set_min_sclk_unchecked(self, clockspeed)
    }

    fn set_max_mclk(&mut self, clockspeed: i32) -> (r: Result<(), Error>) {
        vega20::Table::set_max_mclk(self, clockspeed)
    }

    fn set_max_mclk_unchecked(&mut self, clockspeed: i32) -> (r: Result<(), Error>) {
        vega20::Table::set_max_mclk_unchecked(self, clockspeed)
    }

    fn set_min_mclk(&mut self, clockspeed: i32) -> (r: Result<(), Error>) {
        vega20::Table::set_min_mclk(self, clockspeed)
    }

    fn set_min_mclk_unchecked(&mut self, clockspeed: i32) -> (r: Result<(), Error>) {
        vega20::Table::set_min_mclk_unchecked(self, clockspeed)
    }

    fn set_max_voltage(&mut self, voltage: i32) -> (r: Result<(), Error>) {
        vega20::Table::set_max_voltage(self, voltage)
    }

    fn set_max_voltage_unchecked(&mut self, voltage: i32) -> (r: Result<(), Error>) {
        vega20::Table::set_max_voltage_unchecked(self, voltage)
    }

    fn set_min_voltage(&mut self, voltage: i32) -> (r: Result<(), Error>) {
        vega20::Table::set_min_voltage(self, voltage)
    }

    fn set_min_voltage_unchecked(&mut self, voltage: i32) -> (r: Result<(), Error>) {
        vega20::Table::set_min_voltage_unchecked(self, voltage)
    }
}

impl ClocksTable for ClocksTableGen {
    open spec fn current_sclk(&self) -> Range {
        ClocksTableGen::current_sclk(*self)
    }

    open spec fn current_mclk(&self) -> Range {
        ClocksTableGen::current_mclk(*self)
    }

    open spec fn allowed(&self, what: Setting) -> Option<Range> {
        ClocksTableGen::allowed(*self, what)
    }

    open spec fn can_set(&self, what: Setting) -> bool {
        ClocksTableGen::can_set(*self, what)
    }

    open spec fn after_set(&self, next: Self, what: Setting, v: i32) -> bool {
        ClocksTableGen::after_set(*self, next, what, v)
    }

    open spec fn same_values(&self, next: Self) -> bool {
        ClocksTableGen::same_values(*self, next)
    }

    fn get_current_sclk_range(&self) -> (r: Range) {
        ClocksTableGen::get_current_sclk_range(self)
    }

    fn get_current_mclk_range(&self) -> (r: Range) {
        ClocksTableGen::get_current_mclk_range(self)
    }

    fn get_max_sclk(&self) -> (r: Option<i32>) {
        ClocksTableGen::get_max_sclk(self)
    }

    fn get_max_mclk(&self) -> (r: Option<i32>) {
        ClocksTableGen::get_max_mclk(self)
    }

    fn get_max_sclk_range(&self) -> (r: Option<Range>) {
        ClocksTableGen::get_max_sclk_range(self)
    }

    fn get_min_sclk_range(&self) -> (r: Option<Range>) {
        ClocksTableGen::get_min_sclk_range(self)
    }

    fn get_max_mclk_range(&self) -> (r: Option<Range>) {
        ClocksTableGen::get_max_mclk_range(self)
    }

    fn get_min_mclk_range(&self) -> (r: Option<Range>) {
        ClocksTableGen::get_min_mclk_range(self)
    }

    fn get_max_voltage_range(&self) -> (r: Option<Range>) {
        ClocksTableGen::get_max_voltage_range(self)
    }

    fn get_min_voltage_range(&self) -> (r: Option<Range>) {
        ClocksTableGen::get_min_voltage_range(self)
    }

    fn set_max_sclk(&mut self, clockspeed: i32) -> (r: Result<(), Error>) {
        ClocksTableGen::set_max_sclk(self, clockspeed)
    }

    fn set_max_sclk_unchecked(&mut self, clockspeed: i32) -> (r: Result<(), Error>) {
        ClocksTableGen::set_max_sclk_unchecked(self, clockspeed)
    }

    fn set_min_sclk(&mut self, clockspeed: i32) -> (r: Result<(), Error>) {
        ClocksTableGen::set_min_sclk(self, clockspeed)
    }

    fn set_min_sclk_unchecked(&mut self, clockspeed: i32) -> (r: Result<(), Error>) {
        ClocksTableGen::set_min_sclk_unchecked(self, clockspeed)
    }

    fn set_max_mclk(&mut self, clockspeed: i32) -> (r: Result<(), Error>) {
        ClocksTableGen::set_max_mclk(self, clockspeed)
    }

    fn set_max_mclk_unchecked(&mut self, clockspeed: i32) -> (r: Result<(), Error>) {
        ClocksTableGen::set_max_mclk_unchecked(self, clockspeed)
    }

    fn set_min_mclk(&mut self, clockspeed: i32) -> (r: Result<(), Error>) {
        ClocksTableGen::set_min_mclk(self, clockspeed)
    }

    fn set_min_mclk_unchecked(&mut self, clockspeed: i32) -> (r: Result<(), Error>) {
        ClocksTableGen::set_min_mclk_unchecked(self, clockspeed)
    }

    fn set_max_voltage(&mut self, voltage: i32) -> (r: Result<(), Error>) {
        ClocksTableGen::set_max_voltage(self, voltage)
    }

    fn set_max_voltage_unchecked(&mut self, voltage: i32) -> (r: Result<(), Error>) {
        ClocksTableGen::set_max_voltage_unchecked(self, voltage)
    }

    fn set_min_voltage(&mut self, voltage: i32) -> (r: Result<(), Error>) {
        ClocksTableGen::set_min_voltage(self, voltage)
    }

    fn set_min_voltage_unchecked(&mut self, voltage: i32) -> (r: Result<(), Error>) {
        ClocksTableGen::set_min_voltage_unchecked(self, voltage)
    }
}

} // verus!
