//! Types for the dedicated fan control interface (`gpu_od/fan_ctrl`).
//! Only for Navi 3x (RDNA 3) and newer; older GPUs have to use the HwMon interface.
use crate::error::Error;
use crate::sysfs::{split_once_char, trim_end_char, unsigned_at_most};
use crate::text::{eq_str, lines, parse_unsigned, split_lines, to_chars, to_string};
use vstd::prelude::*;

verus! {

/// Information about fan characteristics.
#[derive(Debug, Clone, Copy, PartialEq, Eq)]
pub struct FanInfo {
    /// Current value
    pub current: u32,
    /// Minimum and maximum allowed values.
    /// This is empty if changes to the value are not supported.
    pub allowed_range: Option<(u32, u32)>,
}

/// Custom fan curve
#[derive(Debug, Clone, PartialEq, Eq)]
pub struct FanCurve {
    /// Fan curve points in the (temperature, speed) format
    pub points: Vec<(u32, u8)>,
    /// Allowed value ranges.
    /// Empty when changes to the fan curve are not supported.
    pub allowed_ranges: Option<FanCurveRanges>,
}

/// Range of values allowed to be used within fan curve points
#[derive(Debug, Clone, Copy, PartialEq, Eq)]
pub struct FanCurveRanges {
    /// Temperature range allowed in curve points
    pub temperature_range: (u32, u32),
    /// Fan speed range allowed in curve points
    pub speed_range: (u8, u8),
}

/// The parts of a fan control file: the section's content, and the allowed ranges by name.
#[derive(Debug, PartialEq, Eq)]
pub struct FanCtrlContents {
    pub contents: String,
    pub od_range: Vec<(String, (String, String))>,
}

/// Whether `v` lies in `[lo, hi]`.
pub open spec fn within(v: int, range: (u32, u32)) -> bool {
    range.0 <= v <= range.1
}

impl FanCtrlContents {
    /// Splits a fan control file: a `SECTION:` line that must name the expected section,
    /// the content lines up to `OD_RANGE:`, then `NAME: MIN MAX` range lines.
    pub fn parse(data: &str, expected_section_name: &str) -> (r: Result<Self, Error>)
        ensures
            r is Ok ==> lines(data@).len() > 0 && lines(data@)[0] == expected_section_name@ + seq![':'],
    {
        let chars = to_chars(data);
        let ls = split_lines(chars.as_slice());
        if ls.len() == 0 {
            return Err(Error::unexpected_eol("Section name", 1));
        }
        let first = &ls[0];
        let n = first.len();
        if n == 0 || first[n - 1] != ':' {
            return Err(Error::parse_error("Section should end with \":\"", 1));
        }
        let name = crate::text::copy_range(first.as_slice(), 0, n - 1);
        if !eq_str(name.as_slice(), expected_section_name) {
            return Err(Error::parse_error("Unexpected section", 1));
        }
        assert(first@ =~= name@ + seq![':']);
        let mut contents: Vec<char> = Vec::new();
        let mut k: usize = 1;
        while k < ls.len()
            invariant
                1 <= k <= ls@.len(),
            decreases ls@.len() - k,
        {
            if eq_str(ls[k].as_slice(), "OD_RANGE:") {
                break;
            }
            if k > 1 {
                contents.push('\n');
            }
            crate::text::push_chars(&mut contents, ls[k].as_slice());
            k += 1;
        }
        let mut od_range: Vec<(String, (String, String))> = Vec::new();
        if k < ls.len() {
            k += 1;
        }
        while k < ls.len()
            invariant
                1 <= k <= ls@.len(),
            decreases ls@.len() - k,
        {
            let line = &ls[k];
            let (name, value) = match split_once_char(line.as_slice(), ':') {
                Some((a, b)) if b.len() > 0 && b[0] == ' ' => (a, crate::text::copy_range(b.as_slice(), 1, b.len())),
                _ => {
                    return Err(Error::parse_error("Range line does not have a separator", k + 1));
                },
            };
            let (min, max) = match split_once_char(value.as_slice(), ' ') {
                Some(p) => p,
                None => {
                    return Err(Error::parse_error("Range line does not have a separator between the values", k + 1));
                },
            };
            od_range.push((
                to_string(name.as_slice()),
                (to_string(min.as_slice()), to_string(max.as_slice())),
            ));
            k += 1;
        }
        Ok(FanCtrlContents { contents: to_string(contents.as_slice()), od_range })
    }

    /// The range reported under `name` (the last one when it repeats).
    pub fn range(&self, name: &str) -> (r: Option<(String, String)>)
        ensures
            match r {
                Some((a, b)) => range_named(self.od_range@, name@) == Some((a@, b@)),
                None => range_named(self.od_range@, name@) is None,
            },
    {
        let mut found: Option<(String, String)> = None;
        let mut k: usize = 0;
        while k < self.od_range.len()
            invariant
                k <= self.od_range@.len(),
                match found {
                    Some((a, b)) => range_named(self.od_range@.subrange(0, k as int), name@) == Some((a@, b@)),
                    None => range_named(self.od_range@.subrange(0, k as int), name@) is None,
                },
            decreases self.od_range@.len() - k,
        {
            assert(self.od_range@.subrange(0, k + 1).drop_last() =~= self.od_range@.subrange(0, k as int));
            let entry = &self.od_range[k];
            if eq_str(to_chars(entry.0.as_str()).as_slice(), name) {
                let a = to_string(to_chars((entry.1).0.as_str()).as_slice());
                let b = to_string(to_chars((entry.1).1.as_str()).as_slice());
                found = Some((a, b));
            }
            k += 1;
        }
        assert(self.od_range@.subrange(0, k as int) =~= self.od_range@);
        found
    }
}

/// The last range reported under `name`.
pub open spec fn range_named(entries: Seq<(String, (String, String))>, name: Seq<char>) -> Option<(Seq<char>, Seq<char>)>
    decreases entries.len(),
{
    if entries.len() == 0 {
        None
    } else if entries.last().0@ == name {
        Some(((entries.last().1).0@, (entries.last().1).1@))
    } else {
        range_named(entries.drop_last(), name)
    }
}

/// A value read as a `u32`.
pub open spec fn u32_of(t: Seq<char>) -> Option<u32> {
    match unsigned_at_most(t, u32::MAX as int) {
        Some(v) => Some(v as u32),
        None => None,
    }
}

/// The fan setting that a section's content and its reported range describe.
pub open spec fn fan_info_of(contents: Seq<char>, range: Option<(Seq<char>, Seq<char>)>) -> Option<FanInfo> {
    match u32_of(contents) {
        None => None,
        Some(current) => match range {
            None => Some(FanInfo { current, allowed_range: None }),
            Some((a, b)) => match (u32_of(a), u32_of(b)) {
                (Some(lo), Some(hi)) => Some(FanInfo { current, allowed_range: Some((lo, hi)) }),
                _ => None,
            },
        },
    }
}

fn number_of(text: &[char], hi: u64) -> (r: Result<u64, Error>)
    ensures
        match r {
            Ok(v) => unsigned_at_most(text@, hi as int) == Some(v as int),
            Err(_) => unsigned_at_most(text@, hi as int) is None,
        },
{
    match parse_unsigned(text, hi) {
        Some(v) => Ok(v),
        None => Err(Error::parse_error("Could not parse the value as a number", 1)),
    }
}

/// Reads the value and allowed range of a single-value fan setting.
pub fn fan_info(contents: &FanCtrlContents, range_name: &str) -> (r: Result<FanInfo, Error>)
    ensures
        match r {
            Ok(info) => fan_info_of(contents.contents@, range_named(contents.od_range@, range_name@))
                == Some(info),
            Err(_) => fan_info_of(contents.contents@, range_named(contents.od_range@, range_name@)) is None,
        },
{
    let current = number_of(to_chars(contents.contents.as_str()).as_slice(), u32::MAX as u64)? as u32;
    let allowed_range = match contents.range(range_name) {
        Some((raw_min, raw_max)) => {
            let min = number_of(to_chars(raw_min.as_str()).as_slice(), u32::MAX as u64)? as u32;
            let max = number_of(to_chars(raw_max.as_str()).as_slice(), u32::MAX as u64)? as u32;
            Some((min, max))
        },
        None => None,
    };
    Ok(FanInfo { current, allowed_range })
}

/// Accepts a new value for a fan setting when its range is reported and holds it.
pub fn check_fan_value(info: FanInfo, value: u32) -> (r: Result<(), Error>)
    ensures
        r is Ok <==> (info.allowed_range matches Some(range) && within(value as int, range)),
        r matches Err(e) ==> crate::error::is_not_allowed(e),
{
    match info.allowed_range {
        Some((min, max)) => if min <= value && value <= max {
            Ok(())
        } else {
            Err(Error::not_allowed(to_string(to_chars("Value is out of range").as_slice())))
        },
        None => Err(Error::not_allowed(to_string(to_chars("Changes to this value are not allowed").as_slice()))),
    }
}

/// Reads a fan curve file: one `INDEX: TEMPC SPEED%` line per point, and the allowed
/// temperature and speed ranges when both are reported.
pub fn fan_curve(contents: &FanCtrlContents) -> (r: Result<FanCurve, Error>) {
    let chars = to_chars(contents.contents.as_str());
    let ls = split_lines(chars.as_slice());
    let mut points: Vec<(u32, u8)> = Vec::new();
    let mut k: usize = 0;
    while k < ls.len()
        invariant
            k <= ls@.len(),
        decreases ls@.len() - k,
    {
        let line = &ls[k];
        let rest = match split_once_char(line.as_slice(), ' ') {
            Some((_, b)) => b,
            None => {
                return Err(Error::unexpected_eol("Temperature value", k));
            },
        };
        let (raw_temp, rest) = match split_once_char(rest.as_slice(), ' ') {
            Some(p) => p,
            None => (rest, Vec::new()),
        };
        let raw_speed = match split_once_char(rest.as_slice(), ' ') {
            Some((a, _)) => a,
            None => rest,
        };
        if raw_speed.len() == 0 {
            return Err(Error::unexpected_eol("Speed value", k));
        }
        let temp = number_of(trim_end_char(raw_temp.as_slice(), 'C').as_slice(), u32::MAX as u64)? as u32;
        let speed = number_of(trim_end_char(raw_speed.as_slice(), '%').as_slice(), u8::MAX as u64)? as u8;
        points.push((temp, speed));
        k += 1;
    }
    let allowed_ranges = match (contents.range("FAN_CURVE(hotspot temp)"), contents.range("FAN_CURVE(fan speed)")) {
        (Some((min_temp, max_temp)), Some((min_speed, max_speed))) => {
            let min_temp = number_of(trim_end_char(to_chars(min_temp.as_str()).as_slice(), 'C').as_slice(), u32::MAX as u64)? as u32;
            let max_temp = number_of(trim_end_char(to_chars(max_temp.as_str()).as_slice(), 'C').as_slice(), u32::MAX as u64)? as u32;
            let min_speed = number_of(trim_end_char(to_chars(min_speed.as_str()).as_slice(), '%').as_slice(), u8::MAX as u64)? as u8;
            let max_speed = number_of(trim_end_char(to_chars(max_speed.as_str()).as_slice(), '%').as_slice(), u8::MAX as u64)? as u8;
            Some(FanCurveRanges { temperature_range: (min_temp, max_temp), speed_range: (min_speed, max_speed) })
        },
        _ => None,
    };
    Ok(FanCurve { points, allowed_ranges })
}

/// Whether every point of a curve lies within the allowed ranges.
pub open spec fn curve_allowed(points: Seq<(u32, u8)>, ranges: FanCurveRanges) -> bool {
    forall|k: int| 0 <= k < points.len() ==> {
        &&& ranges.temperature_range.0 <= (#[trigger] points[k]).0 <= ranges.temperature_range.1
        &&& ranges.speed_range.0 <= points[k].1 <= ranges.speed_range.1
    }
}

/// The lines that write a fan curve, `<index> <temperature> <speed>` per point, when the
/// current curve reports ranges and every point lies within them.
pub fn fan_curve_commands(current: &FanCurve, new_curve: &FanCurve) -> (r: Result<Vec<String>, Error>)
    ensures
        r is Ok <==> (current.allowed_ranges matches Some(ranges) && curve_allowed(new_curve.points@, ranges)),
        r matches Ok(lines) ==> lines@.len() == new_curve.points@.len(),
        r matches Err(e) ==> crate::error::is_not_allowed(e),
{
    let ranges = match current.allowed_ranges {
        Some(r) => r,
        None => {
            return Err(Error::not_allowed(to_string(to_chars("Changes to the fan curve are not supported").as_slice())));
        },
    };
    let mut out: Vec<String> = Vec::new();
    let mut k: usize = 0;
    while k < new_curve.points.len()
        invariant
            current.allowed_ranges == Some(ranges),
            k <= new_curve.points@.len(),
            out@.len() == k,
            forall|j: int| 0 <= j < k ==> {
                &&& ranges.temperature_range.0 <= (#[trigger] new_curve.points@[j]).0 <= ranges.temperature_range.1
                &&& ranges.speed_range.0 <= new_curve.points@[j].1 <= ranges.speed_range.1
            },
        decreases new_curve.points@.len() - k,
    {
        let (temperature, speed) = new_curve.points[k];
        assert(new_curve.points@[k as int] == (temperature, speed));
        if !(ranges.temperature_range.0 <= temperature && temperature <= ranges.temperature_range.1) {
            return Err(Error::not_allowed(to_string(to_chars("Temperature value is outside of the allowed range").as_slice())));
        }
        if !(ranges.speed_range.0 <= speed && speed <= ranges.speed_range.1) {
            return Err(Error::not_allowed(to_string(to_chars("Speed value is outside of the allowed range").as_slice())));
        }
        let mut line: Vec<char> = Vec::new();
        crate::text::push_u64(&mut line, k as u64);
        line.push(' ');
        crate::text::push_u64(&mut line, temperature as u64);
        line.push(' ');
        crate::text::push_u64(&mut line, speed as u64);
        out.push(to_string(line.as_slice()));
        k += 1;
    }
    Ok(out)
}

} // verus!
