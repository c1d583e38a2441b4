//! DPM power levels (`pp_dpm_*`).
use crate::error::Error;
use crate::gpu_handle::overdrive::ends_with_ci;
use crate::sysfs::{unsigned_at_most, pieces, split_char, split_once, split_once_char};
use crate::text::{
    copy_range, parse_unsigned, to_chars, to_string, trim, trim_chars, unsigned_value, value_in,
};
use vstd::prelude::*;

verus! {

/// List of power levels.
#[derive(Debug, Clone, PartialEq, Eq)]
pub struct PowerLevels<T> {
    /// List of possible levels.
    pub levels: Vec<T>,
    /// The currently active level.
    pub active: Option<usize>,
}

impl<T> PowerLevels<T> {
    /// Gets the currently active level value.
    pub fn active_level(&self) -> (r: Option<&T>)
        ensures
            match self.active {
                Some(i) => if i < self.levels@.len() {
                    r == Some(&self.levels@[i as int])
                } else {
                    r is None
                },
                None => r is None,
            },
    {
        match self.active {
            Some(i) => if i < self.levels.len() {
                Some(&self.levels[i])
            } else {
                None
            },
            None => None,
        }
    }
}

/// Type of a power level.
#[derive(Debug, Clone, Copy, PartialEq, Eq, Hash, Structural)]
pub enum PowerLevelKind {
    CoreClock,
    MemoryClock,
    SOCClock,
    FabricClock,
    DCEFClock,
    PcieSpeed,
}

impl PowerLevelKind {
    /// Gets the filename of a given power level kind.
    pub fn filename(&self) -> (r: &'static str)
        ensures
            r@ == match self {
                PowerLevelKind::CoreClock => "pp_dpm_sclk"@,
                PowerLevelKind::MemoryClock => "pp_dpm_mclk"@,
                PowerLevelKind::SOCClock => "pp_dpm_socclk"@,
                PowerLevelKind::FabricClock => "pp_dpm_fclk"@,
                PowerLevelKind::DCEFClock => "pp_dpm_dcefclk"@,
                PowerLevelKind::PcieSpeed => "pp_dpm_pcie"@,
            },
    {
        match self {
            PowerLevelKind::CoreClock => "pp_dpm_sclk",
            PowerLevelKind::MemoryClock => "pp_dpm_mclk",
            PowerLevelKind::SOCClock => "pp_dpm_socclk",
            PowerLevelKind::FabricClock => "pp_dpm_fclk",
            PowerLevelKind::DCEFClock => "pp_dpm_dcefclk",
            PowerLevelKind::PcieSpeed => "pp_dpm_pcie",
        }
    }

    /// Suffix of the power level value
    pub fn value_suffix(&self) -> (r: Option<&'static str>)
        ensures
            match self {
                PowerLevelKind::PcieSpeed => r is None,
                _ => r matches Some(s) && s@ == "mhz"@,
            },
    {
        match self {
            PowerLevelKind::PcieSpeed => None,
            _ => Some("mhz"),
        }
    }
}

/// Whether a level row is marked active with a trailing `*`.
pub open spec fn star_row(row: Seq<char>) -> bool {
    row.len() > 0 && row.last() == '*'
}

/// A level row without its active mark.
pub open spec fn row_body(row: Seq<char>) -> Seq<char> {
    if star_row(row) {
        row.drop_last()
    } else {
        row
    }
}

/// The index written before the first `:` of a row (the whole row if it has none).
pub open spec fn row_identifier(row: Seq<char>) -> Seq<char> {
    match split_once(row_body(row), ':') {
        Some((a, _)) => a,
        None => row_body(row),
    }
}

/// The unit suffix of a kind's values.
pub open spec fn kind_suffix(kind: PowerLevelKind) -> Option<Seq<char>> {
    match kind {
        PowerLevelKind::PcieSpeed => None,
        _ => Some("mhz"@),
    }
}

/// The value of a level row: the text after its last `:`, trimmed, without the kind's
/// unit suffix (in any letter case), which must be there.
pub open spec fn level_text(kind: PowerLevelKind, row: Seq<char>) -> Option<Seq<char>> {
    let v = trim(pieces(row_body(row), ':').last());
    match kind_suffix(kind) {
        Some(sfx) => if sfx.len() <= v.len() && ends_with_ci(v, sfx) {
            Some(v.subrange(0, v.len() - sfx.len()))
        } else {
            None
        },
        None => Some(v),
    }
}

/// The levels read so far, the active index, and whether a second mark voided it.
pub struct LevelsState {
    pub levels: Seq<Seq<char>>,
    pub active: Option<usize>,
    pub invalid: bool,
}

/// The state after one row: the first marked row sets the active index, a second one
/// clears it for good.
pub open spec fn levels_step(kind: PowerLevelKind, st: LevelsState, row: Seq<char>) -> Option<LevelsState> {
    let marked = if star_row(row) && !st.invalid {
        if st.active is Some {
            Some(LevelsState { active: None, invalid: true, ..st })
        } else {
            match value_in(unsigned_value(trim(row_identifier(row))), 0, usize::MAX - 1) {
                Some(v) => Some(LevelsState { active: Some(v as usize), ..st }),
                None => None,
            }
        }
    } else {
        Some(st)
    };
    match (marked, level_text(kind, row)) {
        (Some(s2), Some(t)) => Some(LevelsState { levels: s2.levels.push(t), ..s2 }),
        _ => None,
    }
}

pub open spec fn levels_fold(kind: PowerLevelKind, rows: Seq<Seq<char>>) -> Option<LevelsState>
    decreases rows.len(),
{
    if rows.len() == 0 {
        Some(LevelsState { levels: Seq::empty(), active: None, invalid: false })
    } else {
        match levels_fold(kind, rows.drop_last()) {
            Some(st) => levels_step(kind, st, rows.last()),
            None => None,
        }
    }
}

/// The levels (as text) and the active index that a `pp_dpm_*` file gives.
pub open spec fn power_levels_of(kind: PowerLevelKind, content: Seq<char>) -> Option<(Seq<Seq<char>>, Option<usize>)> {
    match levels_fold(kind, pieces(trim(content), '\n')) {
        Some(st) => Some((st.levels, st.active)),
        None => None,
    }
}

proof fn lemma_levels_fold_none_extends(kind: PowerLevelKind, a: Seq<Seq<char>>, b: Seq<Seq<char>>)
    requires
        levels_fold(kind, a) is None,
    ensures
        levels_fold(kind, a + b) is None,
    decreases b.len(),
{
    if b.len() == 0 {
        assert(a + b =~= a);
    } else {
        lemma_levels_fold_none_extends(kind, a, b.drop_last());
        assert((a + b).drop_last() =~= a + b.drop_last());
    }
}

/// Reads the levels of a `pp_dpm_*` file: one `INDEX: VALUE` line per level, the active
/// one marked with a trailing `*`. Each value is given as text, with the kind's unit
/// suffix (if any) removed; a value without it is an error. Two marked lines leave no
/// level active.
pub fn parse_power_levels(content: &[char], kind: PowerLevelKind) -> (r: Result<PowerLevels<Vec<char>>, Error>)
    ensures
        match r {
            Ok(p) => power_levels_of(kind, content@) == Some(
                (p.levels@.map_values(|v: Vec<char>| v@), p.active),
            ),
            Err(_) => power_levels_of(kind, content@) is None,
        },
{
    let trimmed = trim_chars(content);
    let rows = split_char(trimmed.as_slice(), '\n');
    let ghost rv = pieces(trim(content@), '\n');
    let mut levels: Vec<Vec<char>> = Vec::new();
    let mut active: Option<usize> = None;
    let mut invalid_active = false;
    let mut k: usize = 0;
    assert(rv.subrange(0, 0) =~= Seq::<Seq<char>>::empty());
    assert(levels@.map_values(|v: Vec<char>| v@) =~= Seq::<Seq<char>>::empty());
    while k < rows.len()
        invariant
            rv == pieces(trim(content@), '\n'),
            rows@.len() == rv.len(),
            forall|j: int| 0 <= j < rows@.len() ==> #[trigger] rows@[j]@ == rv[j],
            k <= rows@.len(),
            levels_fold(kind, rv.subrange(0, k as int)) == Some(
                LevelsState {
                    levels: levels@.map_values(|v: Vec<char>| v@),
                    active,
                    invalid: invalid_active,
                },
            ),
        decreases rows@.len() - k,
    {
        let row = &rows[k];
        let ghost rw = rv[k as int];
        assert(row@ == rw);
        assert(rv.subrange(0, k + 1).drop_last() =~= rv.subrange(0, k as int));
        assert(rv.subrange(0, k + 1).last() == rw);
        let ghost rest = rv.subrange(k + 1, rv.len() as int);
        assert(rv =~= rv.subrange(0, k + 1) + rest);
        let mut line = copy_range(row.as_slice(), 0, row.len());
        assert(row@.subrange(0, row@.len() as int) =~= row@);
        let n = line.len();
        if n > 0 && line[n - 1] == '*' {
            line = copy_range(row.as_slice(), 0, n - 1);
            assert(line@ =~= row_body(rw));
            let identifier = match split_once_char(line.as_slice(), ':') {
                Some((a, _)) => a,
                None => copy_range(line.as_slice(), 0, line.len()),
            };
            assert(line@.subrange(0, line@.len() as int) =~= line@);
            assert(identifier@ == row_identifier(rw));
            if !invalid_active {
                if active.is_some() {
                    active = None;
                    invalid_active = true;
                } else {
                    let id = trim_chars(identifier.as_slice());
                    match parse_unsigned(id.as_slice(), usize::MAX as u64 - 1) {
                        Some(v) => {
                            active = Some(v as usize);
                        },
                        None => {
                            proof {
                                lemma_levels_fold_none_extends(kind, rv.subrange(0, k + 1), rest);
                            }
                            return Err(Error::parse_error("Unexpected power level identifier", k + 1));
                        },
                    }
                }
            }
        }
        assert(line@ == row_body(rw));
        let parts = split_char(line.as_slice(), ':');
        let last = &parts[parts.len() - 1];
        assert(last@ == pieces(row_body(rw), ':').last());
        let value = trim_chars(last.as_slice());
        let text = match kind.value_suffix() {
            Some(suffix) => {
                let sv = to_chars(suffix);
                let m = value.len();
                if m >= sv.len() && ends_with_suffix(value.as_slice(), sv.as_slice()) {
                    copy_range(value.as_slice(), 0, m - sv.len())
                } else {
                    proof {
                        lemma_levels_fold_none_extends(kind, rv.subrange(0, k + 1), rest);
                    }
                    return Err(Error::parse_error("Level did not have the expected suffix", k + 1));
                }
            },
            None => value,
        };
        assert(level_text(kind, rw) == Some(text@));
        let ghost before = levels@.map_values(|v: Vec<char>| v@);
        levels.push(text);
        assert(levels@.map_values(|v: Vec<char>| v@) =~= before.push(text@));
        k += 1;
    }
    assert(rv.subrange(0, k as int) =~= rv);
    Ok(PowerLevels { levels, active })
}

fn ends_with_suffix(v: &[char], suf: &[char]) -> (r: bool)
    requires
        suf@.len() <= v@.len(),
    ensures
        r == ends_with_ci(v@, suf@),
{
    let n = suf.len();
    let m = v.len();
    let mut k: usize = 0;
    while k < n
        invariant
            n == suf@.len(),
            m == v@.len(),
            n <= m,
            k <= n,
            forall|j: int| 0 <= j < k ==> crate::text::same_letter(v@[m - n + j], #[trigger] suf@[j]),
        decreases n - k,
    {
        if !crate::text::same_letter_exec(v[m - n + k], suf[k]) {
            return false;
        }
        k += 1;
    }
    true
}

/// Reads every level value as a number.
pub fn levels_as_numbers(p: PowerLevels<Vec<char>>) -> (r: Result<PowerLevels<u64>, Error>)
    ensures
        match r {
            Ok(q) => q.active == p.active && q.levels@.len() == p.levels@.len() && forall|k: int|
                0 <= k < q.levels@.len() ==> unsigned_at_most(#[trigger] p.levels@[k]@, u64::MAX as int)
                    == Some(q.levels@[k] as int),
            Err(_) => exists|k: int|
                0 <= k < p.levels@.len() && unsigned_at_most(#[trigger] p.levels@[k]@, u64::MAX as int) is None,
        },
{
    let mut levels: Vec<u64> = Vec::new();
    let mut k: usize = 0;
    while k < p.levels.len()
        invariant
            k <= p.levels@.len(),
            levels@.len() == k,
            forall|j: int| 0 <= j < k ==> unsigned_at_most(#[trigger] p.levels@[j]@, u64::MAX as int) == Some(
                levels@[j] as int,
            ),
        decreases p.levels@.len() - k,
    {
        match parse_unsigned(p.levels[k].as_slice(), u64::MAX) {
            Some(v) => levels.push(v),
            None => {
                assert(unsigned_at_most(p.levels@[k as int]@, u64::MAX as int) is None);
                return Err(Error::parse_error("Could not deserialize power level value", k + 1));
            },
        }
        k += 1;
    }
    Ok(PowerLevels { levels, active: p.active })
}

/// Gives every level value as a `String`.
pub fn levels_as_text(p: PowerLevels<Vec<char>>) -> (r: PowerLevels<String>)
    ensures
        r.active == p.active,
        r.levels@.len() == p.levels@.len(),
        forall|k: int| 0 <= k < r.levels@.len() ==> #[trigger] r.levels@[k]@ == p.levels@[k]@,
{
    let mut levels: Vec<String> = Vec::new();
    let mut k: usize = 0;
    while k < p.levels.len()
        invariant
            k <= p.levels@.len(),
            levels@.len() == k,
            forall|j: int| 0 <= j < k ==> #[trigger] levels@[j]@ == p.levels@[j]@,
        decreases p.levels@.len() - k,
    {
        levels.push(to_string(p.levels[k].as_slice()));
        k += 1;
    }
    PowerLevels { levels, active: p.active }
}

} // verus!
