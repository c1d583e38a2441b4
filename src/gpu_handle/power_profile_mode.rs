//! The power profile mode table, `pp_power_profile_mode`.
//!
//! Four layouts exist, told apart by the first word of the header: `NUM` (flat),
//! `PROFILE_INDEX(NAME)` (nested), or a mode index, followed either by rows of index and
//! name only (basic) or by one row per heuristic with a column per mode (rotated).
use crate::error::{parse_error_at, Error};
use crate::gpu_handle::overdrive::round_trip::word_value;
use crate::gpu_handle::overdrive::strip_all;
use crate::sysfs::index_of;
use crate::text::{
    trim,
    int_text, push_int, push_u64,
    clean, clean_line, contains_char, copy_range, eq_str, lines, parse_i32, parse_unsigned,
    signed_value, split_lines, split_words, to_chars, to_string, trim_chars, unsigned_value,
    value_in, words,
};
use std::collections::BTreeMap;
use vstd::prelude::*;

verus! {

broadcast use vstd::laws_cmp::group_laws_cmp;

/// Table of predefined power profile modes.
#[derive(Debug)]
pub struct PowerProfileModesTable {
    /// List of available modes
    pub modes: BTreeMap<u16, PowerProfile>,
    /// Names for the values in [`PowerProfile`]
    pub value_names: Vec<String>,
    /// The currently active mode
    pub active: u16,
}

/// One power profile mode.
#[derive(Debug)]
pub struct PowerProfile {
    pub name: String,
    /// On RDNA and newer, each profile has multiple components for different clock types.
    /// Older generations have only one set of values.
    pub components: Vec<PowerProfileComponent>,
}

/// The heuristic values of a profile for one clock type.
#[derive(Debug, Clone)]
pub struct PowerProfileComponent {
    /// Filled on RDNA and newer
    pub clock_type: Option<String>,
    /// The values; `None` where the driver shows `-`, which is not the same as zero.
    pub values: Vec<Option<i32>>,
}

/// The layouts of the table.
#[derive(Debug, Clone, Copy, PartialEq, Eq, Structural)]
pub enum Layout {
    Flat,
    Nested,
    Basic,
    Rotated,
}

// ---------------------------------------------------------------------------
// Tokens
/// A mode index.
pub open spec fn index_value(tok: Seq<char>) -> Option<u16> {
    match value_in(unsigned_value(tok), 0, u16::MAX as int) {
        Some(v) => Some(v as u16),
        None => None,
    }
}

/// A heuristic value: `-` stands for an absent value, anything else must be an integer.
/// `None` when the token is neither.
pub open spec fn heuristic_value(tok: Seq<char>) -> Option<Option<i32>> {
    if tok == seq!['-'] {
        Some(None)
    } else {
        match value_in(signed_value(tok), i32::MIN as int, i32::MAX as int) {
            Some(v) => Some(Some(v as i32)),
            None => None,
        }
    }
}

/// An absent value is never read as a number: `-` reads as absent, and no token that
/// reads as a number (zero included) reads as absent.
pub proof fn lemma_absent_is_not_zero(tok: Seq<char>)
    ensures
        heuristic_value(seq!['-']) == Some(None::<i32>),
        heuristic_value(tok) == Some(None::<i32>) <==> tok == seq!['-'],
        heuristic_value(tok) matches Some(Some(v)) ==> tok != seq!['-'],
        heuristic_value(seq!['0']) == Some(Some(0i32)),
{
    let z = seq!['0'];
    assert(z.drop_last() =~= Seq::<char>::empty());
    assert(crate::text::all_digits(z));
    assert(crate::text::digits_value(Seq::<char>::empty()) == 0);
    assert(z.last() == '0');
    assert(crate::text::digits_value(z) == 0);
    if tok != seq!['-'] {
        match value_in(signed_value(tok), i32::MIN as int, i32::MAX as int) {
            Some(v) => {},
            None => {},
        }
    }
}

/// In every list of heuristic values that a row gives, a value is absent exactly where
/// the word is `-`, and a value that is present is the number its word writes, so `-`
/// never gives zero and `0` never gives an absent value.
pub proof fn lemma_row_values_absent_iff_dash(toks: Seq<Seq<char>>, from: int, k: int)
    requires
        0 <= from,
        0 <= k,
        from + k < toks.len(),
        values_readable(toks, from),
    ensures
        values_of(toks, from)[k] is None <==> toks[from + k] == seq!['-'],
        values_of(toks, from)[k] matches Some(v) ==> heuristic_value(toks[from + k]) == Some(Some(v)),
{
    assert(heuristic_value(toks[from + k]) is Some);
    lemma_absent_is_not_zero(toks[from + k]);
}

fn parse_index(tok: &[char]) -> (r: Option<u16>)
    ensures
        r == index_value(tok@),
{
    match parse_unsigned(tok, u16::MAX as u64) {
        Some(v) => Some(v as u16),
        None => None,
    }
}

fn parse_heuristic(tok: &[char], line: usize) -> (r: Result<Option<i32>, Error>)
    ensures
        match r {
            Ok(v) => heuristic_value(tok@) == Some(v),
            Err(e) => heuristic_value(tok@) is None && parse_error_at(e, line as int),
        },
{
    if tok.len() == 1 && tok[0] == '-' {
        assert(tok@ =~= seq!['-']);
        return Ok(None);
    }
    assert(tok@ != seq!['-']) by {
        if tok@ == seq!['-'] {
            assert(tok@.len() == 1 && tok@[0] == '-');
        }
    }
    match parse_i32(tok) {
        Some(v) => Ok(Some(v)),
        None => Err(Error::parse_error("Expected an integer", line)),
    }
}

/// Reads heuristic values from `toks[from..]`.
fn parse_values(toks: &Vec<Vec<char>>, from: usize, line: usize) -> (r: Result<Vec<Option<i32>>, Error>)
    requires
        from <= toks@.len(),
    ensures
        match r {
            Ok(vs) => vs@.len() == toks@.len() - from && forall|k: int|
                0 <= k < vs@.len() ==> heuristic_value(#[trigger] toks@[from + k]@) == Some(vs@[k]),
            Err(e) => parse_error_at(e, line as int) && exists|k: int|
                from <= k < toks@.len() && heuristic_value(#[trigger] toks@[k]@) is None,
        },
{
    let mut vs: Vec<Option<i32>> = Vec::new();
    let mut k: usize = from;
    while k < toks.len()
        invariant
            from <= k <= toks@.len(),
            vs@.len() == k - from,
            forall|j: int| 0 <= j < vs@.len() ==> heuristic_value(#[trigger] toks@[from + j]@) == Some(vs@[j]),
        decreases toks@.len() - k,
    {
        match parse_heuristic(toks[k].as_slice(), line) {
            Ok(v) => {
                vs.push(v);
            },
            Err(e) => {
                return Err(e);
            },
        }
        k += 1;
    }
    Ok(vs)
}

pub open spec fn ends_with_star(t: Seq<char>) -> bool {
    t.len() > 0 && t.last() == '*'
}

fn ends_with_star_exec(t: &[char]) -> (r: bool)
    ensures
        r == ends_with_star(t@),
{
    t.len() > 0 && t[t.len() - 1] == '*'
}

// ---------------------------------------------------------------------------
// Layout detection and active marks
/// The layout that a table text is in, from its header and the line after it.
pub open spec fn layout_of(s: Seq<char>) -> Option<Layout> {
    let ls = lines(s);
    if ls.len() == 0 {
        None
    } else {
        let h = words(clean_line(ls[0]));
        if h.len() == 0 {
            None
        } else if h[0] == "NUM"@ {
            Some(Layout::Flat)
        } else if h[0] == "PROFILE_INDEX(NAME)"@ {
            Some(Layout::Nested)
        } else if index_value(h[0]) is Some {
            if ls.len() > 1 && words(clean_line(ls[1])).len() > 0 && index_value(
                words(clean_line(ls[1]))[0],
            ) is Some {
                Some(Layout::Basic)
            } else {
                Some(Layout::Rotated)
            }
        } else {
            None
        }
    }
}

/// For a mode row of the flat, nested or basic layout: its index and whether it is marked
/// active with `*` (glued to the name, or as a separate `*:` word in the flat layout).
pub open spec fn mode_row(layout: Layout, line: Seq<char>) -> Option<(u16, bool)> {
    let w = words(line);
    if w.len() == 0 || index_value(w[0]) is None || (layout == Layout::Nested && line.contains('(')) {
        None
    } else if w.len() < 2 {
        Some((index_value(w[0])->0, false))
    } else {
        let marked = match layout {
            Layout::Flat => ends_with_star(strip_all(w[1], seq![':']))
                || (w.len() > 2 && w[2].len() > 0 && w[2].last() == ':' && w[2][0] == '*'),
            Layout::Nested => ends_with_star(strip_all(w[1], seq![':'])),
            _ => ends_with_star(w[1]),
        };
        Some((index_value(w[0])->0, marked))
    }
}

pub open spec fn row_marked(layout: Layout, line: Seq<char>) -> bool {
    mode_row(layout, line) matches Some((_, m)) && m
}

/// How many rows among `ls` are marked active.
pub open spec fn marked_rows(layout: Layout, ls: Seq<Seq<char>>) -> nat
    decreases ls.len(),
{
    if ls.len() == 0 {
        0
    } else {
        marked_rows(layout, ls.drop_last()) + if row_marked(layout, clean_line(ls.last())) {
            1nat
        } else {
            0nat
        }
    }
}

/// The index of the last marked row among `ls`.
pub open spec fn marked_index(layout: Layout, ls: Seq<Seq<char>>) -> u16
    decreases ls.len(),
{
    if ls.len() == 0 {
        0
    } else if row_marked(layout, clean_line(ls.last())) {
        (mode_row(layout, clean_line(ls.last()))->0).0
    } else {
        marked_index(layout, ls.drop_last())
    }
}

/// How many modes of a rotated header (index and name pairs) are marked active.
pub open spec fn marked_columns(h: Seq<Seq<char>>) -> nat
    decreases h.len(),
{
    if h.len() < 2 {
        0
    } else {
        marked_columns(h.subrange(2, h.len() as int)) + if ends_with_star(h[1]) {
            1nat
        } else {
            0nat
        }
    }
}

/// The index of the first mode of a rotated header that is marked active.
pub open spec fn first_marked_column(h: Seq<Seq<char>>) -> u16
    decreases h.len(),
{
    if h.len() < 2 {
        0
    } else if ends_with_star(h[1]) {
        match index_value(h[0]) {
            Some(i) => i,
            None => 0,
        }
    } else {
        first_marked_column(h.subrange(2, h.len() as int))
    }
}

/// How many modes a table text marks active, in the layout it is in.
pub open spec fn active_marks(s: Seq<char>) -> nat {
    match layout_of(s) {
        Some(Layout::Rotated) => marked_columns(words(clean_line(lines(s)[0]))),
        Some(l) => marked_rows(l, lines(s)),
        None => 0,
    }
}

/// The name on a mode row: its second word without trailing colons (but in the basic
/// layout) and without the `*` that marks it active.
pub open spec fn row_name(layout: Layout, line: Seq<char>) -> Seq<char> {
    let w = words(line);
    let part = if layout == Layout::Basic {
        w[1]
    } else {
        strip_all(w[1], seq![':'])
    };
    if ends_with_star(part) {
        part.drop_last()
    } else {
        part
    }
}

/// Where the values of a flat row start: after the name, and after a separate `*:` or `:`
/// word if one follows it.
pub open spec fn value_start(line: Seq<char>) -> int {
    let w = words(line);
    if w.len() > 2 && w[2].len() > 0 && w[2].last() == ':' {
        3
    } else {
        2
    }
}

/// Whether every word from `from` on reads as a heuristic value.
pub open spec fn values_readable(toks: Seq<Seq<char>>, from: int) -> bool {
    forall|k: int| from <= k < toks.len() ==> heuristic_value(#[trigger] toks[k]) is Some
}

/// The heuristic values of the words from `from` on.
pub open spec fn values_of(toks: Seq<Seq<char>>, from: int) -> Seq<Option<i32>> {
    Seq::new((toks.len() - from) as nat, |k: int| heuristic_value(toks[from + k])->0)
}

/// The heuristic values of a flat row.
pub open spec fn row_values(line: Seq<char>) -> Seq<Option<i32>> {
    values_of(words(line), value_start(line))
}

// ---------------------------------------------------------------------------
// The table as plain values
/// A component: its clock type and its heuristic values.
pub struct ComponentModel {
    pub clock_type: Option<Seq<char>>,
    pub values: Seq<Option<i32>>,
}

/// A profile: its name and components.
pub struct ProfileModel {
    pub name: Seq<char>,
    pub components: Seq<ComponentModel>,
}

/// A table: its modes by index, the names of the values, and the active index.
pub struct TableModel {
    pub modes: Map<u16, ProfileModel>,
    pub value_names: Seq<Seq<char>>,
    pub active: u16,
}

pub open spec fn component_model(c: PowerProfileComponent) -> ComponentModel {
    ComponentModel {
        clock_type: match c.clock_type {
            Some(t) => Some(t@),
            None => None,
        },
        values: c.values@,
    }
}

pub open spec fn profile_model(p: PowerProfile) -> ProfileModel {
    ProfileModel {
        name: p.name@,
        components: p.components@.map_values(|c: PowerProfileComponent| component_model(c)),
    }
}

pub open spec fn table_model(t: PowerProfileModesTable) -> TableModel {
    TableModel {
        modes: t.modes@.map_values(|p: PowerProfile| profile_model(p)),
        value_names: t.value_names@.map_values(|n: String| n@),
        active: t.active,
    }
}

/// A component line of the nested layout, `INDEX( CLOCK_TYPE) VALUE...`: the clock type
/// between the first `(` and the first `)`, and the values after it.
pub open spec fn component_value(line: Seq<char>) -> Option<ComponentModel> {
    let open = index_of(line, '(', 0);
    let close = index_of(line, ')', 0);
    if open < line.len() && close < line.len() && open < close {
        let toks = words(line.subrange(close + 1, line.len() as int));
        if values_readable(toks, 0) {
            Some(
                ComponentModel {
                    clock_type: Some(trim(line.subrange(open + 1, close))),
                    values: values_of(toks, 0),
                },
            )
        } else {
            None
        }
    } else {
        None
    }
}

/// The modes read so far, and in the nested layout the mode whose component lines are
/// still being read.
pub struct RowsState {
    pub modes: Map<u16, ProfileModel>,
    pub pending: Option<(u16, ProfileModel)>,
}

pub open spec fn flushed(st: RowsState) -> Map<u16, ProfileModel> {
    match st.pending {
        Some((i, p)) => st.modes.insert(i, p),
        None => st.modes,
    }
}

/// The state after line `k` of a flat, nested or basic table, or `None` when the line is
/// rejected. A later row with the same index replaces an earlier one.
pub open spec fn rows_step(layout: Layout, st: RowsState, k: int, line: Seq<char>) -> Option<RowsState> {
    if layout == Layout::Nested && st.pending is Some && line.contains('(') {
        match (component_value(line), st.pending) {
            (Some(c), Some((i, p))) => Some(
                RowsState {
                    modes: st.modes,
                    pending: Some((i, ProfileModel { name: p.name, components: p.components.push(c) })),
                },
            ),
            _ => None,
        }
    } else {
        let m = flushed(st);
        match mode_row(layout, line) {
            None => if layout == Layout::Nested && k > 0 && line.contains('(') {
                None
            } else {
                Some(RowsState { modes: m, pending: None })
            },
            Some((idx, _)) => if words(line).len() < 2 {
                None
            } else if layout == Layout::Flat {
                if values_readable(words(line), value_start(line)) {
                    Some(
                        RowsState {
                            modes: m.insert(
                                idx,
                                ProfileModel {
                                    name: row_name(layout, line),
                                    components: seq![
                                        ComponentModel { clock_type: None, values: row_values(line) },
                                    ],
                                },
                            ),
                            pending: None,
                        },
                    )
                } else {
                    None
                }
            } else if layout == Layout::Nested {
                Some(
                    RowsState {
                        modes: m,
                        pending: Some(
                            (idx, ProfileModel { name: row_name(layout, line), components: Seq::empty() }),
                        ),
                    },
                )
            } else {
                Some(
                    RowsState {
                        modes: m.insert(
                            idx,
                            ProfileModel { name: row_name(layout, line), components: Seq::empty() },
                        ),
                        pending: None,
                    },
                )
            },
        }
    }
}

pub open spec fn rows_fold(layout: Layout, ls: Seq<Seq<char>>) -> Option<RowsState>
    decreases ls.len(),
{
    if ls.len() == 0 {
        Some(RowsState { modes: Map::empty(), pending: None })
    } else {
        match rows_fold(layout, ls.drop_last()) {
            Some(st) => rows_step(layout, st, ls.len() - 1, clean_line(ls.last())),
            None => None,
        }
    }
}

/// The value names that a header gives, or `None` when it is not the layout's header.
pub open spec fn header_value_names(layout: Layout, h: Seq<Seq<char>>) -> Option<Seq<Seq<char>>> {
    if layout == Layout::Basic {
        Some(Seq::empty())
    } else if layout == Layout::Flat && h.len() >= 2 && h[0] == "NUM"@ && h[1] == "MODE_NAME"@ {
        Some(h.subrange(2, h.len() as int))
    } else if layout == Layout::Nested && h.len() >= 2 && h[0] == "PROFILE_INDEX(NAME)"@ && h[1]
        == "CLOCK_TYPE(NAME)"@ {
        Some(h.subrange(2, h.len() as int))
    } else {
        None
    }
}

/// The table that the lines of a flat, nested or basic text describe.
pub open spec fn rows_table(layout: Layout, ls: Seq<Seq<char>>) -> Option<TableModel> {
    match header_value_names(layout, words(clean_line(ls[0]))) {
        None => None,
        Some(names) => match rows_fold(layout, ls) {
            None => None,
            Some(st) => if marked_rows(layout, ls) == 1 {
                Some(TableModel { modes: flushed(st), value_names: names, active: marked_index(layout, ls) })
            } else {
                None
            },
        },
    }
}

/// A mode name without the `*` that marks it active.
pub open spec fn star_stripped(t: Seq<char>) -> Seq<char> {
    if ends_with_star(t) {
        t.drop_last()
    } else {
        t
    }
}

/// The modes of a rotated header: index and name pairs.
pub open spec fn heads_of(h: Seq<Seq<char>>) -> Option<Seq<(u16, Seq<char>)>>
    decreases h.len(),
{
    if h.len() == 0 {
        Some(Seq::empty())
    } else if h.len() == 1 {
        None
    } else {
        match (index_value(h[0]), heads_of(h.subrange(2, h.len() as int))) {
            (Some(i), Some(rest)) => Some(seq![(i, star_stripped(h[1]))] + rest),
            _ => None,
        }
    }
}

/// The words of a line of a rotated table.
pub open spec fn value_words(line: Seq<char>) -> Seq<Seq<char>> {
    words(clean_line(line))
}

/// A value line of a rotated table: a heuristic name, then one integer per mode column.
pub open spec fn value_line_ok(line: Seq<char>) -> bool {
    let w = value_words(line);
    w.len() > 0 && forall|c: int| 1 <= c < w.len() ==> word_value(#[trigger] w[c]) is Some
}

/// The components of column `p` of a rotated table: one per line that reaches the column.
pub open spec fn column(vls: Seq<Seq<char>>, p: int) -> Seq<ComponentModel>
    decreases vls.len(),
{
    if vls.len() == 0 {
        Seq::empty()
    } else {
        let prev = column(vls.drop_last(), p);
        let w = value_words(vls.last());
        if p + 1 < w.len() {
            prev.push(ComponentModel { clock_type: None, values: seq![Some(word_value(w[p + 1])->0)] })
        } else {
            prev
        }
    }
}

/// The modes of a rotated table: each header mode with the column of its index.
pub open spec fn heads_map(hs: Seq<(u16, Seq<char>)>, vls: Seq<Seq<char>>) -> Map<u16, ProfileModel>
    decreases hs.len(),
{
    if hs.len() == 0 {
        Map::empty()
    } else {
        heads_map(hs.drop_last(), vls).insert(
            hs.last().0,
            ProfileModel { name: hs.last().1, components: column(vls, hs.last().0 as int) },
        )
    }
}

/// Whether the mode of column `c - 1` exists.
pub open spec fn column_has_mode(c: int, keys: Set<u16>) -> bool {
    c - 1 <= u16::MAX && keys.contains((c - 1) as u16)
}

/// Whether every column that a line reaches belongs to a mode.
pub open spec fn line_covered(line: Seq<char>, keys: Set<u16>) -> bool {
    forall|c: int| 1 <= c < value_words(line).len() ==> #[trigger] column_has_mode(c, keys)
}

/// The table that the lines of a rotated text describe.
pub open spec fn rotated_table(ls: Seq<Seq<char>>) -> Option<TableModel> {
    let h = words(clean_line(ls[0]));
    let vls = ls.subrange(1, ls.len() as int);
    match heads_of(h) {
        None => None,
        Some(hs) => if marked_columns(h) == 1 && (forall|k: int|
            0 <= k < vls.len() ==> value_line_ok(#[trigger] vls[k])) && (forall|k: int|
            0 <= k < vls.len() ==> line_covered(#[trigger] vls[k], heads_map(hs, vls).dom())) {
            Some(
                TableModel {
                    modes: heads_map(hs, vls),
                    value_names: vls.map_values(|l: Seq<char>| value_words(l)[0]),
                    active: first_marked_column(h),
                },
            )
        } else {
            None
        },
    }
}

/// The table that a text describes, in whichever layout it is in; `None` when the text is
/// rejected.
pub open spec fn profile_table(s: Seq<char>) -> Option<TableModel> {
    match layout_of(s) {
        None => None,
        Some(Layout::Rotated) => rotated_table(lines(s)),
        Some(l) => rows_table(l, lines(s)),
    }
}

proof fn lemma_marks_step(layout: Layout, ls: Seq<Seq<char>>, k: int)
    requires
        0 <= k < ls.len(),
    ensures
        marked_rows(layout, ls.subrange(0, k + 1)) == marked_rows(layout, ls.subrange(0, k)) + if row_marked(
            layout,
            clean_line(ls[k]),
        ) {
            1nat
        } else {
            0nat
        },
        marked_index(layout, ls.subrange(0, k + 1)) == if row_marked(layout, clean_line(ls[k])) {
            (mode_row(layout, clean_line(ls[k]))->0).0
        } else {
            marked_index(layout, ls.subrange(0, k))
        },
{
    assert(ls.subrange(0, k + 1).drop_last() =~= ls.subrange(0, k));
}

fn mode_row_exec(layout: Layout, line: &[char]) -> (r: Option<(u16, bool)>)
    ensures
        r == mode_row(layout, line@),
{
    let w = split_words(line);
    let ghost ws = words(line@);
    if w.len() == 0 {
        return None;
    }
    let idx = match parse_index(w[0].as_slice()) {
        Some(i) => i,
        None => {
            return None;
        },
    };
    if layout == Layout::Nested && contains_char(line, '(') {
        return None;
    }
    if w.len() < 2 {
        return Some((idx, false));
    }
    let marked = match layout {
        Layout::Flat => {
            let name = strip_colons(w[1].as_slice());
            let w2 = w.len() > 2 && w[2].len() > 0 && w[2][w[2].len() - 1] == ':' && w[2][0] == '*';
            ends_with_star_exec(name.as_slice()) || w2
        },
        Layout::Nested => {
            let name = strip_colons(w[1].as_slice());
            ends_with_star_exec(name.as_slice())
        },
        _ => ends_with_star_exec(w[1].as_slice()),
    };
    Some((idx, marked))
}

fn strip_colons(t: &[char]) -> (r: Vec<char>)
    ensures
        r@ == strip_all(t@, seq![':']),
{
    let mut end: usize = t.len();
    assert(t@.subrange(0, end as int) =~= t@);
    while end > 0 && t[end - 1] == ':'
        invariant
            end <= t@.len(),
            strip_all(t@, seq![':']) == strip_all(t@.subrange(0, end as int), seq![':']),
        decreases end,
    {
        let ghost p = t@.subrange(0, end as int);
        assert(crate::gpu_handle::overdrive::ends_with_ci(p, seq![':'])) by {
            assert(crate::text::same_letter(p[p.len() - 1], ':'));
        }
        assert(p.subrange(0, p.len() - 1) =~= t@.subrange(0, end - 1));
        end -= 1;
    }
    let ghost p = t@.subrange(0, end as int);
    assert(!crate::gpu_handle::overdrive::ends_with_ci(p, seq![':'])) by {
        if crate::gpu_handle::overdrive::ends_with_ci(p, seq![':']) {
            assert(crate::text::same_letter(p[p.len() - 1 + 0], seq![':'][0]));
        }
    }
    copy_range(t, 0, end)
}

/// Decides the layout of a table text.
pub fn detect_layout(s: &[Vec<char>]) -> (r: Option<Layout>)
    requires
        s@.len() > 0,
    ensures
        ({
            let h = words(clean_line(s@[0]@));
            let second = if s@.len() > 1 {
                words(clean_line(s@[1]@))
            } else {
                Seq::empty()
            };
            r == if h.len() == 0 {
                None
            } else if h[0] == "NUM"@ {
                Some(Layout::Flat)
            } else if h[0] == "PROFILE_INDEX(NAME)"@ {
                Some(Layout::Nested)
            } else if index_value(h[0]) is Some {
                if second.len() > 0 && index_value(second[0]) is Some {
                    Some(Layout::Basic)
                } else {
                    Some(Layout::Rotated)
                }
            } else {
                None
            }
        }),
{
    let first = clean(s[0].as_slice());
    let h = split_words(first.as_slice());
    if h.len() == 0 {
        return None;
    }
    if eq_str(h[0].as_slice(), "NUM") {
        return Some(Layout::Flat);
    }
    if eq_str(h[0].as_slice(), "PROFILE_INDEX(NAME)") {
        return Some(Layout::Nested);
    }
    if parse_index(h[0].as_slice()).is_none() {
        return None;
    }
    if s.len() > 1 {
        let second = clean(s[1].as_slice());
        let w = split_words(second.as_slice());
        if w.len() > 0 && parse_index(w[0].as_slice()).is_some() {
            return Some(Layout::Basic);
        }
    }
    Some(Layout::Rotated)
}

// ---------------------------------------------------------------------------
// Parsing
/// Inserts a mode, keeping the map's view in step.
fn insert_mode(modes: &mut BTreeMap<u16, PowerProfile>, index: u16, profile: PowerProfile)
    ensures
        final(modes)@ == old(modes)@.insert(index, profile),
{
    modes.insert(index, profile);
}

fn name_without_star(name: &[char]) -> (r: String)
    ensures
        r@ == (if ends_with_star(name@) {
            name@.drop_last()
        } else {
            name@
        }),
{
    if ends_with_star_exec(name) {
        let n = copy_range(name, 0, name.len() - 1);
        assert(n@ =~= name@.drop_last());
        to_string(n.as_slice())
    } else {
        assert(name@.subrange(0, name@.len() as int) =~= name@);
        to_string(name)
    }
}

fn value_names_from(h: &Vec<Vec<char>>, from: usize) -> (r: Vec<String>)
    requires
        from <= h@.len(),
    ensures
        r@.len() == h@.len() - from,
        forall|k: int| 0 <= k < r@.len() ==> #[trigger] r@[k]@ == h@[from + k]@,
{
    let mut r: Vec<String> = Vec::new();
    let mut k: usize = from;
    while k < h.len()
        invariant
            from <= k <= h@.len(),
            r@.len() == k - from,
            forall|j: int| 0 <= j < r@.len() ==> #[trigger] r@[j]@ == h@[from + j]@,
        decreases h@.len() - k,
    {
        r.push(to_string(h[k].as_slice()));
        k += 1;
    }
    r
}

/// The outcome of reading the mode rows: how many are marked and the last marked index.
struct Marks {
    count: usize,
    index: u16,
}

fn no_active_error() -> (r: Error)
    ensures
        parse_error_at(r, 1),
{
    Error::parse_error("Expected exactly one active mode", 1)
}

proof fn lemma_rows_fold_none_extends(layout: Layout, a: Seq<Seq<char>>, b: Seq<Seq<char>>)
    requires
        rows_fold(layout, a) is None,
    ensures
        rows_fold(layout, a + b) is None,
    decreases b.len(),
{
    if b.len() == 0 {
        assert(a + b =~= a);
    } else {
        lemma_rows_fold_none_extends(layout, a, b.drop_last());
        assert((a + b).drop_last() =~= a + b.drop_last());
    }
}

proof fn lemma_rows_fold_step(layout: Layout, ls: Seq<Seq<char>>, k: int)
    requires
        0 <= k < ls.len(),
    ensures
        rows_fold(layout, ls.subrange(0, k + 1)) == match rows_fold(layout, ls.subrange(0, k)) {
            Some(st) => rows_step(layout, st, k, clean_line(ls[k])),
            None => None,
        },
{
    assert(ls.subrange(0, k + 1).drop_last() =~= ls.subrange(0, k));
}

/// The pending mode of the nested layout as plain values.
spec fn pending_model(p: Option<(u16, String, Vec<PowerProfileComponent>)>) -> Option<(u16, ProfileModel)> {
    match p {
        Some((i, n, cs)) => Some(
            (
                i,
                ProfileModel {
                    name: n@,
                    components: cs@.map_values(|c: PowerProfileComponent| component_model(c)),
                },
            ),
        ),
        None => None,
    }
}

spec fn modes_model(m: Map<u16, PowerProfile>) -> Map<u16, ProfileModel> {
    m.map_values(|p: PowerProfile| profile_model(p))
}

/// Inserts a mode; the plain view follows.
fn insert_profile(modes: &mut BTreeMap<u16, PowerProfile>, index: u16, profile: PowerProfile)
    ensures
        final(modes)@ == old(modes)@.insert(index, profile),
        modes_model(final(modes)@) == modes_model(old(modes)@).insert(index, profile_model(profile)),
{
    insert_mode(modes, index, profile);
    assert(modes_model(modes@) =~= modes_model(old(modes)@).insert(index, profile_model(profile)));
}

/// The components of column `p` of a rotated table.
fn column_of(ls: &Vec<Vec<char>>, p: u16) -> (r: Vec<PowerProfileComponent>)
    requires
        ls@.len() > 0,
        forall|k: int| 1 <= k < ls@.len() ==> value_line_ok(#[trigger] ls@[k]@),
    ensures
        r@.map_values(|c: PowerProfileComponent| component_model(c)) == column(
            ls@.map_values(|l: Vec<char>| l@).subrange(1, ls@.len() as int),
            p as int,
        ),
{
    let ghost lv = ls@.map_values(|l: Vec<char>| l@);
    let ghost vls = lv.subrange(1, lv.len() as int);
    let mut out: Vec<PowerProfileComponent> = Vec::new();
    let mut j: usize = 1;
    assert(vls.subrange(0, 0) =~= Seq::<Seq<char>>::empty());
    assert(out@.map_values(|c: PowerProfileComponent| component_model(c)) =~= Seq::<ComponentModel>::empty());
    while j < ls.len()
        invariant
            lv == ls@.map_values(|l: Vec<char>| l@),
            vls == lv.subrange(1, lv.len() as int),
            forall|k: int| 1 <= k < ls@.len() ==> value_line_ok(#[trigger] ls@[k]@),
            1 <= j <= ls@.len(),
            out@.map_values(|c: PowerProfileComponent| component_model(c)) == column(
                vls.subrange(0, j - 1),
                p as int,
            ),
        decreases ls@.len() - j,
    {
        let line = clean(ls[j].as_slice());
        let w = split_words(line.as_slice());
        assert(vls.subrange(0, j as int).drop_last() =~= vls.subrange(0, j - 1));
        assert(vls.subrange(0, j as int).last() == ls@[j as int]@);
        assert(value_line_ok(ls@[j as int]@));
        let ghost before = out@;
        if (p as usize) + 1 < w.len() {
            assert(w@[p + 1]@ == value_words(ls@[j as int]@)[p + 1]);
            let v = match parse_i32(w[(p as usize) + 1].as_slice()) {
                Some(v) => v,
                None => {
                    proof {
                        assert(word_value(value_words(ls@[j as int]@)[p + 1]) is Some);
                    }
                    0
                },
            };
            let mut values: Vec<Option<i32>> = Vec::new();
            values.push(Some(v));
            assert(values@ =~= seq![Some(word_value(value_words(ls@[j as int]@)[p + 1])->0)]);
            let c = PowerProfileComponent { clock_type: None, values };
            out.push(c);
            assert(out@.map_values(|c: PowerProfileComponent| component_model(c)) =~= before.map_values(
                |c: PowerProfileComponent| component_model(c),
            ).push(component_model(c)));
        }
        j += 1;
    }
    assert(vls.subrange(0, ls@.len() - 1) =~= vls);
    out
}

impl PowerProfileModesTable {
    /// Parses the table, choosing the parser by the header (see [`profile_table`]).
    pub fn parse(s: &str) -> (r: Result<Self, Error>)
        ensures
            match r {
                Ok(t) => profile_table(s@) == Some(table_model(t)),
                Err(_) => profile_table(s@) is None,
            },
            lines(s@).len() > 0 && layout_of(s@) is None ==> (r matches Err(e) && e.kind is Unsupported),
            active_marks(s@) != 1 ==> r is Err,
    {
        let chars = to_chars(s);
        let ls = split_lines(chars.as_slice());
        let ghost lv = lines(s@);
        assert(ls@.map_values(|l: Vec<char>| l@) =~= lv);
        if ls.len() == 0 {
            return Err(Error::unexpected_eol("Power profile line", 1));
        }
        let layout = match detect_layout(ls.as_slice()) {
            Some(l) => l,
            None => {
                return Err(Error::unsupported("Could not determine the type of power profile mode table"));
            },
        };
        assert(layout_of(s@) == Some(layout));
        match layout {
            Layout::Rotated => Self::parse_rotated(&ls),
            _ => Self::parse_rows(&ls, layout),
        }
    }

    /// Parses the flat, nested and basic layouts: one row per mode, its index first.
    fn parse_rows(ls: &Vec<Vec<char>>, layout: Layout) -> (r: Result<Self, Error>)
        requires
            ls@.len() > 0,
            layout != Layout::Rotated,
        ensures
            match r {
                Ok(t) => rows_table(layout, ls@.map_values(|l: Vec<char>| l@)) == Some(table_model(t)),
                Err(_) => rows_table(layout, ls@.map_values(|l: Vec<char>| l@)) is None,
            },
    {
        let ghost lv = ls@.map_values(|l: Vec<char>| l@);
        let header = clean(ls[0].as_slice());
        let h = split_words(header.as_slice());
        let ghost hv = words(clean_line(lv[0]));
        assert(ls@[0]@ == lv[0]);
        let mut value_names: Vec<String> = Vec::new();
        if layout == Layout::Flat || layout == Layout::Nested {
            let (first, second) = if layout == Layout::Flat {
                ("NUM", "MODE_NAME")
            } else {
                ("PROFILE_INDEX(NAME)", "CLOCK_TYPE(NAME)")
            };
            if h.len() < 1 || !eq_str(h[0].as_slice(), first) {
                return Err(Error::unsupported("Unexpected first header column"));
            }
            if h.len() < 2 || !eq_str(h[1].as_slice(), second) {
                return Err(Error::unsupported("Unexpected second header column"));
            }
            value_names = value_names_from(&h, 2);
            assert(value_names@.map_values(|n: String| n@) =~= hv.subrange(2, hv.len() as int));
        } else {
            assert(value_names@.map_values(|n: String| n@) =~= Seq::<Seq<char>>::empty());
        }
        assert(header_value_names(layout, hv) == Some(value_names@.map_values(|n: String| n@)));
        let mut modes: BTreeMap<u16, PowerProfile> = BTreeMap::new();
        let mut marks = Marks { count: 0, index: 0 };
        // The nested layout collects the component lines that follow a mode row.
        let mut pending: Option<(u16, String, Vec<PowerProfileComponent>)> = None;
        let mut k: usize = 0;
        assert(modes_model(modes@) =~= Map::<u16, ProfileModel>::empty());
        assert(lv.subrange(0, 0) =~= Seq::<Seq<char>>::empty());
        while k < ls.len()
            invariant
                lv == ls@.map_values(|l: Vec<char>| l@),
                k <= ls@.len(),
                marks.count <= k,
                marks.count == marked_rows(layout, lv.subrange(0, k as int)),
                marks.count > 0 ==> marks.index == marked_index(layout, lv.subrange(0, k as int)),
                pending is Some ==> layout == Layout::Nested,
                rows_fold(layout, lv.subrange(0, k as int)) == Some(
                    RowsState { modes: modes_model(modes@), pending: pending_model(pending) },
                ),
            decreases ls@.len() - k,
        {
            let line = clean(ls[k].as_slice());
            assert(ls@[k as int]@ == lv[k as int]);
            let ghost st = RowsState { modes: modes_model(modes@), pending: pending_model(pending) };
            proof {
                lemma_marks_step(layout, lv, k as int);
                lemma_rows_fold_step(layout, lv, k as int);
                if k + 1 < lv.len() {
                    assert(lv =~= lv.subrange(0, k + 1) + lv.subrange(k + 1, lv.len() as int));
                } else {
                    assert(lv =~= lv.subrange(0, k + 1) + Seq::<Seq<char>>::empty());
                }
            }
            let ghost rest = lv.subrange(k + 1, lv.len() as int);
            let lineno: usize = k + 1;
            if layout == Layout::Nested && pending.is_some() && contains_char(line.as_slice(), '(') {
                let component = match Self::parse_component(line.as_slice(), lineno) {
                    Ok(c) => c,
                    Err(e) => {
                        proof {
                            lemma_rows_fold_none_extends(layout, lv.subrange(0, k + 1), rest);
                        }
                        return Err(e);
                    },
                };
                assert(mode_row(layout, line@) is None);
                match pending {
                    Some((i, n, mut cs)) => {
                        let ghost before = cs@;
                        cs.push(component);
                        assert(cs@.map_values(|c: PowerProfileComponent| component_model(c)) =~= before.map_values(
                            |c: PowerProfileComponent| component_model(c),
                        ).push(component_model(component)));
                        pending = Some((i, n, cs));
                    },
                    None => {},
                }
            } else {
                if let Some((i, n, cs)) = pending {
                    insert_profile(&mut modes, i, PowerProfile { name: n, components: cs });
                    pending = None;
                }
                assert(modes_model(modes@) == flushed(st));
                match mode_row_exec(layout, line.as_slice()) {
                    None => {
                        if layout == Layout::Nested && k > 0 && contains_char(line.as_slice(), '(') {
                            proof {
                                lemma_rows_fold_none_extends(layout, lv.subrange(0, k + 1), rest);
                            }
                            return Err(Error::parse_error("Unexpected mode heuristics line", lineno));
                        }
                    },
                    Some((index, marked)) => {
                        let w = split_words(line.as_slice());
                        if w.len() < 2 {
                            proof {
                                lemma_rows_fold_none_extends(layout, lv.subrange(0, k + 1), rest);
                            }
                            return Err(Error::unexpected_eol("mode name", lineno));
                        }
                        assert(w@[1]@ == words(line@)[1]);
                        let name_part = if layout == Layout::Basic {
                            copy_range(w[1].as_slice(), 0, w[1].len())
                        } else {
                            strip_colons(w[1].as_slice())
                        };
                        assert(w@[1]@.subrange(0, w@[1]@.len() as int) =~= w@[1]@);
                        let name = name_without_star(name_part.as_slice());
                        assert(name@ == row_name(layout, line@));
                        if marked {
                            marks.count = marks.count + 1;
                            marks.index = index;
                        }
                        if layout == Layout::Flat {
                            let from: usize = if w.len() > 2 && w[2].len() > 0 && w[2][w[2].len() - 1]
                                == ':' {
                                3
                            } else {
                                2
                            };
                            proof {
                                if w@.len() > 2 {
                                    assert(w@[2]@ == words(line@)[2]);
                                }
                                assert(from == value_start(line@));
                            }
                            let values = match parse_values(&w, from, lineno) {
                                Ok(v) => v,
                                Err(e) => {
                                    proof {
                                        let j = choose|j: int|
                                            from <= j < w@.len() && heuristic_value(#[trigger] w@[j]@) is None;
                                        assert(w@[j]@ == words(line@)[j]);
                                        assert(!values_readable(words(line@), from as int));
                                        lemma_rows_fold_none_extends(layout, lv.subrange(0, k + 1), rest);
                                    }
                                    return Err(e);
                                },
                            };
                            assert forall|j: int| from <= j < w@.len() implies heuristic_value(
                                #[trigger] words(line@)[j],
                            ) is Some by {
                                assert(w@[j]@ == words(line@)[j]);
                                assert(heuristic_value(w@[from + (j - from)]@) == Some(values@[j - from]));
                            }
                            assert forall|j: int| 0 <= j < values@.len() implies values@[j] == row_values(
                                line@,
                            )[j] by {
                                assert(w@[from + j]@ == words(line@)[from + j]);
                            }
                            assert(values@ =~= row_values(line@));
                            let mut components: Vec<PowerProfileComponent> = Vec::new();
                            let c = PowerProfileComponent { clock_type: None, values };
                            components.push(c);
                            proof {
                                let pm = profile_model(PowerProfile { name, components });
                                assert(pm.components =~= seq![
                                    ComponentModel { clock_type: None, values: row_values(line@) },
                                ]);
                            }
                            insert_profile(&mut modes, index, PowerProfile { name, components });
                        } else if layout == Layout::Nested {
                            let cs: Vec<PowerProfileComponent> = Vec::new();
                            assert(cs@.map_values(|c: PowerProfileComponent| component_model(c)) =~= Seq::<
                                ComponentModel,
                            >::empty());
                            pending = Some((index, name, cs));
                        } else {
                            let cs: Vec<PowerProfileComponent> = Vec::new();
                            assert(cs@.map_values(|c: PowerProfileComponent| component_model(c)) =~= Seq::<
                                ComponentModel,
                            >::empty());
                            insert_profile(&mut modes, index, PowerProfile { name, components: cs });
                        }
                    },
                }
            }
            k += 1;
        }
        let ghost st = RowsState { modes: modes_model(modes@), pending: pending_model(pending) };
        if let Some((i, n, cs)) = pending {
            insert_profile(&mut modes, i, PowerProfile { name: n, components: cs });
        }
        assert(lv.subrange(0, k as int) =~= lv);
        assert(modes_model(modes@) == flushed(st));
        if marks.count != 1 {
            return Err(no_active_error());
        }
        let t = PowerProfileModesTable { modes, value_names, active: marks.index };
        assert(table_model(t).modes == modes_model(t.modes@));
        Ok(t)
    }

    /// Reads a component line `INDEX( CLOCK_TYPE) VALUE...` of the nested layout.
    fn parse_component(line: &[char], lineno: usize) -> (r: Result<PowerProfileComponent, Error>)
        ensures
            match r {
                Ok(c) => component_value(line@) == Some(component_model(c)),
                Err(_) => component_value(line@) is None,
            },
    {
        let mut open: usize = 0;
        while open < line.len() && line[open] != '('
            invariant
                open <= line@.len(),
                forall|j: int| 0 <= j < open ==> line@[j] != '(',
            decreases line@.len() - open,
        {
            open += 1;
        }
        proof {
            crate::sysfs::lemma_index_of_run(line@, '(', 0, open as int);
        }
        let mut close: usize = 0;
        while close < line.len() && line[close] != ')'
            invariant
                close <= line@.len(),
                forall|j: int| 0 <= j < close ==> line@[j] != ')',
            decreases line@.len() - close,
        {
            close += 1;
        }
        proof {
            crate::sysfs::lemma_index_of_run(line@, ')', 0, close as int);
        }
        if open >= line.len() {
            return Err(Error::unexpected_eol("(", lineno));
        }
        if close >= line.len() || close <= open {
            return Err(Error::unexpected_eol(")", lineno));
        }
        let inner = copy_range(line, open + 1, close);
        let clock_type = trim_chars(inner.as_slice());
        let rest = copy_range(line, close + 1, line.len());
        let toks = split_words(rest.as_slice());
        let ghost tv = words(line@.subrange(close + 1, line@.len() as int));
        let values = match parse_values(&toks, 0, lineno) {
            Ok(v) => v,
            Err(e) => {
                proof {
                    let j = choose|j: int| 0 <= j < toks@.len() && heuristic_value(#[trigger] toks@[j]@) is None;
                    assert(toks@[j]@ == tv[j]);
                    assert(!values_readable(tv, 0));
                }
                return Err(e);
            },
        };
        assert forall|j: int| 0 <= j < tv.len() implies heuristic_value(#[trigger] tv[j]) is Some by {
            assert(toks@[j]@ == tv[j]);
            assert(heuristic_value(toks@[0 + j]@) == Some(values@[j]));
        }
        assert forall|j: int| 0 <= j < values@.len() implies values@[j] == values_of(tv, 0)[j] by {
            assert(toks@[0 + j]@ == tv[0 + j]);
        }
        assert(values@ =~= values_of(tv, 0));
        let c = PowerProfileComponent { clock_type: Some(to_string(clock_type.as_slice())), values };
        Ok(c)
    }

    /// Parses the rotated layout: the header lists the modes, each further line gives one
    /// heuristic with a value per mode.
    fn parse_rotated(ls: &Vec<Vec<char>>) -> (r: Result<Self, Error>)
        requires
            ls@.len() > 0,
        ensures
            match r {
                Ok(t) => rotated_table(ls@.map_values(|l: Vec<char>| l@)) == Some(table_model(t)),
                Err(_) => rotated_table(ls@.map_values(|l: Vec<char>| l@)) is None,
            },
    {
        let ghost lv = ls@.map_values(|l: Vec<char>| l@);
        let ghost vls = lv.subrange(1, lv.len() as int);
        let header = clean(ls[0].as_slice());
        let h = split_words(header.as_slice());
        let ghost hv = words(header@);
        assert(ls@[0]@ == lv[0]);
        assert(h@.map_values(|w: Vec<char>| w@) =~= hv);
        let (heads, marks) = parse_heads(&h)?;
        let ghost hs = heads@.map_values(|e: (u16, String)| (e.0, e.1@));
        if marks.count != 1 {
            return Err(no_active_error());
        }
        let value_names = match check_value_lines(ls) {
            Ok(v) => v,
            Err(e) => {
                proof {
                    let j = choose|j: int| 1 <= j < ls@.len() && !value_line_ok(#[trigger] ls@[j]@);
                    assert(vls[j - 1] == ls@[j]@);
                }
                return Err(e);
            },
        };
        assert forall|j: int| 0 <= j < vls.len() implies value_line_ok(#[trigger] vls[j]) by {
            assert(vls[j] == ls@[j + 1]@);
        }
        let modes = modes_of_heads(ls, &heads);
        assert(modes_model(modes@).dom() =~= modes@.dom());
        if !columns_have_modes(ls, &modes) {
            proof {
                let j = choose|j: int| 1 <= j < ls@.len() && !line_covered(#[trigger] ls@[j]@, modes@.dom());
                assert(vls[j - 1] == ls@[j]@);
            }
            return Err(Error::basic_parse_error(to_string(
                to_chars("Could not get profile from header by index").as_slice(),
            )));
        }
        assert forall|j: int| 0 <= j < vls.len() implies line_covered(#[trigger] vls[j], heads_map(hs, vls).dom()) by {
            assert(vls[j] == ls@[j + 1]@);
        }
        let t = PowerProfileModesTable { modes, value_names, active: marks.index };
        Ok(t)
    }
}

/// The modes of a rotated table: each header mode with the column of its index.
fn modes_of_heads(ls: &Vec<Vec<char>>, heads: &Vec<(u16, String)>) -> (r: BTreeMap<u16, PowerProfile>)
    requires
        ls@.len() > 0,
        forall|j: int| 1 <= j < ls@.len() ==> value_line_ok(#[trigger] ls@[j]@),
    ensures
        modes_model(r@) == heads_map(
            heads@.map_values(|e: (u16, String)| (e.0, e.1@)),
            ls@.map_values(|l: Vec<char>| l@).subrange(1, ls@.len() as int),
        ),
{
    let ghost hs = heads@.map_values(|e: (u16, String)| (e.0, e.1@));
    let ghost vls = ls@.map_values(|l: Vec<char>| l@).subrange(1, ls@.len() as int);
    let mut modes: BTreeMap<u16, PowerProfile> = BTreeMap::new();
    let mut q: usize = 0;
    assert(hs.subrange(0, 0) =~= Seq::<(u16, Seq<char>)>::empty());
    assert(modes_model(modes@) =~= Map::<u16, ProfileModel>::empty());
    while q < heads.len()
        invariant
            vls == ls@.map_values(|l: Vec<char>| l@).subrange(1, ls@.len() as int),
            ls@.len() > 0,
            forall|j: int| 1 <= j < ls@.len() ==> value_line_ok(#[trigger] ls@[j]@),
            hs == heads@.map_values(|e: (u16, String)| (e.0, e.1@)),
            q <= heads@.len(),
            modes_model(modes@) == heads_map(hs.subrange(0, q as int), vls),
        decreases heads@.len() - q,
    {
        let index = heads[q].0;
        let name = to_string(to_chars(heads[q].1.as_str()).as_slice());
        let components = column_of(ls, index);
        assert(hs.subrange(0, q + 1).drop_last() =~= hs.subrange(0, q as int));
        assert(hs.subrange(0, q + 1).last() == hs[q as int]);
        insert_profile(&mut modes, index, PowerProfile { name, components });
        q += 1;
    }
    assert(hs.subrange(0, heads@.len() as int) =~= hs);
    modes
}

/// Reads the index and name pairs of a rotated header, counting the marked ones.
fn parse_heads(h: &Vec<Vec<char>>) -> (r: Result<(Vec<(u16, String)>, Marks), Error>)
    ensures
        ({
            let hv = h@.map_values(|w: Vec<char>| w@);
            match r {
                Ok((heads, marks)) => heads_of(hv) == Some(heads@.map_values(|e: (u16, String)| (e.0, e.1@)))
                    && marks.count == marked_columns(hv) && (marks.count == 1 ==> marks.index
                    == first_marked_column(hv)),
                Err(_) => heads_of(hv) is None,
            }
        }),
{
    let ghost hv = h@.map_values(|w: Vec<char>| w@);
    let mut heads: Vec<(u16, String)> = Vec::new();
    let mut marks = Marks { count: 0, index: 0 };
    let mut p: usize = 0;
    let ghost mut first_seen: u16 = 0;
    assert(hv.subrange(0, hv.len() as int) =~= hv);
    proof {
        match heads_of(hv) {
            Some(r0) => {
                assert(heads@.map_values(|e: (u16, String)| (e.0, e.1@)) + r0 =~= r0);
            },
            None => {},
        }
    }
    while p < h.len()
        invariant
            hv == h@.map_values(|w: Vec<char>| w@),
            p <= h@.len(),
            p % 2 == 0,
            marks.count <= p,
            marks.count + marked_columns(hv.subrange(p as int, hv.len() as int)) == marked_columns(hv),
            marks.count == 0 ==> first_marked_column(hv) == first_marked_column(
                hv.subrange(p as int, hv.len() as int),
            ),
            marks.count > 0 ==> first_marked_column(hv) == first_seen,
            marks.count == 1 ==> marks.index == first_seen,
            heads_of(hv) == match heads_of(hv.subrange(p as int, hv.len() as int)) {
                Some(rest) => Some(heads@.map_values(|e: (u16, String)| (e.0, e.1@)) + rest),
                None => None::<Seq<(u16, Seq<char>)>>,
            },
        decreases h@.len() - p,
    {
        let ghost rest = hv.subrange(p as int, hv.len() as int);
        assert(rest[0] == h@[p as int]@);
        let index = match parse_index(h[p].as_slice()) {
            Some(i) => i,
            None => {
                assert(heads_of(rest) is None);
                return Err(Error::basic_parse_error(to_string(
                    to_chars("Unexpected mode index in header").as_slice(),
                )));
            },
        };
        if p + 1 >= h.len() {
            assert(heads_of(rest) is None);
            return Err(Error::unexpected_eol("Missing section name", 1));
        }
        assert(rest.subrange(2, rest.len() as int) =~= hv.subrange(p + 2, hv.len() as int));
        assert(rest[1] == h@[p + 1]@);
        let name = name_without_star(h[p + 1].as_slice());
        if ends_with_star_exec(h[p + 1].as_slice()) {
            proof {
                if marks.count == 0 {
                    first_seen = index;
                }
            }
            marks.count = marks.count + 1;
            marks.index = index;
        }
        let ghost before = heads@.map_values(|e: (u16, String)| (e.0, e.1@));
        heads.push((index, name));
        proof {
            assert(heads@.map_values(|e: (u16, String)| (e.0, e.1@)) =~= before.push((index, name@)));
            match heads_of(hv.subrange(p + 2, hv.len() as int)) {
                Some(r2) => {
                    assert(before + (seq![(index, star_stripped(rest[1]))] + r2) =~= before.push(
                        (index, name@),
                    ) + r2);
                },
                None => {},
            }
        }
        p += 2;
    }
    assert(hv.subrange(p as int, hv.len() as int) =~= Seq::<Seq<char>>::empty());
    assert(heads@.map_values(|e: (u16, String)| (e.0, e.1@)) + Seq::<(u16, Seq<char>)>::empty() =~= heads@.map_values(
        |e: (u16, String)| (e.0, e.1@),
    ));
    Ok((heads, marks))
}

/// Checks the value lines of a rotated table and gives their heuristic names.
fn check_value_lines(ls: &Vec<Vec<char>>) -> (r: Result<Vec<String>, Error>)
    requires
        ls@.len() > 0,
    ensures
        match r {
            Ok(names) => (forall|j: int| 1 <= j < ls@.len() ==> value_line_ok(#[trigger] ls@[j]@))
                && names@.map_values(|n: String| n@) == ls@.map_values(|l: Vec<char>| l@).subrange(
                1,
                ls@.len() as int,
            ).map_values(|l: Seq<char>| value_words(l)[0]),
            Err(_) => exists|j: int| 1 <= j < ls@.len() && !value_line_ok(#[trigger] ls@[j]@),
        },
{
    let ghost lv = ls@.map_values(|l: Vec<char>| l@);
    let ghost vls = lv.subrange(1, lv.len() as int);
    let mut value_names: Vec<String> = Vec::new();
    let mut k: usize = 1;
    assert(vls.subrange(0, 0) =~= Seq::<Seq<char>>::empty());
    assert(value_names@.map_values(|n: String| n@) =~= vls.subrange(0, 0).map_values(
        |l: Seq<char>| value_words(l)[0],
    ));
    while k < ls.len()
        invariant
            lv == ls@.map_values(|l: Vec<char>| l@),
            vls == lv.subrange(1, lv.len() as int),
            1 <= k <= ls@.len(),
            forall|j: int| 1 <= j < k ==> value_line_ok(#[trigger] ls@[j]@),
            value_names@.map_values(|n: String| n@) == vls.subrange(0, k - 1).map_values(
                |l: Seq<char>| value_words(l)[0],
            ),
        decreases ls@.len() - k,
    {
        let line = clean(ls[k].as_slice());
        let w = split_words(line.as_slice());
        let ghost wv = value_words(ls@[k as int]@);
        assert(w@.len() == wv.len());
        assert(forall|j: int| 0 <= j < w@.len() ==> #[trigger] w@[j]@ == wv[j]);
        if w.len() == 0 {
            assert(!value_line_ok(ls@[k as int]@));
            return Err(Error::unexpected_eol("Value name", k + 1));
        }
        let mut c: usize = 1;
        while c < w.len()
            invariant
                1 <= k < ls@.len(),
                wv == value_words(ls@[k as int]@),
                1 <= c <= w@.len(),
                w@.len() == wv.len(),
                forall|j: int| 0 <= j < w@.len() ==> #[trigger] w@[j]@ == wv[j],
                forall|j: int| 1 <= j < c ==> word_value(#[trigger] wv[j]) is Some,
            decreases w@.len() - c,
        {
            assert(w@[c as int]@ == wv[c as int]);
            if parse_i32(w[c].as_slice()).is_none() {
                assert(word_value(wv[c as int]) is None);
                assert(!value_line_ok(ls@[k as int]@));
                return Err(Error::basic_parse_error(to_string(
                    to_chars("Expected an integer value").as_slice(),
                )));
            }
            c += 1;
        }
        let ghost before = value_names@.map_values(|n: String| n@);
        value_names.push(to_string(w[0].as_slice()));
        assert(w@[0]@ == wv[0]);
        assert(vls[k - 1] == ls@[k as int]@);
        assert(vls.subrange(0, k as int) =~= vls.subrange(0, k - 1).push(vls[k - 1]));
        assert(value_names@.map_values(|n: String| n@) =~= before.push(wv[0]));
        assert(vls.subrange(0, k as int).map_values(|l: Seq<char>| value_words(l)[0]) =~= vls.subrange(
            0,
            k - 1,
        ).map_values(|l: Seq<char>| value_words(l)[0]).push(wv[0]));
        k += 1;
    }
    assert(vls.subrange(0, ls@.len() - 1) =~= vls);
    Ok(value_names)
}

proof fn lemma_not_covered(line: Seq<char>, keys: Set<u16>, c: int)
    requires
        1 <= c < value_words(line).len(),
        !column_has_mode(c, keys),
    ensures
        !line_covered(line, keys),
{
}

/// Whether every column that a value line reaches belongs to a mode.
fn columns_have_modes(ls: &Vec<Vec<char>>, modes: &BTreeMap<u16, PowerProfile>) -> (r: bool)
    ensures
        r == forall|j: int| 1 <= j < ls@.len() ==> line_covered(#[trigger] ls@[j]@, modes@.dom()),
{
    let mut k: usize = 1;
    while k < ls.len()
        invariant
            1 <= k,
            forall|j: int| 1 <= j < k && j < ls@.len() ==> line_covered(#[trigger] ls@[j]@, modes@.dom()),
        decreases ls@.len() - k,
    {
        let line = clean(ls[k].as_slice());
        let w = split_words(line.as_slice());
        assert(w@.len() == value_words(ls@[k as int]@).len());
        let mut c: usize = 1;
        while c < w.len()
            invariant
                1 <= k < ls@.len(),
                1 <= c,
                c <= w@.len() || c == 1,
                w@.len() == value_words(ls@[k as int]@).len(),
                forall|j: int| 1 <= j < c ==> #[trigger] column_has_mode(j, modes@.dom()),
            decreases w@.len() - c,
        {
            if c - 1 > u16::MAX as usize {
                proof {
                    lemma_not_covered(ls@[k as int]@, modes@.dom(), c as int);
                }
                return false;
            }
            let key: u16 = (c - 1) as u16;
            if !modes.contains_key(&key) {
                proof {
                    lemma_not_covered(ls@[k as int]@, modes@.dom(), c as int);
                }
                return false;
            }
            c += 1;
        }
        assert(line_covered(ls@[k as int]@, modes@.dom()));
        k += 1;
    }
    true
}

impl PowerProfile {
    /// If this is the custom profile (checked by name, ignoring ASCII case).
    pub fn is_custom(&self) -> (r: bool)
        ensures
            r == is_custom_name(self.name@),
    {
        let n = to_chars(self.name.as_str());
        is_custom_chars(n.as_slice())
    }
}

/// Whether a profile name is `CUSTOM` in any letter case.
pub open spec fn is_custom_name(n: Seq<char>) -> bool {
    n.len() == 6 && crate::gpu_handle::overdrive::ends_with_ci(n, "custom"@)
}

fn is_custom_chars(n: &[char]) -> (r: bool)
    ensures
        r == is_custom_name(n@),
{
    if n.len() != 6 {
        return false;
    }
    let lit = to_chars("custom");
    proof {
        reveal_strlit("custom");
    }
    let mut k: usize = 0;
    while k < 6
        invariant
            n@.len() == 6,
            lit@ == "custom"@,
            lit@.len() == 6,
            k <= 6,
            forall|j: int| 0 <= j < k ==> crate::text::same_letter(n@[n@.len() - 6 + j], #[trigger] lit@[j]),
        decreases 6 - k,
    {
        if !crate::text::same_letter_exec(n[k], lit[k]) {
            return false;
        }
        k += 1;
    }
    true
}

// ---------------------------------------------------------------------------
// Custom heuristics
/// A heuristic value as written to the driver: the number, or `-` to leave it unset.
pub open spec fn value_text(v: Option<i32>) -> Seq<char> {
    match v {
        Some(x) => int_text(x as int),
        None => seq!['-'],
    }
}

/// Each value preceded by a space.
pub open spec fn values_text(vs: Seq<Option<i32>>) -> Seq<char>
    decreases vs.len(),
{
    if vs.len() == 0 {
        Seq::empty()
    } else {
        values_text(vs.drop_last()) + seq![' '] + value_text(vs.last())
    }
}

/// The lines that write custom heuristics for the mode at `index` whose profile has
/// `n` components: one line `<index> <values>` for a single component, else one line
/// `<index> <component> <values>` per component.
pub open spec fn custom_commands(index: u16, n: nat, components: Seq<Seq<Option<i32>>>) -> Seq<Seq<char>> {
    if n == 1 {
        seq![int_text(index as int) + values_text(components[0])]
    } else {
        Seq::new(
            components.len(),
            |c: int| int_text(index as int) + seq![' '] + int_text(c) + values_text(components[c]),
        )
    }
}

fn push_values(out: &mut Vec<char>, vs: &Vec<Option<i32>>)
    ensures
        final(out)@ == old(out)@ + values_text(vs@),
{
    let ghost start = out@;
    let mut k: usize = 0;
    assert(vs@.subrange(0, 0) =~= Seq::<Option<i32>>::empty());
    assert(start + values_text(Seq::<Option<i32>>::empty()) =~= start);
    while k < vs.len()
        invariant
            k <= vs@.len(),
            out@ == start + values_text(vs@.subrange(0, k as int)),
        decreases vs@.len() - k,
    {
        let ghost before = out@;
        out.push(' ');
        match vs[k] {
            Some(x) => push_int(out, x as i64),
            None => out.push('-'),
        }
        assert(vs@.subrange(0, k + 1).drop_last() =~= vs@.subrange(0, k as int));
        assert(out@ =~= before + seq![' '] + value_text(vs@[k as int]));
        k += 1;
    }
    assert(vs@.subrange(0, k as int) =~= vs@);
}

/// The custom profile: the profile named `CUSTOM` with the lowest index.
pub open spec fn is_first_custom(modes: Map<u16, PowerProfile>, index: u16) -> bool {
    &&& modes.contains_key(index)
    &&& is_custom_name(modes[index].name@)
    &&& forall|k: u16| #![auto] k < index && modes.contains_key(k) ==> !is_custom_name(modes[k].name@)
}

impl PowerProfileModesTable {
    /// Finds the custom profile: the profile named `CUSTOM` (in any case) with the lowest
    /// index.
    pub fn find_custom(&self) -> (r: Option<u16>)
        ensures
            match r {
                Some(i) => is_first_custom(self.modes@, i),
                None => forall|k: u16| #![auto] self.modes@.contains_key(k) ==> !is_custom_name(
                    self.modes@[k].name@,
                ),
            },
    {
        let mut k: u32 = 0;
        while k <= u16::MAX as u32
            invariant
                k <= u16::MAX as u32 + 1,
                forall|j: u16| #![auto] j < k && self.modes@.contains_key(j) ==> !is_custom_name(
                    self.modes@[j].name@,
                ),
            decreases u16::MAX as u32 + 1 - k,
        {
            let key = k as u16;
            match self.modes.get(&key) {
                Some(p) => {
                    if p.is_custom() {
                        return Some(key);
                    }
                },
                None => {},
            }
            k += 1;
        }
        None
    }

    /// The lines that write new heuristic values into the custom profile. There must be
    /// a custom profile, and one list of values per component of it.
    pub fn custom_heuristics_commands(&self, components: &Vec<Vec<Option<i32>>>) -> (r: Result<Vec<String>, Error>)
        ensures
            match r {
                Ok(lines) => exists|i: u16|
                    is_first_custom(self.modes@, i) && self.modes@[i].components@.len()
                        == components@.len() && lines@.map_values(|l: String| l@) == custom_commands(
                        i,
                        components@.len(),
                        components@.map_values(|c: Vec<Option<i32>>| c@),
                    ),
                Err(e) => crate::error::is_not_allowed(e) && forall|i: u16|
                    is_first_custom(self.modes@, i) ==> self.modes@[i].components@.len()
                        != components@.len(),
            },
    {
        let index = match self.find_custom() {
            Some(i) => i,
            None => {
                return Err(Error::not_allowed(
                    to_string(to_chars("Could not find a custom power profile").as_slice()),
                ));
            },
        };
        let profile = match self.modes.get(&index) {
            Some(p) => p,
            None => {
                return Err(Error::not_allowed(
                    to_string(to_chars("Could not find a custom power profile").as_slice()),
                ));
            },
        };
        let n = profile.components.len();
        if n != components.len() {
            proof {
                assert forall|i: u16| is_first_custom(self.modes@, i) implies self.modes@[i].components@.len()
                    != components@.len() by {
                    if i != index {
                        if i < index {
                            assert(!is_custom_name(self.modes@[i].name@));
                        } else {
                            assert(!is_custom_name(self.modes@[index].name@));
                        }
                    }
                }
            }
            return Err(Error::not_allowed(
                to_string(to_chars("Unexpected number of power profile components").as_slice()),
            ));
        }
        let ghost cv = components@.map_values(|c: Vec<Option<i32>>| c@);
        let mut out: Vec<String> = Vec::new();
        if n == 1 {
            let mut line: Vec<char> = Vec::new();
            push_u64(&mut line, index as u64);
            push_values(&mut line, &components[0]);
            out.push(to_string(line.as_slice()));
            assert(out@.map_values(|l: String| l@) =~= custom_commands(index, n as nat, cv));
        } else {
            let mut c: usize = 0;
            while c < components.len()
                invariant
                    n == components@.len(),
                    n != 1,
                    cv == components@.map_values(|c: Vec<Option<i32>>| c@),
                    c <= n,
                    out@.map_values(|l: String| l@) == custom_commands(index, n as nat, cv).subrange(
                        0,
                        c as int,
                    ),
                decreases n - c,
            {
                let mut line: Vec<char> = Vec::new();
                push_u64(&mut line, index as u64);
                line.push(' ');
                push_u64(&mut line, c as u64);
                push_values(&mut line, &components[c]);
                assert(cv[c as int] == components@[c as int]@);
                assert(line@ =~= int_text(index as int) + seq![' '] + int_text(c as int) + values_text(
                    cv[c as int],
                ));
                let text = to_string(line.as_slice());
                let ghost before = out@;
                out.push(text);
                assert(out@.map_values(|l: String| l@) =~= before.map_values(|l: String| l@).push(
                    text@,
                ));
                assert(custom_commands(index, n as nat, cv).subrange(0, c + 1) =~= custom_commands(
                    index,
                    n as nat,
                    cv,
                ).subrange(0, c as int).push(custom_commands(index, n as nat, cv)[c as int]));
                c += 1;
            }
            assert(custom_commands(index, n as nat, cv).subrange(0, n as int) =~= custom_commands(
                index,
                n as nat,
                cv,
            ));
        }
        Ok(out)
    }
}

} // verus!
