//! What the driver reads from the command lines of a table, and the proof that the lines
//! of an unedited table read back as its current values.
use super::{level_command, vega10, vega20, ClocksLevel, Range};
use crate::text::{
    int_text, is_word, is_ws, lemma_int_text, lemma_words_leading, lemma_words_single,
    signed_value, value_in, words,
};
use vstd::prelude::*;

verus! {

/// A word read as an `i32`.
pub open spec fn word_value(w: Seq<char>) -> Option<i32> {
    match value_in(signed_value(w), i32::MIN as int, i32::MAX as int) {
        Some(v) => Some(v as i32),
        None => None,
    }
}

/// What a level line `<symbol> <index> <clockspeed> <voltage>` sets.
pub open spec fn read_level_command(line: Seq<char>) -> Option<(char, int, ClocksLevel)> {
    let w = words(line);
    if w.len() == 4 && w[0].len() == 1 && signed_value(w[1]) is Some && word_value(w[2]) is Some
        && word_value(w[3]) is Some {
        Some(
            (
                w[0][0],
                signed_value(w[1])->0,
                ClocksLevel { clockspeed: word_value(w[2])->0, voltage: word_value(w[3])->0 },
            ),
        )
    } else {
        None
    }
}

/// What a clock line `<symbol> <index> <clockspeed>` sets.
pub open spec fn read_clock_command(line: Seq<char>) -> Option<(char, int, i32)> {
    let w = words(line);
    if w.len() == 3 && w[0].len() == 1 && signed_value(w[1]) is Some && word_value(w[2]) is Some {
        Some((w[0][0], signed_value(w[1])->0, word_value(w[2])->0))
    } else {
        None
    }
}

/// What a curve line `vc <index> <clockspeed> <voltage>` sets.
pub open spec fn read_curve_command(line: Seq<char>) -> Option<(int, ClocksLevel)> {
    let w = words(line);
    if w.len() == 4 && w[0] == seq!['v', 'c'] && signed_value(w[1]) is Some && word_value(w[2]) is Some
        && word_value(w[3]) is Some {
        Some(
            (
                signed_value(w[1])->0,
                ClocksLevel { clockspeed: word_value(w[2])->0, voltage: word_value(w[3])->0 },
            ),
        )
    } else {
        None
    }
}

/// What an offset line `vo <offset>` sets.
pub open spec fn read_offset_command(line: Seq<char>) -> Option<i32> {
    let w = words(line);
    if w.len() == 2 && w[0] == seq!['v', 'o'] && word_value(w[1]) is Some {
        Some(word_value(w[1])->0)
    } else {
        None
    }
}

/// The current values of a Vega20 table as the driver holds them.
pub struct CurrentValues {
    pub sclk: Range,
    pub mclk: Range,
    pub curve: Seq<ClocksLevel>,
    pub offset: Option<i32>,
}

/// Nothing set yet.
pub open spec fn no_values() -> CurrentValues {
    CurrentValues {
        sclk: Range { min: None, max: None },
        mclk: Range { min: None, max: None },
        curve: Seq::empty(),
        offset: None,
    }
}

/// The values after the driver takes one line: a bound of a clock range, a point of the
/// curve (the next one, or one that exists), or the offset.
pub open spec fn apply_command(v: CurrentValues, line: Seq<char>) -> CurrentValues {
    match read_clock_command(line) {
        Some((sym, idx, c)) => if sym == 's' && idx == 0 {
            CurrentValues { sclk: Range { min: Some(c), max: v.sclk.max }, ..v }
        } else if sym == 's' && idx == 1 {
            CurrentValues { sclk: Range { min: v.sclk.min, max: Some(c) }, ..v }
        } else if sym == 'm' && idx == 0 {
            CurrentValues { mclk: Range { min: Some(c), max: v.mclk.max }, ..v }
        } else if sym == 'm' && idx == 1 {
            CurrentValues { mclk: Range { min: v.mclk.min, max: Some(c) }, ..v }
        } else {
            v
        },
        None => match read_curve_command(line) {
            Some((i, l)) => if i == v.curve.len() {
                CurrentValues { curve: v.curve.push(l), ..v }
            } else if 0 <= i < v.curve.len() {
                CurrentValues { curve: v.curve.update(i, l), ..v }
            } else {
                v
            },
            None => match read_offset_command(line) {
                Some(o) => CurrentValues { offset: Some(o), ..v },
                None => v,
            },
        },
    }
}

/// The values after the driver takes the lines in order.
pub open spec fn replay(cmds: Seq<Seq<char>>, v: CurrentValues) -> CurrentValues
    decreases cmds.len(),
{
    if cmds.len() == 0 {
        v
    } else {
        apply_command(replay(cmds.drop_last(), v), cmds.last())
    }
}

proof fn lemma_word_value(x: i32)
    ensures
        word_value(int_text(x as int)) == Some(x),
        is_word(int_text(x as int)),
{
    lemma_int_text(x as int);
}

proof fn lemma_index_word(i: int)
    ensures
        signed_value(int_text(i)) == Some(i),
        is_word(int_text(i)),
{
    lemma_int_text(i);
}

proof fn lemma_level_command_read(sym: char, i: int, l: ClocksLevel)
    requires
        !is_ws(sym),
    ensures
        read_level_command(level_command(sym, i, l)) == Some((sym, i, l)),
{
    let ii = int_text(i);
    let cc = int_text(l.clockspeed as int);
    let vv = int_text(l.voltage as int);
    lemma_index_word(i);
    lemma_word_value(l.clockspeed);
    lemma_word_value(l.voltage);
    let s = seq![sym];
    assert(is_word(s));
    assert(level_command(sym, i, l) =~= s + seq![' '] + (ii + seq![' '] + (cc + seq![' '] + vv)));
    lemma_words_single(vv);
    lemma_words_leading(cc, vv);
    lemma_words_leading(ii, cc + seq![' '] + vv);
    lemma_words_leading(s, ii + seq![' '] + (cc + seq![' '] + vv));
    assert(words(level_command(sym, i, l)) =~= seq![s, ii, cc, vv]);
}

/// The level lines of a Vega10 table read back as its levels: line `k` sets sclk level
/// `k`, and the lines after the sclk levels set the mclk levels.
pub proof fn lemma_vega10_commands_read_back(sclk: Seq<ClocksLevel>, mclk: Seq<ClocksLevel>)
    ensures
        ({
            let cmds = vega10::table_commands(sclk, mclk);
            &&& cmds.len() == sclk.len() + mclk.len()
            &&& forall|k: int| 0 <= k < sclk.len() ==> read_level_command(#[trigger] cmds[k]) == Some(
                ('s', k, sclk[k]),
            )
            &&& forall|k: int|
                0 <= k < mclk.len() ==> read_level_command(#[trigger] cmds[sclk.len() + k]) == Some(
                    ('m', k, mclk[k]),
                )
        }),
{
    let cmds = vega10::table_commands(sclk, mclk);
    assert forall|k: int| 0 <= k < sclk.len() implies read_level_command(#[trigger] cmds[k]) == Some(
        ('s', k, sclk[k]),
    ) by {
        lemma_level_command_read('s', k, sclk[k]);
    }
    assert forall|k: int| 0 <= k < mclk.len() implies read_level_command(
        #[trigger] cmds[sclk.len() + k],
    ) == Some(('m', k, mclk[k])) by {
        lemma_level_command_read('m', k, mclk[k]);
    }
}

proof fn lemma_clock_command_read(sym: char, idx: int, c: i32)
    requires
        !is_ws(sym),
    ensures
        read_clock_command(vega20::clock_command(sym, idx, c as int)) == Some((sym, idx, c)),
{
    let ii = int_text(idx);
    let cc = int_text(c as int);
    lemma_index_word(idx);
    lemma_word_value(c);
    let s = seq![sym];
    assert(is_word(s));
    assert(vega20::clock_command(sym, idx, c as int) =~= s + seq![' '] + (ii + seq![' '] + cc));
    lemma_words_single(cc);
    lemma_words_leading(ii, cc);
    lemma_words_leading(s, ii + seq![' '] + cc);
    assert(words(vega20::clock_command(sym, idx, c as int)) =~= seq![s, ii, cc]);
}

proof fn lemma_curve_command_read(i: int, l: ClocksLevel)
    ensures
        read_clock_command(vega20::curve_command(i, l)) is None,
        read_curve_command(vega20::curve_command(i, l)) == Some((i, l)),
{
    let ii = int_text(i);
    let cc = int_text(l.clockspeed as int);
    let vv = int_text(l.voltage as int);
    lemma_index_word(i);
    lemma_word_value(l.clockspeed);
    lemma_word_value(l.voltage);
    let s = seq!['v', 'c'];
    assert(is_word(s));
    assert(vega20::curve_command(i, l) =~= s + seq![' '] + (ii + seq![' '] + (cc + seq![' '] + vv)));
    lemma_words_single(vv);
    lemma_words_leading(cc, vv);
    lemma_words_leading(ii, cc + seq![' '] + vv);
    lemma_words_leading(s, ii + seq![' '] + (cc + seq![' '] + vv));
    assert(words(vega20::curve_command(i, l)) =~= seq![s, ii, cc, vv]);
}

proof fn lemma_offset_command_read(o: i32)
    ensures
        read_clock_command(vega20::offset_command(o as int)) is None,
        read_curve_command(vega20::offset_command(o as int)) is None,
        read_offset_command(vega20::offset_command(o as int)) == Some(o),
{
    let oo = int_text(o as int);
    lemma_word_value(o);
    let s = seq!['v', 'o'];
    assert(is_word(s));
    assert(vega20::offset_command(o as int) =~= s + seq![' '] + oo);
    lemma_words_single(oo);
    lemma_words_leading(s, oo);
    assert(words(vega20::offset_command(o as int)) =~= seq![s, oo]);
}

proof fn lemma_replay_concat(a: Seq<Seq<char>>, b: Seq<Seq<char>>, v: CurrentValues)
    ensures
        replay(a + b, v) == replay(b, replay(a, v)),
    decreases b.len(),
{
    if b.len() == 0 {
        assert(a + b =~= a);
    } else {
        lemma_replay_concat(a, b.drop_last(), v);
        assert((a + b).drop_last() =~= a + b.drop_last());
    }
}

proof fn lemma_replay_one(x: Seq<char>, v: CurrentValues)
    ensures
        replay(seq![x], v) == apply_command(v, x),
{
    assert(seq![x].drop_last() =~= Seq::<Seq<char>>::empty());
    assert(replay(Seq::<Seq<char>>::empty(), v) == v);
    assert(seq![x].last() == x);
}

proof fn lemma_replay_optional(sym: char, idx: int, c: Option<i32>, v: CurrentValues)
    requires
        !is_ws(sym),
    ensures
        replay(vega20::optional_clock_command(sym, idx, c), v) == match c {
            Some(x) => apply_command(v, vega20::clock_command(sym, idx, x as int)),
            None => v,
        },
{
    match c {
        Some(x) => {
            lemma_replay_one(vega20::clock_command(sym, idx, x as int), v);
        },
        None => {},
    }
}

/// The clock lines of one domain, written for an unedited table, leave that domain's range
/// as it was when it started out empty.
proof fn lemma_replay_domain(sym: char, r: Range, v: CurrentValues)
    requires
        sym == 's' || sym == 'm',
        sym == 's' ==> v.sclk == (Range { min: None, max: None }),
        sym == 'm' ==> v.mclk == (Range { min: None, max: None }),
    ensures
        ({
            let after = replay(vega20::domain_commands(sym, r, r), v);
            &&& sym == 's' ==> after == (CurrentValues { sclk: r, ..v })
            &&& sym == 'm' ==> after == (CurrentValues { mclk: r, ..v })
        }),
{
    let first = if vega20::raises_min_over_old_max(r, r) {
        vega20::optional_clock_command(sym, 1, r.max)
    } else {
        Seq::empty()
    };
    let lo = vega20::optional_clock_command(sym, 0, r.min);
    let hi = vega20::optional_clock_command(sym, 1, r.max);
    lemma_replay_concat(first + lo, hi, v);
    lemma_replay_concat(first, lo, v);
    lemma_replay_optional(sym, 1, r.max, v);
    let v1 = replay(first, v);
    lemma_replay_optional(sym, 0, r.min, v1);
    let v2 = replay(lo, v1);
    lemma_replay_optional(sym, 1, r.max, v2);
    match r.max {
        Some(x) => {
            lemma_clock_command_read(sym, 1, x);
        },
        None => {},
    }
    match r.min {
        Some(x) => {
            lemma_clock_command_read(sym, 0, x);
        },
        None => {},
    }
}

proof fn lemma_replay_curve(c: Seq<ClocksLevel>, v: CurrentValues)
    requires
        v.curve == Seq::<ClocksLevel>::empty(),
    ensures
        replay(vega20::curve_commands(c), v) == (CurrentValues { curve: c, ..v }),
    decreases c.len(),
{
    if c.len() == 0 {
        assert(vega20::curve_commands(c) =~= Seq::<Seq<char>>::empty());
        assert(CurrentValues { curve: c, ..v } == v) by {
            assert(c =~= Seq::<ClocksLevel>::empty());
        }
    } else {
        let d = c.drop_last();
        lemma_replay_curve(d, v);
        let n = c.len() - 1;
        assert(vega20::curve_commands(c).drop_last() =~= vega20::curve_commands(d));
        lemma_curve_command_read(n, c.last());
        assert(d.push(c.last()) =~= c);
    }
}

/// Round trip: the commands written for an unedited Vega20 table, taken by the driver in
/// order from nothing set, reproduce the table's current sclk and mclk ranges, voltage
/// curve and voltage offset.
pub proof fn lemma_vega20_commands_replay(t: vega20::Table)
    ensures
        replay(vega20::table_commands(t, t), no_values()) == (CurrentValues {
            sclk: t.current_sclk_range,
            mclk: t.current_mclk_range,
            curve: t.vddc_curve@,
            offset: t.voltage_offset,
        }),
{
    let ds = vega20::domain_commands('s', t.current_sclk_range, t.current_sclk_range);
    let dm = vega20::domain_commands('m', t.current_mclk_range, t.current_mclk_range);
    let cv = vega20::curve_commands(t.vddc_curve@);
    let oc = vega20::offset_commands(t.voltage_offset);
    let v0 = no_values();
    lemma_replay_concat(ds + dm + cv, oc, v0);
    lemma_replay_concat(ds + dm, cv, v0);
    lemma_replay_concat(ds, dm, v0);
    lemma_replay_domain('s', t.current_sclk_range, v0);
    let v1 = replay(ds, v0);
    lemma_replay_domain('m', t.current_mclk_range, v1);
    let v2 = replay(dm, v1);
    lemma_replay_curve(t.vddc_curve@, v2);
    let v3 = replay(cv, v2);
    match t.voltage_offset {
        Some(o) => {
            lemma_offset_command_read(o);
            lemma_replay_one(vega20::offset_command(o as int), v3);
        },
        None => {},
    }
}

} // verus!
