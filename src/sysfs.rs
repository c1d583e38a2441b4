//! Access to the files of a SysFS directory, and the reading of single values.
use crate::error::{parse_error_at, Error};
use crate::text::{
    clean, clean_line, copy_range, parse_unsigned, to_chars, to_string, unsigned_value, value_in,
};
use vstd::prelude::*;

verus! {

/// General functionality of a SysFS: the files of one directory of it.
///
/// What a file holds is not known in advance; everything read through this trait is
/// checked by the parsers of this library.
pub trait SysFS {
    /// Reads the whole content of a file of the directory (`file` may name a subdirectory).
    fn read_file(&self, file: &str) -> Result<String, Error>;

    /// Writes `contents` to a file of the directory in one write.
    fn write_file(&self, file: &str, contents: &str) -> Result<(), Error>;
}

/// Reads a file and returns its value: NUL characters dropped, surrounding whitespace
/// trimmed.
pub fn read_value<F: SysFS>(fs: &F, file: &str) -> (r: Result<Vec<char>, Error>) {
    let raw = fs.read_file(file)?;
    Ok(file_value(raw.as_str()))
}

/// The value of a file's content: NUL characters dropped, surrounding whitespace trimmed.
pub fn file_value(raw: &str) -> (r: Vec<char>)
    ensures
        r@ == clean_line(raw@),
{
    clean(to_chars(raw).as_slice())
}

/// Reads a file as text (see [`read_value`]).
pub fn read_text<F: SysFS>(fs: &F, file: &str) -> (r: Result<String, Error>) {
    let v = read_value(fs, file)?;
    Ok(to_string(v.as_slice()))
}

/// A value read as an unsigned number of at most `hi`.
pub open spec fn unsigned_at_most(v: Seq<char>, hi: int) -> Option<int> {
    value_in(unsigned_value(v), 0, hi)
}

/// Reads `v` as an unsigned number of at most `hi`.
pub fn parse_unsigned_value(v: &[char], hi: u64) -> (r: Result<u64, Error>)
    ensures
        match r {
            Ok(n) => unsigned_at_most(v@, hi as int) == Some(n as int),
            Err(e) => unsigned_at_most(v@, hi as int) is None && parse_error_at(e, 1),
        },
{
    match parse_unsigned(v, hi) {
        Some(n) => Ok(n),
        None => Err(Error::parse_error("Could not parse the value as a number", 1)),
    }
}

/// Reads a file as an unsigned number of at most `hi`.
pub fn read_unsigned<F: SysFS>(fs: &F, file: &str, hi: u64) -> (r: Result<u64, Error>)
    ensures
        r matches Ok(n) ==> n <= hi,
{
    let v = read_value(fs, file)?;
    parse_unsigned_value(v.as_slice(), hi)
}

/// Index of the first `c` at or after `i`, or the length of `s`.
pub open spec fn index_of(s: Seq<char>, c: char, i: int) -> int
    decreases s.len() - i,
{
    if i < 0 || i >= s.len() || s[i] == c {
        i
    } else {
        index_of(s, c, i + 1)
    }
}

/// `s` split at its first `c`, as `str::split_once` does.
pub open spec fn split_once(s: Seq<char>, c: char) -> Option<(Seq<char>, Seq<char>)> {
    let p = index_of(s, c, 0);
    if p < s.len() {
        Some((s.subrange(0, p), s.subrange(p + 1, s.len() as int)))
    } else {
        None
    }
}

pub proof fn lemma_index_of_run(s: Seq<char>, c: char, i: int, j: int)
    requires
        0 <= i <= j <= s.len(),
        forall|k: int| i <= k < j ==> s[k] != c,
    ensures
        index_of(s, c, i) == index_of(s, c, j),
    decreases j - i,
{
    if i < j {
        lemma_index_of_run(s, c, i + 1, j);
    }
}

/// Splits `s` at the first `c`: the parts before and after it.
pub fn split_once_char(s: &[char], c: char) -> (r: Option<(Vec<char>, Vec<char>)>)
    ensures
        match r {
            Some((a, b)) => split_once(s@, c) == Some((a@, b@)),
            None => split_once(s@, c) is None,
        },
{
    let mut i: usize = 0;
    while i < s.len()
        invariant
            i <= s@.len(),
            forall|j: int| 0 <= j < i ==> s@[j] != c,
        decreases s@.len() - i,
    {
        if s[i] == c {
            proof {
                lemma_index_of_run(s@, c, 0, i as int);
            }
            let a = copy_range(s, 0, i);
            let b = copy_range(s, i + 1, s.len());
            return Some((a, b));
        }
        i += 1;
    }
    proof {
        lemma_index_of_run(s@, c, 0, i as int);
    }
    None
}

/// The pieces of `s` between the copies of `c`, as `str::split` yields them.
pub open spec fn pieces(s: Seq<char>, c: char) -> Seq<Seq<char>>
    decreases s.len(),
    via pieces_decreases
{
    let p = index_of(s, c, 0);
    if p < s.len() {
        seq![s.subrange(0, p)] + pieces(s.subrange(p + 1, s.len() as int), c)
    } else {
        seq![s]
    }
}

#[via_fn]
proof fn pieces_decreases(s: Seq<char>, c: char) {
    lemma_index_of_bounds(s, c, 0);
}

proof fn lemma_index_of_bounds(s: Seq<char>, c: char, i: int)
    requires
        0 <= i <= s.len(),
    ensures
        i <= index_of(s, c, i) <= s.len(),
    decreases s.len() - i,
{
    if i < s.len() && s[i] != c {
        lemma_index_of_bounds(s, c, i + 1);
    }
}

/// Splits `s` at every `c`, as `str::split` does.
pub fn split_char(s: &[char], c: char) -> (r: Vec<Vec<char>>)
    ensures
        r@.len() == pieces(s@, c).len(),
        forall|k: int| 0 <= k < r@.len() ==> #[trigger] r@[k]@ == pieces(s@, c)[k],
{
    let mut r: Vec<Vec<char>> = Vec::new();
    let mut start: usize = 0;
    let mut i: usize = 0;
    let ghost mut done: Seq<Seq<char>> = Seq::empty();
    assert(s@.subrange(0, s@.len() as int) =~= s@);
    while i < s.len()
        invariant
            start <= i <= s@.len(),
            forall|j: int| start <= j < i ==> s@[j] != c,
            r@.len() == done.len(),
            forall|k: int| 0 <= k < r@.len() ==> #[trigger] r@[k]@ == done[k],
            done + pieces(s@.subrange(start as int, s@.len() as int), c) == pieces(s@, c),
        decreases s@.len() - i,
    {
        if s[i] == c {
            let ghost t = s@.subrange(start as int, s@.len() as int);
            proof {
                assert forall|j: int| 0 <= j < i - start implies t[j] != c by {
                    assert(t[j] == s@[start + j]);
                }
                lemma_index_of_run(t, c, 0, i - start);
                assert(t[i - start] == c);
                assert(t.subrange(0, i - start) =~= s@.subrange(start as int, i as int));
                assert(t.subrange(i - start + 1, t.len() as int) =~= s@.subrange(i + 1, s@.len() as int));
                assert(done.push(s@.subrange(start as int, i as int)) + pieces(s@.subrange(i + 1, s@.len() as int), c)
                    =~= done + pieces(t, c));
                done = done.push(s@.subrange(start as int, i as int));
            }
            r.push(copy_range(s, start, i));
            start = i + 1;
        }
        i += 1;
    }
    let ghost t = s@.subrange(start as int, s@.len() as int);
    proof {
        assert forall|j: int| 0 <= j < t.len() implies t[j] != c by {
            assert(t[j] == s@[start + j]);
        }
        lemma_index_of_run(t, c, 0, t.len() as int);
        assert(pieces(t, c) == seq![t]);
        done = done.push(t);
    }
    r.push(copy_range(s, start, s.len()));
    r
}

/// `s` without trailing copies of `c`.
pub fn trim_end_char(s: &[char], c: char) -> (r: Vec<char>)
    ensures
        r@.len() <= s@.len(),
        r@ == s@.subrange(0, r@.len() as int),
{
    let mut end: usize = s.len();
    while end > 0 && s[end - 1] == c
        invariant
            end <= s@.len(),
        decreases end,
    {
        end -= 1;
    }
    copy_range(s, 0, end)
}

} // verus!
