//! Character-level helpers shared by every parser: line splitting, whitespace
//! tokenizing, trimming, decimal numbers and string building.
use vstd::prelude::*;

verus! {

// ---------------------------------------------------------------------------
// Character classes
/// Unicode `White_Space`, the set that `char::is_whitespace` tests.
pub open spec fn is_ws(c: char) -> bool {
    ||| ('\t' <= c && c <= '\r')
    ||| c == ' '
    ||| c == '\u{85}'
    ||| c == '\u{a0}'
    ||| c == '\u{1680}'
    ||| ('\u{2000}' <= c && c <= '\u{200a}')
    ||| c == '\u{2028}'
    ||| c == '\u{2029}'
    ||| c == '\u{202f}'
    ||| c == '\u{205f}'
    ||| c == '\u{3000}'
}

pub fn is_whitespace(c: char) -> (r: bool)
    ensures
        r == is_ws(c),
{
    ('\t' <= c && c <= '\r') || c == ' ' || c == '\u{85}' || c == '\u{a0}' || c == '\u{1680}'
        || ('\u{2000}' <= c && c <= '\u{200a}') || c == '\u{2028}' || c == '\u{2029}' || c
        == '\u{202f}' || c == '\u{205f}' || c == '\u{3000}'
}

pub open spec fn is_digit(c: char) -> bool {
    '0' <= c && c <= '9'
}

pub open spec fn digit_value(c: char) -> int {
    c as int - '0' as int
}

/// Whether `c` equals `l` when ASCII letter case is ignored (`l` is lower case).
pub open spec fn same_letter(c: char, l: char) -> bool {
    c == l || ('a' <= l && l <= 'z' && c as int == l as int - 32)
}

pub fn same_letter_exec(c: char, l: char) -> (r: bool)
    ensures
        r == same_letter(c, l),
{
    c == l || ('a' <= l && l <= 'z' && c as u32 + 32 == l as u32)
}

/// The character of a decimal digit.
pub open spec fn digit_char(d: int) -> char {
    if d == 0 {
        '0'
    } else if d == 1 {
        '1'
    } else if d == 2 {
        '2'
    } else if d == 3 {
        '3'
    } else if d == 4 {
        '4'
    } else if d == 5 {
        '5'
    } else if d == 6 {
        '6'
    } else if d == 7 {
        '7'
    } else if d == 8 {
        '8'
    } else {
        '9'
    }
}

// ---------------------------------------------------------------------------
// Reading a `&str`
pub fn to_chars(s: &str) -> (r: Vec<char>)
    ensures
        r@ == s@,
{
    let n = s.unicode_len();
    let mut r: Vec<char> = Vec::new();
    let mut i: usize = 0;
    while i < n
        invariant
            n == s@.len(),
            i <= n,
            r@ == s@.subrange(0, i as int),
        decreases n - i,
    {
        r.push(s.get_char(i));
        i += 1;
        assert(r@ =~= s@.subrange(0, i as int));
    }
    assert(r@ =~= s@);
    r
}

/// Whether `s` holds exactly the characters of the literal `lit`.
pub fn eq_str(s: &[char], lit: &str) -> (r: bool)
    ensures
        r == (s@ == lit@),
{
    let n = lit.unicode_len();
    if n != s.len() {
        return false;
    }
    let mut i: usize = 0;
    while i < n
        invariant
            n == lit@.len(),
            n == s@.len(),
            i <= n,
            forall|k: int| 0 <= k < i ==> s@[k] == lit@[k],
        decreases n - i,
    {
        if s[i] != lit.get_char(i) {
            return false;
        }
        i += 1;
    }
    assert(s@ =~= lit@);
    true
}

/// Whether `s` begins with the characters of `lit`.
pub fn starts_with_str(s: &[char], lit: &str) -> (r: bool)
    ensures
        r == (lit@.len() <= s@.len() && s@.subrange(0, lit@.len() as int) == lit@),
{
    let n = lit.unicode_len();
    if n > s.len() {
        return false;
    }
    let mut i: usize = 0;
    while i < n
        invariant
            n == lit@.len(),
            n <= s@.len(),
            i <= n,
            forall|k: int| 0 <= k < i ==> s@[k] == lit@[k],
        decreases n - i,
    {
        if s[i] != lit.get_char(i) {
            assert(s@.subrange(0, n as int)[i as int] != lit@[i as int]);
            return false;
        }
        i += 1;
    }
    assert(s@.subrange(0, n as int) =~= lit@);
    true
}

/// Whether `c` occurs in `s`.
pub fn contains_char(s: &[char], c: char) -> (r: bool)
    ensures
        r == s@.contains(c),
{
    let mut i: usize = 0;
    while i < s.len()
        invariant
            i <= s@.len(),
            forall|k: int| 0 <= k < i ==> s@[k] != c,
        decreases s@.len() - i,
    {
        if s[i] == c {
            assert(s@[i as int] == c);
            return true;
        }
        i += 1;
    }
    false
}

/// Whether `pat` occurs in `s` at position `at`.
pub open spec fn occurs_at(s: Seq<char>, pat: Seq<char>, at: int) -> bool {
    0 <= at && at + pat.len() <= s.len() && s.subrange(at, at + pat.len()) == pat
}

pub open spec fn contains_seq(s: Seq<char>, pat: Seq<char>) -> bool {
    exists|at: int| occurs_at(s, pat, at)
}

/// Whether the characters of `lit` occur as a contiguous run in `s`.
pub fn contains_str(s: &[char], lit: &str) -> (r: bool)
    ensures
        r == contains_seq(s@, lit@),
{
    let pat = to_chars(lit);
    let n = pat.len();
    if n > s.len() {
        assert forall|at: int| !occurs_at(s@, lit@, at) by {}
        return false;
    }
    let mut at: usize = 0;
    while at <= s.len() - n
        invariant
            pat@ == lit@,
            n == pat@.len(),
            n <= s@.len(),
            at <= s@.len() - n + 1,
            forall|a: int| 0 <= a < at ==> !occurs_at(s@, lit@, a),
        decreases s@.len() - at,
    {
        let mut k: usize = 0;
        let mut same = true;
        while k < n
            invariant
                pat@ == lit@,
                n == pat@.len(),
                at + n <= s@.len(),
                s@.len() <= usize::MAX,
                k <= n,
                same == (forall|j: int| 0 <= j < k ==> s@[at + j] == pat@[j]),
            decreases n - k,
        {
            assert(at + k < s@.len());
            if s[at + k] != pat[k] {
                same = false;
            }
            k += 1;
        }
        if same {
            assert(s@.subrange(at as int, at + n) =~= lit@);
            assert(occurs_at(s@, lit@, at as int));
            return true;
        }
        assert(!occurs_at(s@, lit@, at as int)) by {
            if occurs_at(s@, lit@, at as int) {
                assert forall|j: int| 0 <= j < n implies s@[at + j] == pat@[j] by {
                    assert(s@.subrange(at as int, at + n)[j] == s@[at + j]);
                }
            }
        }
        at += 1;
    }
    assert forall|a: int| !occurs_at(s@, lit@, a) by {
        if 0 <= a && a < at {
        }
    }
    false
}

// ---------------------------------------------------------------------------
// Lines
/// Index of the first `'\n'` at or after `i`, or the length of `s`.
pub open spec fn line_end(s: Seq<char>, i: int) -> int
    decreases s.len() - i,
{
    if i < 0 || i >= s.len() || s[i] == '\n' {
        i
    } else {
        line_end(s, i + 1)
    }
}

/// A line without its terminator; a `'\r'` before a `'\n'` belongs to the terminator.
pub open spec fn line_at(s: Seq<char>, i: int) -> Seq<char> {
    let e = line_end(s, i);
    if e < s.len() && e > i && s[e - 1] == '\r' {
        s.subrange(i, e - 1)
    } else {
        s.subrange(i, e)
    }
}

/// The lines of `s` from index `i` on, as `str::lines` yields them.
pub open spec fn lines_from(s: Seq<char>, i: int) -> Seq<Seq<char>>
    decreases s.len() + 1 - i,
    via lines_from_decreases
{
    if i < 0 || i >= s.len() {
        Seq::empty()
    } else {
        seq![line_at(s, i)] + lines_from(s, line_end(s, i) + 1)
    }
}

#[via_fn]
proof fn lines_from_decreases(s: Seq<char>, i: int) {
    if 0 <= i < s.len() {
        lemma_line_end_bounds(s, i);
    }
}

pub open spec fn lines(s: Seq<char>) -> Seq<Seq<char>> {
    lines_from(s, 0)
}

pub proof fn lemma_line_end_bounds(s: Seq<char>, i: int)
    requires
        0 <= i <= s.len(),
    ensures
        i <= line_end(s, i) <= s.len(),
        line_end(s, i) < s.len() ==> s[line_end(s, i)] == '\n',
        forall|k: int| i <= k < line_end(s, i) ==> s[k] != '\n',
    decreases s.len() - i,
{
    if i < s.len() && s[i] != '\n' {
        lemma_line_end_bounds(s, i + 1);
    }
}

proof fn lemma_line_end_step(s: Seq<char>, i: int, j: int)
    requires
        0 <= i <= j <= s.len(),
        forall|k: int| i <= k < j ==> s[k] != '\n',
    ensures
        line_end(s, i) == line_end(s, j),
    decreases j - i,
{
    if i < j {
        lemma_line_end_step(s, i + 1, j);
    }
}

/// Copies `s[from..to]` into a new vector.
pub fn copy_range(s: &[char], from: usize, to: usize) -> (r: Vec<char>)
    requires
        from <= to <= s@.len(),
    ensures
        r@ == s@.subrange(from as int, to as int),
{
    let mut r: Vec<char> = Vec::new();
    let mut i: usize = from;
    while i < to
        invariant
            from <= i <= to <= s@.len(),
            r@ == s@.subrange(from as int, i as int),
        decreases to - i,
    {
        r.push(s[i]);
        i += 1;
        assert(r@ =~= s@.subrange(from as int, i as int));
    }
    r
}

/// Splits text into lines as `str::lines` does.
pub fn split_lines(s: &[char]) -> (r: Vec<Vec<char>>)
    ensures
        r@.len() == lines(s@).len(),
        forall|k: int| 0 <= k < r@.len() ==> #[trigger] r@[k]@ == lines(s@)[k],
{
    let mut r: Vec<Vec<char>> = Vec::new();
    let mut i: usize = 0;
    let ghost mut done: Seq<Seq<char>> = Seq::empty();
    while i < s.len()
        invariant
            i <= s@.len(),
            r@.len() == done.len(),
            forall|k: int| 0 <= k < r@.len() ==> #[trigger] r@[k]@ == done[k],
            done + lines_from(s@, i as int) == lines(s@),
        decreases s@.len() - i,
    {
        let mut e: usize = i;
        while e < s.len() && s[e] != '\n'
            invariant
                i <= e <= s@.len(),
                forall|k: int| i <= k < e ==> s@[k] != '\n',
            decreases s@.len() - e,
        {
            e += 1;
        }
        proof {
            lemma_line_end_step(s@, i as int, e as int);
        }
        assert(line_end(s@, i as int) == e);
        let end = if e < s.len() && e > i && s[e - 1] == '\r' {
            e - 1
        } else {
            e
        };
        let line = copy_range(s, i, end);
        proof {
            assert(lines_from(s@, i as int) == seq![line_at(s@, i as int)] + lines_from(
                s@,
                e + 1,
            ));
            assert(done.push(line@) + lines_from(s@, e + 1) =~= done + lines_from(s@, i as int));
            done = done.push(line@);
        }
        r.push(line);
        i = if e < s.len() {
            e + 1
        } else {
            e
        };
        proof {
            if e >= s@.len() {
                assert(lines_from(s@, e + 1) =~= Seq::<Seq<char>>::empty());
            }
        }
    }
    assert(done + lines_from(s@, i as int) =~= done);
    r
}

// ---------------------------------------------------------------------------
// Whitespace-separated words
/// End of the word that starts at `i`.
pub open spec fn word_end(s: Seq<char>, i: int) -> int
    decreases s.len() - i,
{
    if i < 0 || i >= s.len() || is_ws(s[i]) {
        i
    } else {
        word_end(s, i + 1)
    }
}

/// The words of `s` from index `i` on, as `str::split_whitespace` yields them.
pub open spec fn words_from(s: Seq<char>, i: int) -> Seq<Seq<char>>
    decreases s.len() - i,
    via words_from_decreases
{
    if i < 0 || i >= s.len() {
        Seq::empty()
    } else if is_ws(s[i]) {
        words_from(s, i + 1)
    } else {
        seq![s.subrange(i, word_end(s, i))] + words_from(s, word_end(s, i))
    }
}

#[via_fn]
proof fn words_from_decreases(s: Seq<char>, i: int) {
    if 0 <= i < s.len() && !is_ws(s[i]) {
        lemma_word_end_bounds(s, i);
    }
}

pub open spec fn words(s: Seq<char>) -> Seq<Seq<char>> {
    words_from(s, 0)
}

pub proof fn lemma_word_end_bounds(s: Seq<char>, i: int)
    requires
        0 <= i <= s.len(),
    ensures
        i <= word_end(s, i) <= s.len(),
        i < s.len() && !is_ws(s[i]) ==> i < word_end(s, i),
        word_end(s, i) < s.len() ==> is_ws(s[word_end(s, i)]),
        forall|k: int| i <= k < word_end(s, i) ==> !is_ws(s[k]),
    decreases s.len() - i,
{
    if i < s.len() && !is_ws(s[i]) {
        lemma_word_end_bounds(s, i + 1);
    }
}

proof fn lemma_word_end_step(s: Seq<char>, i: int, j: int)
    requires
        0 <= i <= j <= s.len(),
        forall|k: int| i <= k < j ==> !is_ws(s[k]),
    ensures
        word_end(s, i) == word_end(s, j),
    decreases j - i,
{
    if i < j {
        lemma_word_end_step(s, i + 1, j);
    }
}

/// Splits text into words as `str::split_whitespace` does.
pub fn split_words(s: &[char]) -> (r: Vec<Vec<char>>)
    ensures
        r@.len() == words(s@).len(),
        forall|k: int| 0 <= k < r@.len() ==> #[trigger] r@[k]@ == words(s@)[k],
{
    let mut r: Vec<Vec<char>> = Vec::new();
    let mut i: usize = 0;
    let ghost mut done: Seq<Seq<char>> = Seq::empty();
    while i < s.len()
        invariant
            i <= s@.len(),
            r@.len() == done.len(),
            forall|k: int| 0 <= k < r@.len() ==> #[trigger] r@[k]@ == done[k],
            done + words_from(s@, i as int) == words(s@),
        decreases s@.len() - i,
    {
        if is_whitespace(s[i]) {
            i += 1;
        } else {
            let mut e: usize = i;
            while e < s.len() && !is_whitespace(s[e])
                invariant
                    i <= e <= s@.len(),
                    forall|k: int| i <= k < e ==> !is_ws(s@[k]),
                decreases s@.len() - e,
            {
                e += 1;
            }
            proof {
                lemma_word_end_step(s@, i as int, e as int);
            }
            assert(word_end(s@, i as int) == e);
            let w = copy_range(s, i, e);
            proof {
                assert(done.push(w@) + words_from(s@, e as int) =~= done + words_from(
                    s@,
                    i as int,
                ));
                done = done.push(w@);
            }
            r.push(w);
            i = e;
        }
    }
    assert(done + words_from(s@, i as int) =~= done);
    r
}

// ---------------------------------------------------------------------------
// Trimming
pub open spec fn trim_start(s: Seq<char>) -> Seq<char>
    decreases s.len(),
{
    if s.len() > 0 && is_ws(s[0]) {
        trim_start(s.drop_first())
    } else {
        s
    }
}

pub open spec fn trim_end(s: Seq<char>) -> Seq<char>
    decreases s.len(),
{
    if s.len() > 0 && is_ws(s.last()) {
        trim_end(s.drop_last())
    } else {
        s
    }
}

/// `str::trim`.
pub open spec fn trim(s: Seq<char>) -> Seq<char> {
    trim_end(trim_start(s))
}

/// `s` with every NUL character taken out.
pub open spec fn strip_nul(s: Seq<char>) -> Seq<char>
    decreases s.len(),
{
    if s.len() == 0 {
        s
    } else if s.last() == '\0' {
        strip_nul(s.drop_last())
    } else {
        strip_nul(s.drop_last()).push(s.last())
    }
}

/// What every driver line goes through before it is read: its NUL characters are
/// dropped, then surrounding whitespace.
pub open spec fn clean_line(s: Seq<char>) -> Seq<char> {
    trim(strip_nul(s))
}

pub fn trim_chars(s: &[char]) -> (r: Vec<char>)
    ensures
        r@ == trim(s@),
{
    let mut a: usize = 0;
    assert(s@.subrange(0, s@.len() as int) =~= s@);
    while a < s.len() && is_whitespace(s[a])
        invariant
            a <= s@.len(),
            trim_start(s@) == trim_start(s@.subrange(a as int, s@.len() as int)),
        decreases s@.len() - a,
    {
        assert(s@.subrange(a as int, s@.len() as int).drop_first() =~= s@.subrange(
            a + 1,
            s@.len() as int,
        ));
        a += 1;
    }
    let ghost mid = s@.subrange(a as int, s@.len() as int);
    assert(trim_start(s@) == mid) by {
        assert(trim_start(mid) == mid);
    }
    let mut b: usize = s.len();
    while b > a && is_whitespace(s[b - 1])
        invariant
            a <= b <= s@.len(),
            mid == s@.subrange(a as int, s@.len() as int),
            trim_end(mid) == trim_end(s@.subrange(a as int, b as int)),
        decreases b,
    {
        assert(s@.subrange(a as int, b as int).drop_last() =~= s@.subrange(
            a as int,
            b - 1,
        ));
        b -= 1;
    }
    assert(trim_end(s@.subrange(a as int, b as int)) == s@.subrange(a as int, b as int));
    copy_range(s, a, b)
}

pub fn strip_nul_chars(s: &[char]) -> (r: Vec<char>)
    ensures
        r@ == strip_nul(s@),
{
    let mut r: Vec<char> = Vec::new();
    let mut i: usize = 0;
    while i < s.len()
        invariant
            i <= s@.len(),
            r@ == strip_nul(s@.subrange(0, i as int)),
        decreases s@.len() - i,
    {
        assert(s@.subrange(0, i + 1).drop_last() =~= s@.subrange(0, i as int));
        if s[i] != '\0' {
            r.push(s[i]);
        }
        i += 1;
    }
    assert(s@.subrange(0, s@.len() as int) =~= s@);
    r
}

/// Applies [`clean_line`] to a line.
pub fn clean(s: &[char]) -> (r: Vec<char>)
    ensures
        r@ == clean_line(s@),
{
    let stripped = strip_nul_chars(s);
    trim_chars(stripped.as_slice())
}

// ---------------------------------------------------------------------------
// Decimal numbers
/// Value of a run of decimal digits.
pub open spec fn digits_value(s: Seq<char>) -> int
    decreases s.len(),
{
    if s.len() == 0 {
        0
    } else {
        digits_value(s.drop_last()) * 10 + digit_value(s.last())
    }
}

pub open spec fn all_digits(s: Seq<char>) -> bool {
    s.len() > 0 && forall|k: int| 0 <= k < s.len() ==> is_digit(#[trigger] s[k])
}

/// The number that `s` writes with an optional sign, as integer `from_str` reads it
/// before any range check.
pub open spec fn signed_value(s: Seq<char>) -> Option<int> {
    if s.len() > 0 && s[0] == '-' && all_digits(s.drop_first()) {
        Some(-digits_value(s.drop_first()))
    } else if s.len() > 0 && s[0] == '+' && all_digits(s.drop_first()) {
        Some(digits_value(s.drop_first()))
    } else if all_digits(s) {
        Some(digits_value(s))
    } else {
        None
    }
}

/// The number that `s` writes without a minus sign, as unsigned `from_str` reads it.
pub open spec fn unsigned_value(s: Seq<char>) -> Option<int> {
    if s.len() > 0 && s[0] == '-' {
        None
    } else {
        signed_value(s)
    }
}

pub open spec fn value_in(v: Option<int>, lo: int, hi: int) -> Option<int> {
    match v {
        Some(x) => if lo <= x <= hi {
            Some(x)
        } else {
            None
        },
        None => None,
    }
}

proof fn lemma_digits_value_nonneg(s: Seq<char>)
    requires
        forall|k: int| 0 <= k < s.len() ==> is_digit(#[trigger] s[k]),
    ensures
        digits_value(s) >= 0,
    decreases s.len(),
{
    if s.len() > 0 {
        lemma_digits_value_nonneg(s.drop_last());
    }
}

proof fn lemma_digits_value_prefix(s: Seq<char>, n: int)
    requires
        0 <= n <= s.len(),
        forall|k: int| 0 <= k < s.len() ==> is_digit(#[trigger] s[k]),
    ensures
        digits_value(s.subrange(0, n)) <= digits_value(s),
    decreases s.len() - n,
{
    if n < s.len() {
        lemma_digits_value_prefix(s, n + 1);
        let p = s.subrange(0, n + 1);
        assert(p.drop_last() =~= s.subrange(0, n));
        lemma_digits_value_nonneg(s.subrange(0, n));
    } else {
        assert(s.subrange(0, n) =~= s);
    }
}

/// Reads `s[from..]` as a run of digits whose value fits in a `u64`.
fn digits_u64(s: &[char], from: usize) -> (r: Option<u64>)
    requires
        from <= s@.len(),
    ensures
        ({
            let t = s@.subrange(from as int, s@.len() as int);
            match r {
                Some(v) => all_digits(t) && v == digits_value(t),
                None => !all_digits(t) || digits_value(t) > u64::MAX,
            }
        }),
{
    let ghost t = s@.subrange(from as int, s@.len() as int);
    if from == s.len() {
        return None;
    }
    let mut acc: u64 = 0;
    let mut i: usize = from;
    while i < s.len()
        invariant
            from <= i <= s@.len(),
            t == s@.subrange(from as int, s@.len() as int),
            forall|k: int| from <= k < i ==> is_digit(#[trigger] s@[k]),
            acc == digits_value(s@.subrange(from as int, i as int)),
        decreases s@.len() - i,
    {
        let c = s[i];
        if !('0' <= c && c <= '9') {
            assert(!is_digit(t[i - from]));
            return None;
        }
        let d = (c as u32 - '0' as u32) as u64;
        assert(s@.subrange(from as int, i + 1).drop_last() =~= s@.subrange(from as int, i as int));
        match acc.checked_mul(10) {
            Some(m) => match m.checked_add(d) {
                Some(v) => {
                    acc = v;
                },
                None => {
                    proof {
                        assert(digits_value(s@.subrange(from as int, i + 1)) > u64::MAX);
                        if all_digits(t) {
                            assert(t.subrange(0, i + 1 - from) =~= s@.subrange(from as int, i + 1));
                            lemma_digits_value_prefix(t, i + 1 - from);
                        }
                    }
                    return None;
                },
            },
            None => {
                proof {
                    assert(digits_value(s@.subrange(from as int, i + 1)) > u64::MAX) by (nonlinear_arith)
                        requires
                            digits_value(s@.subrange(from as int, i + 1)) == acc * 10 + d,
                            acc * 10 > u64::MAX,
                            d >= 0,
                    ;
                    if all_digits(t) {
                        assert(t.subrange(0, i + 1 - from) =~= s@.subrange(from as int, i + 1));
                        lemma_digits_value_prefix(t, i + 1 - from);
                    }
                }
                return None;
            },
        }
        i += 1;
    }
    assert(s@.subrange(from as int, i as int) =~= t);
    Some(acc)
}

/// Integer `from_str` for an `i64` result within `[lo, hi]`.
fn parse_signed(s: &[char], lo: i64, hi: i64) -> (r: Option<i64>)
    requires
        lo <= 0 <= hi,
    ensures
        match r {
            Some(v) => value_in(signed_value(s@), lo as int, hi as int) == Some(v as int),
            None => value_in(signed_value(s@), lo as int, hi as int) is None,
        },
{
    if s.len() == 0 {
        return None;
    }
    let neg = s[0] == '-';
    let from: usize = if s[0] == '-' || s[0] == '+' {
        1
    } else {
        0
    };
    if from == 1 && s.len() == 1 {
        return None;
    }
    let ghost t = s@.subrange(from as int, s@.len() as int);
    proof {
        if from == 1 {
            assert(t =~= s@.drop_first());
        } else {
            assert(t =~= s@);
            if all_digits(s@) {
                assert(is_digit(s@[0]));
            }
        }
    }
    match digits_u64(s, from) {
        Some(m) => {
            if neg {
                if m as i128 > -(lo as i128) {
                    None
                } else {
                    Some(-(m as i128) as i64)
                }
            } else {
                if m as i128 > hi as i128 {
                    None
                } else {
                    Some(m as i64)
                }
            }
        },
        None => None,
    }
}

pub fn parse_i32(s: &[char]) -> (r: Option<i32>)
    ensures
        match r {
            Some(v) => value_in(signed_value(s@), i32::MIN as int, i32::MAX as int) == Some(
                v as int,
            ),
            None => value_in(signed_value(s@), i32::MIN as int, i32::MAX as int) is None,
        },
{
    match parse_signed(s, i32::MIN as i64, i32::MAX as i64) {
        Some(v) => Some(v as i32),
        None => None,
    }
}

/// Unsigned `from_str` for a result within `[0, hi]`.
pub fn parse_unsigned(s: &[char], hi: u64) -> (r: Option<u64>)
    ensures
        match r {
            Some(v) => value_in(unsigned_value(s@), 0, hi as int) == Some(v as int),
            None => value_in(unsigned_value(s@), 0, hi as int) is None,
        },
{
    if s.len() == 0 {
        return None;
    }
    if s[0] == '-' {
        return None;
    }
    let from: usize = if s[0] == '+' {
        1
    } else {
        0
    };
    if from == 1 && s.len() == 1 {
        return None;
    }
    let ghost t = s@.subrange(from as int, s@.len() as int);
    proof {
        if from == 1 {
            assert(t =~= s@.drop_first());
        } else {
            assert(t =~= s@);
            if all_digits(s@) {
                assert(is_digit(s@[0]));
            }
        }
    }
    match digits_u64(s, from) {
        Some(m) => {
            proof {
                lemma_digits_value_nonneg(t);
            }
            if m > hi {
                None
            } else {
                Some(m)
            }
        },
        None => None,
    }
}

/// Decimal digits of a natural number, most significant first.
pub open spec fn nat_text(n: nat) -> Seq<char>
    decreases n,
{
    if n < 10 {
        seq![digit_char(n as int)]
    } else {
        nat_text(n / 10).push(digit_char((n % 10) as int))
    }
}

/// An integer as `Display` writes it.
pub open spec fn int_text(i: int) -> Seq<char> {
    if i < 0 {
        seq!['-'] + nat_text((-i) as nat)
    } else {
        nat_text(i as nat)
    }
}

fn push_nat(out: &mut Vec<char>, n: u64)
    ensures
        final(out)@ == old(out)@ + nat_text(n as nat),
    decreases n,
{
    if n >= 10 {
        push_nat(out, n / 10);
    }
    let d = (n % 10) as u32;
    out.push(char_from_digit(d));
    proof {
        if n >= 10 {
            assert(old(out)@ + nat_text(n as nat) =~= old(out)@ + nat_text((n / 10) as nat) + seq![
                digit_char((n % 10) as int),
            ]);
        } else {
            assert(n % 10 == n);
        }
    }
}

fn char_from_digit(d: u32) -> (c: char)
    requires
        d < 10,
    ensures
        c == digit_char(d as int),
{
    let c: char = match d {
        0 => '0',
        1 => '1',
        2 => '2',
        3 => '3',
        4 => '4',
        5 => '5',
        6 => '6',
        7 => '7',
        8 => '8',
        _ => '9',
    };
    c
}

/// Appends the decimal form of `v`.
pub fn push_u64(out: &mut Vec<char>, v: u64)
    ensures
        final(out)@ == old(out)@ + int_text(v as int),
{
    push_nat(out, v);
}

/// Appends the decimal form of `v`.
pub fn push_int(out: &mut Vec<char>, v: i64)
    ensures
        final(out)@ == old(out)@ + int_text(v as int),
{
    if v < 0 {
        out.push('-');
        let m: u64 = if v == i64::MIN {
            (i64::MAX as u64) + 1
        } else {
            (-v) as u64
        };
        push_nat(out, m);
        assert(final(out)@ =~= old(out)@ + int_text(v as int));
    } else {
        push_nat(out, v as u64);
    }
}

/// Appends the characters of a literal.
pub fn push_str(out: &mut Vec<char>, lit: &str)
    ensures
        final(out)@ == old(out)@ + lit@,
{
    let n = lit.unicode_len();
    let mut i: usize = 0;
    let ghost start = out@;
    while i < n
        invariant
            n == lit@.len(),
            i <= n,
            out@ == start + lit@.subrange(0, i as int),
        decreases n - i,
    {
        out.push(lit.get_char(i));
        i += 1;
        assert(out@ =~= start + lit@.subrange(0, i as int));
    }
    assert(lit@.subrange(0, n as int) =~= lit@);
}

/// Appends the characters of `s`.
pub fn push_chars(out: &mut Vec<char>, s: &[char])
    ensures
        final(out)@ == old(out)@ + s@,
{
    let mut i: usize = 0;
    let ghost start = out@;
    while i < s.len()
        invariant
            i <= s@.len(),
            out@ == start + s@.subrange(0, i as int),
        decreases s@.len() - i,
    {
        out.push(s[i]);
        i += 1;
        assert(out@ =~= start + s@.subrange(0, i as int));
    }
    assert(s@.subrange(0, s@.len() as int) =~= s@);
}

/// Relies on `String::push`: the character is appended at the end.
#[verifier::external_body]
fn string_push(s: &mut String, c: char)
    ensures
        final(s)@ == old(s)@.push(c),
{
    s.push(c)
}

/// Builds a `String` holding exactly the characters of `s`.
pub fn to_string(s: &[char]) -> (r: String)
    ensures
        r@ == s@,
{
    let mut r = String::new();
    let mut i: usize = 0;
    while i < s.len()
        invariant
            i <= s@.len(),
            r@ == s@.subrange(0, i as int),
        decreases s@.len() - i,
    {
        string_push(&mut r, s[i]);
        i += 1;
        assert(r@ =~= s@.subrange(0, i as int));
    }
    assert(s@.subrange(0, s@.len() as int) =~= s@);
    r
}

/// Whether `pat` occurs in `s` at position `at`, ignoring ASCII letter case.
pub open spec fn occurs_at_ci(s: Seq<char>, pat: Seq<char>, at: int) -> bool {
    0 <= at && at + pat.len() <= s.len() && forall|j: int|
        0 <= j < pat.len() ==> same_letter(s[at + j], #[trigger] pat[j])
}

/// Whether `pat` occurs in `s` once ASCII letters are lowered (`pat` is lower case).
pub open spec fn contains_ci(s: Seq<char>, pat: Seq<char>) -> bool {
    exists|at: int| occurs_at_ci(s, pat, at)
}

/// Whether the characters of `lit` occur in `s`, ignoring ASCII letter case.
pub fn contains_ci_str(s: &[char], lit: &str) -> (r: bool)
    ensures
        r == contains_ci(s@, lit@),
{
    let pat = to_chars(lit);
    let n = pat.len();
    if n > s.len() {
        assert forall|at: int| !occurs_at_ci(s@, lit@, at) by {}
        return false;
    }
    let mut at: usize = 0;
    while at <= s.len() - n
        invariant
            pat@ == lit@,
            n == pat@.len(),
            n <= s@.len(),
            at <= s@.len() - n + 1,
            forall|a: int| 0 <= a < at ==> !occurs_at_ci(s@, lit@, a),
        decreases s@.len() - at,
    {
        let mut k: usize = 0;
        let mut same = true;
        while k < n
            invariant
                pat@ == lit@,
                n == pat@.len(),
                at + n <= s@.len(),
                s@.len() <= usize::MAX,
                k <= n,
                same == (forall|j: int| 0 <= j < k ==> same_letter(s@[at + j], #[trigger] pat@[j])),
            decreases n - k,
        {
            assert(at + k < s@.len());
            if !same_letter_exec(s[at + k], pat[k]) {
                same = false;
            }
            k += 1;
        }
        if same {
            assert(occurs_at_ci(s@, lit@, at as int));
            return true;
        }
        at += 1;
    }
    false
}

// ---------------------------------------------------------------------------
// Reading written text back
proof fn lemma_digit_char(d: int)
    requires
        0 <= d < 10,
    ensures
        is_digit(digit_char(d)),
        digit_value(digit_char(d)) == d,
{
}

/// The decimal digits of `n` read back as `n`.
pub proof fn lemma_nat_text(n: nat)
    ensures
        all_digits(nat_text(n)),
        digits_value(nat_text(n)) == n,
    decreases n,
{
    if n < 10 {
        let s = nat_text(n);
        assert(s.drop_last() =~= Seq::<char>::empty());
        lemma_digit_char(n as int);
        assert(digits_value(Seq::<char>::empty()) == 0);
    } else {
        lemma_nat_text(n / 10);
        let p = nat_text(n / 10);
        let s = p.push(digit_char((n % 10) as int));
        assert(s.drop_last() =~= p);
        lemma_digit_char((n % 10) as int);
        assert forall|k: int| 0 <= k < s.len() implies is_digit(#[trigger] s[k]) by {
            if k < p.len() {
                assert(s[k] == p[k]);
            }
        }
        assert(n == (n / 10) * 10 + n % 10);
    }
}

/// An integer written as text reads back as the same integer, and its text is one word.
pub proof fn lemma_int_text(x: int)
    ensures
        signed_value(int_text(x)) == Some(x),
        int_text(x).len() > 0,
        forall|k: int| 0 <= k < int_text(x).len() ==> !is_ws(#[trigger] int_text(x)[k]),
{
    if x < 0 {
        let n = (-x) as nat;
        lemma_nat_text(n);
        let s = int_text(x);
        assert(s.drop_first() =~= nat_text(n));
        assert forall|k: int| 0 <= k < s.len() implies !is_ws(#[trigger] s[k]) by {
            if k > 0 {
                assert(s[k] == nat_text(n)[k - 1]);
                assert(is_digit(nat_text(n)[k - 1]));
            }
        }
    } else {
        let n = x as nat;
        lemma_nat_text(n);
        let s = int_text(x);
        assert(is_digit(s[0]));
        assert forall|k: int| 0 <= k < s.len() implies !is_ws(#[trigger] s[k]) by {
            assert(is_digit(s[k]));
        }
    }
}

pub open spec fn is_word(a: Seq<char>) -> bool {
    a.len() > 0 && forall|k: int| 0 <= k < a.len() ==> !is_ws(#[trigger] a[k])
}

proof fn lemma_word_end_run(s: Seq<char>, i: int, j: int)
    requires
        0 <= i <= j <= s.len(),
        forall|k: int| i <= k < j ==> !is_ws(#[trigger] s[k]),
        j == s.len() || is_ws(s[j]),
    ensures
        word_end(s, i) == j,
{
    lemma_word_end_step(s, i, j);
}

proof fn lemma_word_end_shift(p: Seq<char>, b: Seq<char>, i: int)
    requires
        0 <= i <= b.len(),
    ensures
        word_end(p + b, p.len() + i) == p.len() + word_end(b, i),
    decreases b.len() - i,
{
    let s = p + b;
    if i < b.len() && !is_ws(b[i]) {
        assert(s[p.len() + i] == b[i]);
        lemma_word_end_shift(p, b, i + 1);
    } else if i < b.len() {
        assert(s[p.len() + i] == b[i]);
    }
}

proof fn lemma_words_shift(p: Seq<char>, b: Seq<char>, i: int)
    requires
        0 <= i <= b.len(),
    ensures
        words_from(p + b, p.len() + i) == words_from(b, i),
    decreases b.len() - i,
{
    let s = p + b;
    let j = p.len() + i;
    if i < b.len() {
        assert(s[j] == b[i]);
        if is_ws(b[i]) {
            lemma_words_shift(p, b, i + 1);
        } else {
            lemma_word_end_shift(p, b, i);
            lemma_word_end_bounds(b, i);
            let e = word_end(b, i);
            assert(s.subrange(j, p.len() + e) =~= b.subrange(i, e));
            lemma_words_shift(p, b, e);
        }
    }
}

/// A word followed by a space and more text splits into the word and the words of the rest.
pub proof fn lemma_words_leading(a: Seq<char>, rest: Seq<char>)
    requires
        is_word(a),
    ensures
        words(a + seq![' '] + rest) == seq![a] + words(rest),
{
    let p = a + seq![' '];
    let s = p + rest;
    assert(s[a.len() as int] == ' ');
    assert forall|k: int| 0 <= k < a.len() implies !is_ws(#[trigger] s[k]) by {
        assert(s[k] == a[k]);
    }
    lemma_word_end_run(s, 0, a.len() as int);
    assert(s.subrange(0, a.len() as int) =~= a);
    assert(s[0] == a[0]);
    assert(words_from(s, a.len() as int) == words_from(s, a.len() as int + 1));
    lemma_words_shift(p, rest, 0);
}

/// A single word splits into itself.
pub proof fn lemma_words_single(a: Seq<char>)
    requires
        is_word(a),
    ensures
        words(a) == seq![a],
{
    lemma_word_end_run(a, 0, a.len() as int);
    assert(a.subrange(0, a.len() as int) =~= a);
    assert(words_from(a, a.len() as int) =~= Seq::<Seq<char>>::empty());
    assert(seq![a] + Seq::<Seq<char>>::empty() =~= seq![a]);
}

} // verus!
