//! Line and word segmentation of byte buffers, and the number syntax that
//! the readers accept.
use vstd::prelude::*;

verus! {

/// The bytes that separate words on a line: space and tab.
pub open spec fn is_blank(b: u8) -> bool {
    b == 32u8 || b == 9u8
}

pub open spec fn is_digit(b: u8) -> bool {
    48u8 <= b && b <= 57u8
}

/// Index of the first newline at or after `i`, or the length of `data`.
pub open spec fn line_end(data: Seq<u8>, i: int) -> int
    decreases data.len() - i,
{
    if i >= data.len() {
        data.len() as int
    } else if data[i] == 10u8 {
        i
    } else {
        line_end(data, i + 1)
    }
}

/// A line without its trailing carriage return, if it has one.
pub open spec fn strip_cr(line: Seq<u8>) -> Seq<u8> {
    if line.len() > 0 && line.last() == 13u8 {
        line.drop_last()
    } else {
        line
    }
}

/// The line that starts at `i`.
pub open spec fn line_at(data: Seq<u8>, i: int) -> Seq<u8> {
    strip_cr(data.subrange(i, line_end(data, i)))
}

/// Where the line after the one at `i` starts.
pub open spec fn next_line_start(data: Seq<u8>, i: int) -> int {
    if line_end(data, i) < data.len() {
        line_end(data, i) + 1
    } else {
        data.len() as int
    }
}

pub proof fn lemma_line_end_bounds(data: Seq<u8>, i: int)
    requires
        0 <= i <= data.len(),
    ensures
        i <= line_end(data, i) <= data.len(),
    decreases data.len() - i,
{
    if i < data.len() && data[i] != 10u8 {
        lemma_line_end_bounds(data, i + 1);
    }
}

/// Finds the line that starts at `start`: the result is the end of its
/// content (newline and carriage return excluded) and the start of the next
/// line.
pub fn next_line(data: &[u8], start: usize) -> (r: (usize, usize))
    requires
        start < data@.len(),
    ensures
        start <= r.0 <= data@.len(),
        data@.subrange(start as int, r.0 as int) == line_at(data@, start as int),
        r.1 == next_line_start(data@, start as int),
        start < r.1 <= data@.len(),
        r.0 <= r.1,
{
    let mut j: usize = start;
    while j < data.len() && data[j] != 10u8
        invariant
            start <= j <= data@.len(),
            line_end(data@, start as int) == line_end(data@, j as int),
        decreases data@.len() - j,
    {
        j = j + 1;
    }
    proof {
        lemma_line_end_bounds(data@, j as int);
    }
    let next = if j < data.len() {
        j + 1
    } else {
        j
    };
    let mut e = j;
    if e > start && data[e - 1] == 13u8 {
        e = e - 1;
    }
    assert(data@.subrange(start as int, e as int) =~= line_at(data@, start as int));
    (e, next)
}

/// The words of `s[i..]`, where `cur` is the part of a word already seen.
pub open spec fn words_acc(s: Seq<u8>, i: int, cur: Seq<u8>) -> Seq<Seq<u8>>
    decreases s.len() - i,
{
    if i >= s.len() {
        if cur.len() > 0 {
            seq![cur]
        } else {
            seq![]
        }
    } else if is_blank(s[i]) {
        (if cur.len() > 0 {
            seq![cur]
        } else {
            seq![]
        }) + words_acc(s, i + 1, seq![])
    } else {
        words_acc(s, i + 1, cur.push(s[i]))
    }
}

/// The non-empty runs of non-blank bytes of a line, in order.
pub open spec fn words(s: Seq<u8>) -> Seq<Seq<u8>> {
    words_acc(s, 0, seq![])
}

/// The contents of a sequence of byte vectors.
pub open spec fn bytes_seq(v: Seq<Vec<u8>>) -> Seq<Seq<u8>> {
    v.map_values(|w: Vec<u8>| w@)
}

proof fn lemma_bytes_seq_push(v: Seq<Vec<u8>>, w: Vec<u8>)
    ensures
        bytes_seq(v.push(w)) == bytes_seq(v).push(w@),
{
    assert(bytes_seq(v.push(w)) =~= bytes_seq(v).push(w@));
}

/// Splits a line into its words: the runs of bytes between spaces and tabs,
/// empty runs left out.
pub fn split_words(s: &[u8]) -> (r: Vec<Vec<u8>>)
    ensures
        bytes_seq(r@) == words(s@),
{
    let mut out: Vec<Vec<u8>> = Vec::new();
    let mut cur: Vec<u8> = Vec::new();
    let mut i: usize = 0;
    proof {
        assert(bytes_seq(out@) =~= Seq::<Seq<u8>>::empty());
    }
    while i < s.len()
        invariant
            i <= s@.len(),
            words(s@) == bytes_seq(out@) + words_acc(s@, i as int, cur@),
        decreases s@.len() - i,
    {
        let b = s[i];
        if b == 32u8 || b == 9u8 {
            if cur.len() > 0 {
                proof {
                    lemma_bytes_seq_push(out@, cur);
                    assert(bytes_seq(out@) + words_acc(s@, i as int, cur@) =~= bytes_seq(
                        out@.push(cur),
                    ) + words_acc(s@, i + 1, seq![]));
                }
                out.push(cur);
            } else {
                assert(words_acc(s@, i as int, cur@) =~= words_acc(s@, i + 1, seq![]));
            }
            cur = Vec::new();
            assert(cur@ =~= seq![]);
        } else {
            cur.push(b);
        }
        i = i + 1;
    }
    if cur.len() > 0 {
        proof {
            lemma_bytes_seq_push(out@, cur);
            assert(bytes_seq(out@) + words_acc(s@, i as int, cur@) =~= bytes_seq(out@.push(cur)));
        }
        out.push(cur);
    } else {
        assert(bytes_seq(out@) + words_acc(s@, i as int, cur@) =~= bytes_seq(out@));
    }
    out
}

/// Whether `s` begins with `prefix`.
pub open spec fn has_prefix(s: Seq<u8>, prefix: Seq<u8>) -> bool {
    prefix.len() <= s.len() && s.subrange(0, prefix.len() as int) == prefix
}

pub fn starts_with(s: &[u8], prefix: &[u8]) -> (r: bool)
    ensures
        r == has_prefix(s@, prefix@),
{
    if prefix.len() > s.len() {
        return false;
    }
    let mut i: usize = 0;
    while i < prefix.len()
        invariant
            i <= prefix@.len() <= s@.len(),
            forall|j: int| 0 <= j < i ==> s@[j] == prefix@[j],
        decreases prefix@.len() - i,
    {
        if s[i] != prefix[i] {
            assert(s@.subrange(0, prefix@.len() as int)[i as int] != prefix@[i as int]);
            return false;
        }
        i = i + 1;
    }
    assert(s@.subrange(0, prefix@.len() as int) =~= prefix@);
    true
}

pub fn bytes_eq(a: &[u8], b: &[u8]) -> (r: bool)
    ensures
        r == (a@ == b@),
{
    if a.len() != b.len() {
        return false;
    }
    let r = starts_with(a, b);
    assert(a@ =~= a@.subrange(0, b@.len() as int));
    r
}

/// Copies `s[lo..hi]` into a new vector.
pub fn copy_range(s: &[u8], lo: usize, hi: usize) -> (r: Vec<u8>)
    requires
        lo <= hi <= s@.len(),
    ensures
        r@ == s@.subrange(lo as int, hi as int),
{
    let mut r: Vec<u8> = Vec::new();
    let mut i: usize = lo;
    while i < hi
        invariant
            lo <= i <= hi <= s@.len(),
            r@ == s@.subrange(lo as int, i as int),
        decreases hi - i,
    {
        r.push(s[i]);
        assert(r@ =~= s@.subrange(lo as int, i + 1));
        i = i + 1;
    }
    r
}

/// Index of the first `delim` in `s`, or the length of `s`.
pub open spec fn delim_index(s: Seq<u8>, delim: u8, i: int) -> int
    decreases s.len() - i,
{
    if i >= s.len() {
        s.len() as int
    } else if s[i] == delim {
        i
    } else {
        delim_index(s, delim, i + 1)
    }
}

/// The part of `s` before its first `delim`.
pub open spec fn until(s: Seq<u8>, delim: u8) -> Seq<u8> {
    s.subrange(0, delim_index(s, delim, 0))
}

/// The length of the part of `s` before its first `delim`.
pub fn until_byte(s: &[u8], delim: u8) -> (r: usize)
    ensures
        r == until(s@, delim).len(),
        r <= s@.len(),
        s@.subrange(0, r as int) == until(s@, delim),
        r < s@.len() ==> s@[r as int] == delim,
{
    let mut i: usize = 0;
    while i < s.len() && s[i] != delim
        invariant
            i <= s@.len(),
            delim_index(s@, delim, 0) == delim_index(s@, delim, i as int),
        decreases s@.len() - i,
    {
        i = i + 1;
    }
    i
}

pub open spec fn all_ascii(s: Seq<u8>) -> bool {
    forall|i: int| 0 <= i < s.len() ==> s[i] < 128u8
}

pub fn is_ascii(s: &[u8]) -> (r: bool)
    ensures
        r == all_ascii(s@),
{
    let mut i: usize = 0;
    while i < s.len()
        invariant
            i <= s@.len(),
            forall|j: int| 0 <= j < i ==> s@[j] < 128u8,
        decreases s@.len() - i,
    {
        if s[i] >= 128u8 {
            return false;
        }
        i = i + 1;
    }
    true
}

/// The value of a string of decimal digits.
pub open spec fn digits_value(s: Seq<u8>) -> nat
    decreases s.len(),
{
    if s.len() == 0 {
        0
    } else {
        digits_value(s.drop_last()) * 10 + (s.last() - 48u8) as nat
    }
}

pub open spec fn all_digits(s: Seq<u8>) -> bool {
    forall|i: int| 0 <= i < s.len() ==> is_digit(#[trigger] s[i])
}

/// The digits of an unsigned number: the text without a leading `+`.
pub open spec fn unsigned_digits(s: Seq<u8>) -> Seq<u8> {
    if s.len() > 0 && s[0] == 43u8 {
        s.drop_first()
    } else {
        s
    }
}

/// The unsigned integer that `s` writes, if it writes one that fits in
/// `usize`: an optional `+` and at least one decimal digit.
pub open spec fn usize_of(s: Seq<u8>) -> Option<nat> {
    let d = unsigned_digits(s);
    if d.len() > 0 && all_digits(d) && digits_value(d) <= usize::MAX {
        Some(digits_value(d))
    } else {
        None
    }
}

proof fn lemma_digits_value_prefix(s: Seq<u8>, i: int)
    requires
        0 <= i <= s.len(),
        all_digits(s),
    ensures
        digits_value(s.subrange(0, i)) <= digits_value(s),
    decreases s.len() - i,
{
    if i < s.len() {
        lemma_digits_value_prefix(s, i + 1);
        assert(s.subrange(0, i + 1).drop_last() =~= s.subrange(0, i));
        assert(is_digit(s[i]));
    } else {
        assert(s.subrange(0, i) =~= s);
    }
}

/// Parses an unsigned integer token; `None` where it is malformed or too
/// large.
pub fn parse_usize(s: &[u8]) -> (r: Option<usize>)
    ensures
        r matches Some(v) ==> usize_of(s@) == Some(v as nat),
        r is None ==> usize_of(s@) is None,
{
    let start: usize = if s.len() > 0 && s[0] == 43u8 {
        1
    } else {
        0
    };
    let ghost d = unsigned_digits(s@);
    assert(d =~= s@.subrange(start as int, s@.len() as int));
    if start >= s.len() {
        assert(d.len() == 0);
        return None;
    }
    let mut v: usize = 0;
    let mut i: usize = start;
    while i < s.len()
        invariant
            start <= i <= s@.len(),
            d == s@.subrange(start as int, s@.len() as int),
            d == unsigned_digits(s@),
            forall|j: int| 0 <= j < i - start ==> is_digit(#[trigger] d[j]),
            v as nat == digits_value(d.subrange(0, i - start)),
        decreases s@.len() - i,
    {
        let b = s[i];
        if b < 48u8 || b > 57u8 {
            assert(d[i - start] == s@[i as int]);
            assert(!is_digit(d[i - start]));
            assert(!all_digits(d));
            return None;
        }
        assert(d.subrange(0, i - start + 1).drop_last() =~= d.subrange(0, i - start));
        let next = match v.checked_mul(10) {
            Some(t) => t.checked_add((b - 48u8) as usize),
            None => None,
        };
        match next {
            Some(t) => {
                proof {
                    let p = d.subrange(0, i - start + 1);
                    assert(p.last() == b);
                }
                v = t;
            },
            None => {
                proof {
                    let p = d.subrange(0, i - start + 1);
                    assert(p.last() == b);
                    assert(digits_value(p) == v * 10 + (b - 48u8) as nat);
                    if all_digits(d) {
                        lemma_digits_value_prefix(d, i - start + 1);
                    }
                }
                return None;
            },
        }
        i = i + 1;
    }
    assert(d.subrange(0, d.len() as int) =~= d);
    assert(all_digits(d));
    Some(v)
}

/// Index of the first byte at or after `i` that is not a decimal digit.
pub open spec fn digit_run(s: Seq<u8>, i: int) -> int
    decreases s.len() - i,
{
    if i >= s.len() {
        s.len() as int
    } else if !is_digit(s[i]) {
        i
    } else {
        digit_run(s, i + 1)
    }
}

fn skip_digits(s: &[u8], i: usize) -> (r: usize)
    requires
        i <= s@.len(),
    ensures
        r == digit_run(s@, i as int),
        i <= r <= s@.len(),
{
    let mut j: usize = i;
    while j < s.len() && s[j] >= 48u8 && s[j] <= 57u8
        invariant
            i <= j <= s@.len(),
            digit_run(s@, i as int) == digit_run(s@, j as int),
        decreases s@.len() - j,
    {
        j = j + 1;
    }
    j
}

pub open spec fn is_sign(b: u8) -> bool {
    b == 43u8 || b == 45u8
}

/// `s[i..]` is an exponent: `e` or `E`, an optional sign, and at least one
/// digit.
pub open spec fn is_exponent(s: Seq<u8>, i: int) -> bool {
    let j = if i + 1 < s.len() && is_sign(s[i + 1]) {
        i + 2
    } else {
        i + 1
    };
    &&& i < s.len()
    &&& (s[i] == 101u8 || s[i] == 69u8)
    &&& digit_run(s, j) > j
    &&& digit_run(s, j) == s.len()
}

/// `s[i..]` is a decimal number: digits with an optional fraction, at least
/// one digit in all, and an optional exponent.
pub open spec fn is_decimal(s: Seq<u8>, i: int) -> bool {
    let a = digit_run(s, i);
    if a < s.len() && s[a] == 46u8 {
        let b = digit_run(s, a + 1);
        (a - i) + (b - a - 1) > 0 && (b == s.len() || is_exponent(s, b))
    } else {
        a > i && (a == s.len() || is_exponent(s, a))
    }
}

pub open spec fn to_lower(b: u8) -> u8 {
    if 65u8 <= b && b <= 90u8 {
        (b + 32) as u8
    } else {
        b
    }
}

/// `s[i..]` spells `word` (lower case), ignoring case.
pub open spec fn spells(s: Seq<u8>, i: int, word: Seq<u8>) -> bool {
    &&& s.len() - i == word.len()
    &&& forall|k: int| 0 <= k < word.len() ==> to_lower(#[trigger] s[i + k]) == word[k]
}

/// `s` is a floating-point number in the syntax of Rust's `f64::from_str`:
/// an optional sign, then `inf`, `infinity` or `nan` in any case, or a
/// decimal number.
pub open spec fn is_float_text(s: Seq<u8>) -> bool {
    let i = if s.len() > 0 && is_sign(s[0]) {
        1int
    } else {
        0int
    };
    spells(s, i, seq![105u8, 110u8, 102u8]) || spells(
        s,
        i,
        seq![105u8, 110u8, 102u8, 105u8, 110u8, 105u8, 116u8, 121u8],
    ) || spells(s, i, seq![110u8, 97u8, 110u8]) || is_decimal(s, i)
}

fn spells_word(s: &[u8], i: usize, word: &[u8]) -> (r: bool)
    requires
        i <= s@.len(),
    ensures
        r == spells(s@, i as int, word@),
{
    if s.len() - i != word.len() {
        return false;
    }
    let mut k: usize = 0;
    while k < word.len()
        invariant
            i <= s@.len(),
            s@.len() - i == word@.len(),
            i + word@.len() == s.len(),
            k <= word@.len(),
            forall|m: int| 0 <= m < k ==> to_lower(#[trigger] s@[i + m]) == word@[m],
        decreases word@.len() - k,
    {
        let b = s[i + k];
        let l = if 65u8 <= b && b <= 90u8 {
            b + 32
        } else {
            b
        };
        if l != word[k] {
            assert(to_lower(s@[i + k]) != word@[k as int]);
            return false;
        }
        k = k + 1;
    }
    true
}

fn exponent_at(s: &[u8], i: usize) -> (r: bool)
    requires
        i <= s@.len(),
    ensures
        r == is_exponent(s@, i as int),
{
    if i >= s.len() || !(s[i] == 101u8 || s[i] == 69u8) {
        return false;
    }
    let j: usize = if i + 1 < s.len() && (s[i + 1] == 43u8 || s[i + 1] == 45u8) {
        i + 2
    } else {
        i + 1
    };
    let e = skip_digits(s, j);
    e > j && e == s.len()
}

/// Whether a token is a floating-point number that Rust's `f64::from_str`
/// accepts.
pub fn float_token(s: &[u8]) -> (r: bool)
    ensures
        r == is_float_text(s@),
{
    let i: usize = if s.len() > 0 && (s[0] == 43u8 || s[0] == 45u8) {
        1
    } else {
        0
    };
    let inf: [u8; 3] = [105u8, 110u8, 102u8];
    let infinity: [u8; 8] = [105u8, 110u8, 102u8, 105u8, 110u8, 105u8, 116u8, 121u8];
    let nan: [u8; 3] = [110u8, 97u8, 110u8];
    assert(inf@ =~= seq![105u8, 110u8, 102u8]);
    assert(infinity@ =~= seq![105u8, 110u8, 102u8, 105u8, 110u8, 105u8, 116u8, 121u8]);
    assert(nan@ =~= seq![110u8, 97u8, 110u8]);
    if spells_word(s, i, inf.as_slice()) || spells_word(s, i, infinity.as_slice()) || spells_word(
        s,
        i,
        nan.as_slice(),
    ) {
        return true;
    }
    let a = skip_digits(s, i);
    if a < s.len() && s[a] == 46u8 {
        let b = skip_digits(s, a + 1);
        (a > i || b > a + 1) && (b == s.len() || exponent_at(s, b))
    } else {
        a > i && (a == s.len() || exponent_at(s, a))
    }
}

/// Each line starts after the previous one.
pub proof fn lemma_next_line_advances(data: Seq<u8>, i: int)
    requires
        0 <= i < data.len(),
    ensures
        i < next_line_start(data, i) <= data.len(),
{
    lemma_line_end_bounds(data, i);
}

} // verus!
