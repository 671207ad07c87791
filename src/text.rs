//! Character-level helpers shared by the parsers: searching, splitting,
//! trimming and decimal port numbers, each with its specification.
use vstd::prelude::*;
use vstd::slice::slice_subrange;

verus! {

/// Relies on `str::chars`, collected into a vector: the characters of `s`, in order.
#[verifier::external_body]
pub(crate) fn chars_of(s: &str) -> (r: Vec<char>)
    ensures
        r@ == s@,
{
    s.chars().collect()
}

/// Relies on `FromIterator<&char>` for `String`: the text made of the given characters.
#[verifier::external_body]
fn string_from_chars(c: &[char]) -> (r: String)
    ensures
        r@ == c@,
{
    c.iter().collect()
}

/// The text made of the characters `v[lo..hi]`.
pub fn text_between(v: &Vec<char>, lo: usize, hi: usize) -> (r: String)
    requires
        lo <= hi <= v@.len(),
    ensures
        r@ == v@.subrange(lo as int, hi as int),
{
    string_from_chars(slice_subrange(v.as_slice(), lo, hi))
}

pub open spec fn is_ascii_digit(c: char) -> bool {
    '0' <= c && c <= '9'
}

pub open spec fn all_digits(s: Seq<char>) -> bool {
    forall|i: int| 0 <= i < s.len() ==> is_ascii_digit(#[trigger] s[i])
}

/// The number written by a run of decimal digits.
pub open spec fn digits_value(s: Seq<char>) -> nat
    decreases s.len(),
{
    if s.len() == 0 {
        0
    } else {
        digits_value(s.drop_last()) * 10 + (s.last() as nat - '0' as nat) as nat
    }
}

/// What `u16`'s `FromStr` gives for `s`: an optional `+`, then one or more decimal
/// digits whose value fits in 16 bits.
pub open spec fn u16_value(s: Seq<char>) -> Option<u16> {
    let d = if s.len() > 0 && s[0] == '+' {
        s.drop_first()
    } else {
        s
    };
    if d.len() > 0 && all_digits(d) && digits_value(d) <= 65535 {
        Some(digits_value(d) as u16)
    } else {
        None
    }
}

proof fn lemma_digits_value_grows(s: Seq<char>, i: int, j: int)
    requires
        0 <= i <= j <= s.len(),
        all_digits(s),
    ensures
        digits_value(s.subrange(0, i)) <= digits_value(s.subrange(0, j)),
    decreases j - i,
{
    if i < j {
        lemma_digits_value_grows(s, i, j - 1);
        assert(s.subrange(0, j).drop_last() =~= s.subrange(0, j - 1));
    }
}

/// Reads `v[lo..hi]` as a port number, as `u16`'s `FromStr` does.
pub fn parse_u16_in(v: &Vec<char>, lo: usize, hi: usize) -> (r: Option<u16>)
    requires
        lo <= hi <= v@.len(),
    ensures
        r == u16_value(v@.subrange(lo as int, hi as int)),
{
    let ghost s = v@.subrange(lo as int, hi as int);
    let mut start: usize = lo;
    if lo < hi && v[lo] == '+' {
        start = lo + 1;
    }
    let ghost d = v@.subrange(start as int, hi as int);
    assert(d =~= (if s.len() > 0 && s[0] == '+' { s.drop_first() } else { s }));
    if start >= hi {
        return None;
    }
    let mut acc: u32 = 0;
    let mut i: usize = start;
    while i < hi
        invariant
            lo <= start <= i <= hi <= v@.len(),
            d == v@.subrange(start as int, hi as int),
            s == v@.subrange(lo as int, hi as int),
            d == (if s.len() > 0 && s[0] == '+' { s.drop_first() } else { s }),
            acc as nat == digits_value(d.subrange(0, i - start)),
            acc <= 65535,
            all_digits(d.subrange(0, i - start)),
        decreases hi - i,
    {
        let c = v[i];
        if !('0' <= c && c <= '9') {
            assert(d[i - start] == c);
            assert(!is_ascii_digit(d[(i - start) as int]));
            assert(!all_digits(d));
            return None;
        }
        let ghost k = (i - start) as int;
        assert(d.subrange(0, k + 1).drop_last() =~= d.subrange(0, k));
        assert(d.subrange(0, k + 1).last() == c);
        acc = acc * 10 + (c as u32 - '0' as u32);
        assert(acc as nat == digits_value(d.subrange(0, k + 1)));
        assert(all_digits(d.subrange(0, k + 1))) by {
            assert forall|j: int| 0 <= j < k + 1 implies is_ascii_digit(
                #[trigger] d.subrange(0, k + 1)[j],
            ) by {
                if j < k {
                    assert(d.subrange(0, k + 1)[j] == d.subrange(0, k)[j]);
                }
            }
        }
        if acc > 65535 {
            proof {
                if all_digits(d) {
                    lemma_digits_value_grows(d, k + 1, d.len() as int);
                    assert(d.subrange(0, d.len() as int) =~= d);
                }
                assert(!(d.len() > 0 && all_digits(d) && digits_value(d) <= 65535));
            }
            return None;
        }
        i = i + 1;
    }
    assert(d.subrange(0, i - start) =~= d);
    Some(acc as u16)
}

/// The first position at or after `from`, and before `hi`, that holds `c`; `hi` when none does.
pub open spec fn find_in(s: Seq<char>, from: int, hi: int, c: char) -> int
    decreases hi - from,
{
    if from >= hi {
        hi
    } else if s[from] == c {
        from
    } else {
        find_in(s, from + 1, hi, c)
    }
}

/// The last position at or after `lo`, and before `hi`, that holds `c`; `-1` when none does.
pub open spec fn rfind_in(s: Seq<char>, lo: int, hi: int, c: char) -> int
    decreases hi - lo,
{
    if hi <= lo {
        -1
    } else if s[hi - 1] == c {
        hi - 1
    } else {
        rfind_in(s, lo, hi - 1, c)
    }
}

/// The first position at or after `from`, and before `hi`, that holds no decimal digit.
pub open spec fn digits_end(s: Seq<char>, from: int, hi: int) -> int
    decreases hi - from,
{
    if from >= hi {
        hi
    } else if !is_ascii_digit(s[from]) {
        from
    } else {
        digits_end(s, from + 1, hi)
    }
}

pub fn find_char(v: &Vec<char>, from: usize, hi: usize, c: char) -> (r: usize)
    requires
        from <= hi <= v@.len(),
    ensures
        r == find_in(v@, from as int, hi as int, c),
        from <= r <= hi,
        r < hi ==> v@[r as int] == c,
        forall|k: int| from <= k < r ==> v@[k] != c,
{
    let mut i: usize = from;
    while i < hi
        invariant
            from <= i <= hi <= v@.len(),
            find_in(v@, from as int, hi as int, c) == find_in(v@, i as int, hi as int, c),
            forall|k: int| from <= k < i ==> v@[k] != c,
        decreases hi - i,
    {
        if v[i] == c {
            return i;
        }
        i = i + 1;
    }
    i
}

pub fn rfind_char(v: &Vec<char>, lo: usize, hi: usize, c: char) -> (r: Option<usize>)
    requires
        lo <= hi <= v@.len(),
    ensures
        match r {
            Some(j) => j == rfind_in(v@, lo as int, hi as int, c) && lo <= j < hi && v@[j as int]
                == c,
            None => rfind_in(v@, lo as int, hi as int, c) == -1,
        },
{
    let mut i: usize = hi;
    while i > lo
        invariant
            lo <= i <= hi <= v@.len(),
            rfind_in(v@, lo as int, hi as int, c) == rfind_in(v@, lo as int, i as int, c),
        decreases i - lo,
    {
        if v[i - 1] == c {
            return Some(i - 1);
        }
        i = i - 1;
    }
    None
}

pub fn digits_end_at(v: &Vec<char>, from: usize, hi: usize) -> (r: usize)
    requires
        from <= hi <= v@.len(),
    ensures
        r == digits_end(v@, from as int, hi as int),
        from <= r <= hi,
{
    let mut i: usize = from;
    while i < hi
        invariant
            from <= i <= hi <= v@.len(),
            digits_end(v@, from as int, hi as int) == digits_end(v@, i as int, hi as int),
        decreases hi - i,
    {
        let c = v[i];
        if !('0' <= c && c <= '9') {
            return i;
        }
        i = i + 1;
    }
    i
}

/// The pieces of `s[lo..hi]` between occurrences of `sep`, as `str::split` gives them.
pub open spec fn split_in(s: Seq<char>, lo: int, hi: int, sep: char) -> Seq<Seq<char>>
    decreases hi - lo,
{
    let j = find_in(s, lo, hi, sep);
    if lo <= j < hi {
        seq![s.subrange(lo, j)] + split_in(s, j + 1, hi, sep)
    } else {
        seq![s.subrange(lo, hi)]
    }
}

pub open spec fn texts(v: Seq<String>) -> Seq<Seq<char>> {
    v.map_values(|x: String| x@)
}

/// Splits `v[lo..hi]` at each `sep`.
pub fn split_text(v: &Vec<char>, lo: usize, hi: usize, sep: char) -> (r: Vec<String>)
    requires
        lo <= hi <= v@.len(),
    ensures
        texts(r@) == split_in(v@, lo as int, hi as int, sep),
{
    let mut out: Vec<String> = Vec::new();
    let mut start: usize = lo;
    loop
        invariant
            lo <= start <= hi <= v@.len(),
            texts(out@) + split_in(v@, start as int, hi as int, sep) == split_in(
                v@,
                lo as int,
                hi as int,
                sep,
            ),
        decreases hi - start,
    {
        let j = find_char(v, start, hi, sep);
        let piece = text_between(v, start, j);
        let ghost before = out@;
        out.push(piece);
        assert(texts(out@) =~= texts(before).push(piece@));
        if j < hi {
            assert(texts(before) + split_in(v@, start as int, hi as int, sep) =~= texts(out@)
                + split_in(v@, j + 1, hi as int, sep));
            start = j + 1;
        } else {
            assert(texts(before) + split_in(v@, start as int, hi as int, sep) =~= texts(out@));
            return out;
        }
    }
}

/// The characters that `char::is_whitespace` accepts (Unicode White_Space).
pub open spec fn is_space(c: char) -> bool {
    let u = c as u32;
    (9 <= u <= 13) || u == 32 || u == 0x85 || u == 0xA0 || u == 0x1680 || (0x2000 <= u <= 0x200A)
        || u == 0x2028 || u == 0x2029 || u == 0x202F || u == 0x205F || u == 0x3000
}

pub fn is_space_char(c: char) -> (r: bool)
    ensures
        r == is_space(c),
{
    let u = c as u32;
    (9 <= u && u <= 13) || u == 32 || u == 0x85 || u == 0xA0 || u == 0x1680 || (0x2000 <= u && u
        <= 0x200A) || u == 0x2028 || u == 0x2029 || u == 0x202F || u == 0x205F || u == 0x3000
}

/// The first position at or after `lo`, and before `hi`, that holds no white space.
pub open spec fn skip_spaces(s: Seq<char>, lo: int, hi: int) -> int
    decreases hi - lo,
{
    if lo >= hi {
        hi
    } else if is_space(s[lo]) {
        skip_spaces(s, lo + 1, hi)
    } else {
        lo
    }
}

/// The first position at or after `lo`, and before `hi`, that holds white space.
pub open spec fn word_end(s: Seq<char>, lo: int, hi: int) -> int
    decreases hi - lo,
{
    if lo >= hi {
        hi
    } else if is_space(s[lo]) {
        lo
    } else {
        word_end(s, lo + 1, hi)
    }
}

/// The end of `s[lo..hi]` once trailing white space is cut.
pub open spec fn trim_end_in(s: Seq<char>, lo: int, hi: int) -> int
    decreases hi - lo,
{
    if hi <= lo {
        lo
    } else if is_space(s[hi - 1]) {
        trim_end_in(s, lo, hi - 1)
    } else {
        hi
    }
}

/// `s` without leading and trailing white space, as `str::trim` gives it.
pub open spec fn trimmed(s: Seq<char>) -> Seq<char> {
    let a = skip_spaces(s, 0, s.len() as int);
    s.subrange(a, trim_end_in(s, a, s.len() as int))
}

pub fn skip_spaces_at(v: &Vec<char>, lo: usize, hi: usize) -> (r: usize)
    requires
        lo <= hi <= v@.len(),
    ensures
        r == skip_spaces(v@, lo as int, hi as int),
        lo <= r <= hi,
{
    let mut i: usize = lo;
    while i < hi
        invariant
            lo <= i <= hi <= v@.len(),
            skip_spaces(v@, lo as int, hi as int) == skip_spaces(v@, i as int, hi as int),
        decreases hi - i,
    {
        if !is_space_char(v[i]) {
            return i;
        }
        i = i + 1;
    }
    i
}

pub fn word_end_at(v: &Vec<char>, lo: usize, hi: usize) -> (r: usize)
    requires
        lo <= hi <= v@.len(),
    ensures
        r == word_end(v@, lo as int, hi as int),
        lo <= r <= hi,
{
    let mut i: usize = lo;
    while i < hi
        invariant
            lo <= i <= hi <= v@.len(),
            word_end(v@, lo as int, hi as int) == word_end(v@, i as int, hi as int),
        decreases hi - i,
    {
        if is_space_char(v[i]) {
            return i;
        }
        i = i + 1;
    }
    i
}

pub fn trim_end_at(v: &Vec<char>, lo: usize, hi: usize) -> (r: usize)
    requires
        lo <= hi <= v@.len(),
    ensures
        r == trim_end_in(v@, lo as int, hi as int),
        lo <= r <= hi,
{
    let mut i: usize = hi;
    while i > lo
        invariant
            lo <= i <= hi <= v@.len(),
            trim_end_in(v@, lo as int, hi as int) == trim_end_in(v@, lo as int, i as int),
        decreases i - lo,
    {
        if !is_space_char(v[i - 1]) {
            return i;
        }
        i = i - 1;
    }
    i
}

/// `s` without leading and trailing white space.
pub fn trim_text(s: &str) -> (r: String)
    ensures
        r@ == trimmed(s@),
{
    let v = chars_of(s);
    let a = skip_spaces_at(&v, 0, v.len());
    let b = trim_end_at(&v, a, v.len());
    text_between(&v, a, b)
}

pub open spec fn has_prefix(s: Seq<char>, p: Seq<char>) -> bool {
    p.len() <= s.len() && s.subrange(0, p.len() as int) == p
}

pub open spec fn has_suffix(s: Seq<char>, p: Seq<char>) -> bool {
    p.len() <= s.len() && s.subrange(s.len() - p.len(), s.len() as int) == p
}

pub open spec fn occurs_at(s: Seq<char>, i: int, p: Seq<char>) -> bool {
    0 <= i && i + p.len() <= s.len() && s.subrange(i, i + p.len()) == p
}

pub open spec fn has_infix(s: Seq<char>, p: Seq<char>) -> bool {
    exists|i: int| occurs_at(s, i, p)
}

/// Whether `p` occurs in `v` at position `i`.
pub fn occurs_at_exec(v: &Vec<char>, i: usize, p: &Vec<char>) -> (r: bool)
    ensures
        r == occurs_at(v@, i as int, p@),
{
    if i > v.len() || p.len() > v.len() - i {
        return false;
    }
    let mut k: usize = 0;
    while k < p.len()
        invariant
            i + p@.len() <= v@.len(),
            k <= p@.len(),
            i <= v@.len(),
            v@.len() == v.len(),
            forall|m: int| 0 <= m < k ==> v@[i + m] == p@[m],
        decreases p@.len() - k,
    {
        if v[i + k] != p[k] {
            assert(v@.subrange(i as int, i + p@.len())[k as int] != p@[k as int]);
            return false;
        }
        k = k + 1;
    }
    assert(v@.subrange(i as int, i + p@.len()) =~= p@);
    true
}

pub fn starts_with_chars(v: &Vec<char>, p: &Vec<char>) -> (r: bool)
    ensures
        r == has_prefix(v@, p@),
{
    occurs_at_exec(v, 0, p)
}

pub fn ends_with_chars(v: &Vec<char>, p: &Vec<char>) -> (r: bool)
    ensures
        r == has_suffix(v@, p@),
{
    if p.len() > v.len() {
        return false;
    }
    occurs_at_exec(v, v.len() - p.len(), p)
}

pub fn contains_chars(v: &Vec<char>, p: &Vec<char>) -> (r: bool)
    ensures
        r == has_infix(v@, p@),
{
    if p.len() > v.len() {
        assert forall|i: int| !occurs_at(v@, i, p@) by {}
        return false;
    }
    let last = v.len() - p.len();
    let mut i: usize = 0;
    while i < last
        invariant
            last + p@.len() == v@.len(),
            i <= last,
            forall|j: int| 0 <= j < i ==> !occurs_at(v@, j, p@),
        decreases last - i,
    {
        if occurs_at_exec(v, i, p) {
            return true;
        }
        i = i + 1;
    }
    if occurs_at_exec(v, last, p) {
        return true;
    }
    assert forall|j: int| !occurs_at(v@, j, p@) by {
        if 0 <= j < last {
        }
    }
    false
}

/// Whether two texts hold the same characters.
pub fn same_text(a: &str, b: &str) -> (r: bool)
    ensures
        r == (a@ == b@),
{
    let va = chars_of(a);
    let vb = chars_of(b);
    if va.len() != vb.len() {
        return false;
    }
    let r = occurs_at_exec(&va, 0, &vb);
    assert(va@.subrange(0, vb@.len() as int) =~= va@);
    r
}

/// `find_in` stops at the first `c`.
pub proof fn lemma_find_in_at(s: Seq<char>, from: int, hi: int, c: char, j: int)
    requires
        0 <= from <= j <= hi <= s.len(),
        j < hi ==> s[j] == c,
        forall|k: int| from <= k < j ==> s[k] != c,
    ensures
        find_in(s, from, hi, c) == j,
    decreases j - from,
{
    if from < j {
        lemma_find_in_at(s, from + 1, hi, c, j);
    }
}

/// `rfind_in` stops at the last `c`.
pub proof fn lemma_rfind_in_at(s: Seq<char>, lo: int, hi: int, c: char, j: int)
    requires
        0 <= lo <= j < hi <= s.len(),
        s[j] == c,
        forall|k: int| j < k < hi ==> s[k] != c,
    ensures
        rfind_in(s, lo, hi, c) == j,
    decreases hi - j,
{
    if j < hi - 1 {
        lemma_rfind_in_at(s, lo, hi - 1, c, j);
    }
}

/// `digits_end` stops at the first character that is no digit.
pub proof fn lemma_digits_end_at(s: Seq<char>, from: int, hi: int, j: int)
    requires
        0 <= from <= j <= hi <= s.len(),
        j < hi ==> !is_ascii_digit(s[j]),
        forall|k: int| from <= k < j ==> is_ascii_digit(s[k]),
    ensures
        digits_end(s, from, hi) == j,
    decreases j - from,
{
    if from < j {
        lemma_digits_end_at(s, from + 1, hi, j);
    }
}

} // verus!
