//! Small verified utilities over characters and strings: prefix tests,
//! substring search, decimal rendering of counters, line splitting and
//! whitespace trimming.

use vstd::prelude::*;

verus! {

use vstd::string::*;

/// `p` is a prefix of `s`.
pub open spec fn has_prefix(s: Seq<char>, p: Seq<char>) -> bool {
    p.len() <= s.len() && s.subrange(0, p.len() as int) == p
}

/// Exec prefix test, proved against `has_prefix`.
pub fn starts_with(s: &str, p: &str) -> (r: bool)
    ensures
        r == has_prefix(s@, p@),
{
    let sn = s.unicode_len();
    let pn = p.unicode_len();
    if pn > sn {
        assert(!has_prefix(s@, p@));
        return false;
    }
    let mut i: usize = 0;
    while i < pn
        invariant
            0 <= i <= pn <= sn,
            sn == s@.len(),
            pn == p@.len(),
            forall|j: int| 0 <= j < i ==> s@[j] == p@[j],
        decreases pn - i,
    {
        if s.get_char(i) != p.get_char(i) {
            assert(s@[i as int] != p@[i as int]);
            assert(!has_prefix(s@, p@)) by {
                if has_prefix(s@, p@) {
                    assert(s@.subrange(0, pn as int)[i as int] == p@[i as int]);
                }
            }
            return false;
        }
        i += 1;
    }
    assert(s@.subrange(0, pn as int) =~= p@);
    true
}

/// `p` occurs in `s` at position `i`.
pub open spec fn occurs_at(s: Seq<char>, p: Seq<char>, i: int) -> bool {
    0 <= i && i + p.len() <= s.len() && s.subrange(i, i + p.len() as int) == p
}

/// `p` occurs somewhere in `s`.
pub open spec fn has_occurrence(s: Seq<char>, p: Seq<char>) -> bool {
    exists|i: int| occurs_at(s, p, i)
}

/// `i` is the first position at which `p` occurs in `s`.
pub open spec fn is_first_occurrence(s: Seq<char>, p: Seq<char>, i: int) -> bool {
    occurs_at(s, p, i) && forall|j: int| 0 <= j < i ==> !occurs_at(s, p, j)
}

/// The first position at which `p` occurs in `s` (meaningful only when
/// `has_occurrence(s, p)`).
pub open spec fn first_occurrence(s: Seq<char>, p: Seq<char>) -> int {
    choose|i: int| is_first_occurrence(s, p, i)
}

pub proof fn lemma_first_occurrence(s: Seq<char>, p: Seq<char>, i: int)
    requires
        is_first_occurrence(s, p, i),
    ensures
        first_occurrence(s, p) == i,
        has_occurrence(s, p),
{
    assert(occurs_at(s, p, i));
    let w = first_occurrence(s, p);
    assert(is_first_occurrence(s, p, w));
    if w < i {
        assert(!occurs_at(s, p, w));
    }
    if i < w {
        assert(!occurs_at(s, p, i));
    }
}

/// Whether `p` occurs in `s` starting at `i`, proved against `occurs_at`.
pub fn matches_at(s: &str, p: &str, i: usize) -> (r: bool)
    requires
        i + p@.len() <= s@.len(),
        s@.len() <= usize::MAX,
    ensures
        r == occurs_at(s@, p@, i as int),
{
    let pn = p.unicode_len();
    let mut j: usize = 0;
    while j < pn
        invariant
            0 <= j <= pn,
            pn == p@.len(),
            i + pn <= s@.len() <= usize::MAX,
            forall|k: int| 0 <= k < j ==> s@[i + k] == p@[k],
        decreases pn - j,
    {
        if s.get_char(i + j) != p.get_char(j) {
            assert(!occurs_at(s@, p@, i as int)) by {
                if occurs_at(s@, p@, i as int) {
                    assert(s@.subrange(i as int, i + pn as int)[j as int] == p@[j as int]);
                }
            }
            return false;
        }
        j += 1;
    }
    assert(s@.subrange(i as int, i + pn as int) =~= p@);
    true
}

/// Finds the first occurrence of `p` in `s`, if any.
pub fn find_sub(s: &str, p: &str) -> (r: Option<usize>)
    ensures
        match r {
            Some(i) => is_first_occurrence(s@, p@, i as int),
            None => !has_occurrence(s@, p@),
        },
{
    let sn = s.unicode_len();
    let pn = p.unicode_len();
    if pn > sn {
        assert(forall|i: int| !occurs_at(s@, p@, i));
        return None;
    }
    if pn == 0 {
        assert(occurs_at(s@, p@, 0)) by {
            assert(s@.subrange(0, 0) =~= p@);
        }
        return Some(0);
    }
    let mut i: usize = 0;
    while i <= sn - pn
        invariant
            0 <= i <= sn - pn + 1,
            1 <= pn <= sn,
            sn == s@.len(),
            pn == p@.len(),
            forall|j: int| 0 <= j < i ==> !occurs_at(s@, p@, j),
        decreases sn - i,
    {
        if matches_at(s, p, i) {
            return Some(i);
        }
        i += 1;
    }
    assert(forall|j: int| 0 <= j ==> !occurs_at(s@, p@, j));
    None
}

/// Exec equality of two string slices by contents, proved against the
/// views.
pub fn str_eq(a: &str, b: &str) -> (r: bool)
    ensures
        r == (a@ == b@),
{
    let an = a.unicode_len();
    let bn = b.unicode_len();
    if an != bn {
        return false;
    }
    let r = starts_with(a, b);
    proof {
        if has_prefix(a@, b@) {
            assert(a@.subrange(0, b@.len() as int) =~= a@);
        }
        if a@ == b@ {
            assert(a@.subrange(0, b@.len() as int) =~= b@);
        }
    }
    r
}

/// `i` is the first position of the character `c` in `s`.
pub open spec fn is_first_char_at(s: Seq<char>, c: char, i: int) -> bool {
    0 <= i < s.len() && s[i] == c && forall|j: int| 0 <= j < i ==> s[j] != c
}

/// `i` is the last position of the character `c` in `s`.
pub open spec fn is_last_char_at(s: Seq<char>, c: char, i: int) -> bool {
    0 <= i < s.len() && s[i] == c && forall|j: int| i < j < s.len() ==> s[j] != c
}

/// `c` occurs somewhere in `s`.
pub open spec fn has_char(s: Seq<char>, c: char) -> bool {
    exists|i: int| 0 <= i < s.len() && s[i] == c
}

/// The first position of `c` in `s` (meaningful only when `has_char(s, c)`).
pub open spec fn first_char_at(s: Seq<char>, c: char) -> int {
    choose|i: int| is_first_char_at(s, c, i)
}

/// The last position of `c` in `s` (meaningful only when `has_char(s, c)`).
pub open spec fn last_char_at(s: Seq<char>, c: char) -> int {
    choose|i: int| is_last_char_at(s, c, i)
}

pub proof fn lemma_first_char_at(s: Seq<char>, c: char, i: int)
    requires
        is_first_char_at(s, c, i),
    ensures
        first_char_at(s, c) == i,
        has_char(s, c),
{
    let w = first_char_at(s, c);
    assert(is_first_char_at(s, c, w));
}

pub proof fn lemma_last_char_at(s: Seq<char>, c: char, i: int)
    requires
        is_last_char_at(s, c, i),
    ensures
        last_char_at(s, c) == i,
        has_char(s, c),
{
    let w = last_char_at(s, c);
    assert(is_last_char_at(s, c, w));
}

/// Finds the first position of the character `c` in `s`, if any.
pub fn find_char(s: &str, c: char) -> (r: Option<usize>)
    ensures
        match r {
            Some(i) => is_first_char_at(s@, c, i as int),
            None => !has_char(s@, c),
        },
{
    let n = s.unicode_len();
    let mut i: usize = 0;
    while i < n
        invariant
            0 <= i <= n,
            n == s@.len(),
            forall|j: int| 0 <= j < i ==> s@[j] != c,
        decreases n - i,
    {
        if s.get_char(i) == c {
            return Some(i);
        }
        i += 1;
    }
    None
}

/// Finds the last position of the character `c` in `s`, if any.
pub fn rfind_char(s: &str, c: char) -> (r: Option<usize>)
    ensures
        match r {
            Some(i) => is_last_char_at(s@, c, i as int),
            None => !has_char(s@, c),
        },
{
    let n = s.unicode_len();
    let mut i: usize = n;
    while i > 0
        invariant
            0 <= i <= n,
            n == s@.len(),
            forall|j: int| i <= j < n ==> s@[j] != c,
        decreases i,
    {
        i -= 1;
        if s.get_char(i) == c {
            return Some(i);
        }
    }
    None
}

/// Relies on `String::push`: appends one character to the string.
#[verifier::external_body]
pub(crate) fn push_char(s: &mut String, c: char)
    ensures
        final(s)@ == old(s)@.push(c),
{
    s.push(c);
}

/// The decimal digit character for `d` (valid for `d < 10`).
pub open spec fn digit_char(d: int) -> char {
    (48 + d) as char
}

/// The usual decimal rendering of `n`, most significant digit first.
pub open spec fn dec_str(n: int) -> Seq<char>
    decreases n,
{
    if n < 10 {
        seq![digit_char(if n < 0 { 0 } else { n })]
    } else {
        dec_str(n / 10).push(digit_char(n % 10))
    }
}

fn digit_of(d: usize) -> (c: char)
    requires
        d < 10,
    ensures
        c == digit_char(d as int),
{
    let c = (48 + d as u8) as char;
    assert(c == digit_char(d as int));
    c
}

/// Renders `n` in decimal, proved against `dec_str`.
pub fn dec_of(n: usize) -> (r: String)
    ensures
        r@ == dec_str(n as int),
    decreases n,
{
    if n < 10 {
        let mut s = String::new();
        push_char(&mut s, digit_of(n));
        assert(s@ =~= dec_str(n as int));
        s
    } else {
        let mut s = dec_of(n / 10);
        push_char(&mut s, digit_of(n % 10));
        assert(s@ =~= dec_str(n as int));
        s
    }
}

/// Removes a single trailing carriage return, if present.
pub open spec fn strip_cr(l: Seq<char>) -> Seq<char> {
    if l.len() > 0 && l.last() == '\r' {
        l.drop_last()
    } else {
        l
    }
}

/// The completed lines of `s` together with the still-open final segment,
/// scanning left to right: a newline closes the current segment (dropping a
/// carriage return just before it), every other character extends it.
pub open spec fn split_state(s: Seq<char>) -> (Seq<Seq<char>>, Seq<char>)
    decreases s.len(),
{
    if s.len() == 0 {
        (Seq::<Seq<char>>::empty(), Seq::<char>::empty())
    } else {
        let (done, cur) = split_state(s.drop_last());
        if s.last() == '\n' {
            (done.push(strip_cr(cur)), Seq::<char>::empty())
        } else {
            (done, cur.push(s.last()))
        }
    }
}

/// The lines of `s`, as `str::lines` yields them: terminated by a newline or
/// by the end of input, with a carriage return before a newline stripped, and
/// no final empty line after a trailing newline.
pub open spec fn spec_lines(s: Seq<char>) -> Seq<Seq<char>> {
    let (done, cur) = split_state(s);
    if cur.len() == 0 {
        done
    } else {
        done.push(cur)
    }
}

/// Splits `s` into its lines, proved against `spec_lines`.
pub fn split_lines(s: &str) -> (r: Vec<String>)
    ensures
        r.deep_view() == spec_lines(s@),
{
    let n = s.unicode_len();
    let mut acc: Vec<String> = Vec::new();
    let mut start: usize = 0;
    let mut i: usize = 0;
    while i < n
        invariant
            0 <= start <= i <= n,
            n == s@.len(),
            acc.deep_view() == split_state(s@.take(i as int)).0,
            s@.subrange(start as int, i as int) == split_state(s@.take(i as int)).1,
        decreases n - i,
    {
        let c = s.get_char(i);
        proof {
            assert(s@.take(i + 1).drop_last() =~= s@.take(i as int));
            assert(s@.take(i + 1).last() == s@[i as int]);
        }
        if c == '\n' {
            let endj = if i > start && s.get_char(i - 1) == '\r' {
                i - 1
            } else {
                i
            };
            proof {
                let cur = s@.subrange(start as int, i as int);
                if i > start && s@[i - 1] == '\r' {
                    assert(cur.len() > 0 && cur.last() == '\r');
                    assert(strip_cr(cur) =~= s@.subrange(start as int, endj as int));
                } else {
                    if cur.len() > 0 {
                        assert(cur.last() == s@[i - 1]);
                    }
                    assert(strip_cr(cur) =~= s@.subrange(start as int, endj as int));
                }
            }
            let line = String::from_str(s.substring_char(start, endj));
            acc.push(line);
            start = i + 1;
            proof {
                assert(acc.deep_view() =~= split_state(s@.take(i + 1)).0);
                assert(s@.subrange(start as int, i + 1) =~= split_state(s@.take(i + 1)).1);
            }
        } else {
            proof {
                assert(s@.subrange(start as int, i + 1) =~= s@.subrange(
                    start as int,
                    i as int,
                ).push(s@[i as int]));
            }
        }
        i += 1;
    }
    proof {
        assert(s@.take(n as int) =~= s@);
    }
    if start < n {
        let line = String::from_str(s.substring_char(start, n));
        acc.push(line);
        proof {
            assert(acc.deep_view() =~= spec_lines(s@));
        }
        acc
    } else {
        proof {
            assert(split_state(s@).1 =~= Seq::<char>::empty());
            assert(acc.deep_view() =~= spec_lines(s@));
        }
        acc
    }
}

/// Names the result of `char::is_whitespace`: the Unicode white-space
/// property, a function of the character alone.
pub uninterp spec fn is_space(c: char) -> bool;

/// Relies on `char::is_whitespace`: whether `c` has the Unicode white-space
/// property.
#[verifier::external_body]
pub(crate) fn space_char(c: char) -> (r: bool)
    ensures
        r == is_space(c),
{
    c.is_whitespace()
}

/// `s` with its leading white space removed.
pub open spec fn trim_front(s: Seq<char>) -> Seq<char>
    decreases s.len(),
{
    if s.len() > 0 && is_space(s[0]) {
        trim_front(s.subrange(1, s.len() as int))
    } else {
        s
    }
}

/// `s` with its trailing white space removed.
pub open spec fn trim_back(s: Seq<char>) -> Seq<char>
    decreases s.len(),
{
    if s.len() > 0 && is_space(s.last()) {
        trim_back(s.drop_last())
    } else {
        s
    }
}

/// `s` with white space removed from both ends, as `str::trim` leaves it.
pub open spec fn spec_trim(s: Seq<char>) -> Seq<char> {
    trim_back(trim_front(s))
}

proof fn lemma_trim_front_skip(s: Seq<char>, i: int)
    requires
        0 <= i <= s.len(),
        forall|j: int| 0 <= j < i ==> is_space(s[j]),
    ensures
        trim_front(s) == trim_front(s.subrange(i, s.len() as int)),
    decreases i,
{
    if i > 0 {
        let t = s.subrange(1, s.len() as int);
        assert(is_space(s[0]));
        lemma_trim_front_skip(t, i - 1);
        assert(t.subrange(i - 1, t.len() as int) =~= s.subrange(i, s.len() as int));
    } else {
        assert(s.subrange(0, s.len() as int) =~= s);
    }
}

proof fn lemma_trim_back_skip(s: Seq<char>, i: int)
    requires
        0 <= i <= s.len(),
        forall|j: int| i <= j < s.len() ==> is_space(s[j]),
    ensures
        trim_back(s) == trim_back(s.subrange(0, i)),
    decreases s.len() - i,
{
    if i < s.len() {
        let t = s.drop_last();
        assert(is_space(s.last()));
        lemma_trim_back_skip(t, i);
        assert(t.subrange(0, i) =~= s.subrange(0, i));
    } else {
        assert(s.subrange(0, s.len() as int) =~= s);
    }
}

/// Removes leading and trailing white space, proved against `spec_trim`.
pub fn trim_str(s: &str) -> (r: String)
    ensures
        r@ == spec_trim(s@),
{
    let n = s.unicode_len();
    let mut lo: usize = 0;
    while lo < n && space_char(s.get_char(lo))
        invariant
            0 <= lo <= n,
            n == s@.len(),
            forall|j: int| 0 <= j < lo ==> is_space(s@[j]),
        decreases n - lo,
    {
        lo += 1;
    }
    proof {
        lemma_trim_front_skip(s@, lo as int);
    }
    if lo == n {
        proof {
            assert(s@.subrange(lo as int, n as int) =~= Seq::<char>::empty());
            assert(spec_trim(s@) =~= Seq::<char>::empty());
        }
        return String::new();
    }
    let mut hi: usize = n;
    while hi > lo && space_char(s.get_char(hi - 1))
        invariant
            lo <= hi <= n,
            n == s@.len(),
            forall|j: int| hi <= j < n ==> is_space(s@[j]),
        decreases hi,
    {
        hi -= 1;
    }
    proof {
        let front = s@.subrange(lo as int, n as int);
        assert(trim_front(s@) == front);
        if hi == lo {
            assert(!is_space(s@[lo as int]));
            assert(is_space(front[0]));
            assert(false);
        }
        assert(forall|j: int| hi - lo <= j < front.len() ==> is_space(front[j]));
        lemma_trim_back_skip(front, hi - lo);
        assert(front.subrange(0, hi - lo) =~= s@.subrange(lo as int, hi as int));
        let back = s@.subrange(lo as int, hi as int);
        assert(!is_space(back.last()));
        assert(trim_back(back) == back);
    }
    String::from_str(s.substring_char(lo, hi))
}

} // verus!
