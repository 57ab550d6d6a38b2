//! Reading a process's `Pid` and `PPid` out of the lines of its status
//! file.

use vstd::prelude::*;
use crate::pstree::ProcessRecord;
use vstd::std_specs::iter::IteratorSpec;

verus! {

broadcast use {vstd::string::axiom_spec_iter, vstd::string::next_postcondition};

/// The characters that `char::is_whitespace` accepts: Unicode `White_Space`.
pub open spec fn is_white_space(c: char) -> bool {
    let u = c as u32;
    ||| 0x09 <= u <= 0x0d
    ||| u == 0x20
    ||| u == 0x85
    ||| u == 0xa0
    ||| u == 0x1680
    ||| 0x2000 <= u <= 0x200a
    ||| u == 0x2028
    ||| u == 0x2029
    ||| u == 0x202f
    ||| u == 0x205f
    ||| u == 0x3000
}

pub open spec fn trim_start(s: Seq<char>) -> Seq<char>
    decreases s.len(),
{
    if s.len() > 0 && is_white_space(s[0]) {
        trim_start(s.drop_first())
    } else {
        s
    }
}

pub open spec fn trim_end(s: Seq<char>) -> Seq<char>
    decreases s.len(),
{
    if s.len() > 0 && is_white_space(s.last()) {
        trim_end(s.drop_last())
    } else {
        s
    }
}

/// `s` without white space at either end.
pub open spec fn trim(s: Seq<char>) -> Seq<char> {
    trim_end(trim_start(s))
}

pub open spec fn is_digit(c: char) -> bool {
    '0' <= c <= '9'
}

pub open spec fn digit_value(c: char) -> int {
    (c as u32) - ('0' as u32)
}

/// The number that a string of decimal digits spells.
pub open spec fn digits_value(ds: Seq<char>) -> int
    decreases ds.len(),
{
    if ds.len() == 0 {
        0
    } else {
        digits_value(ds.drop_last()) * 10 + digit_value(ds.last())
    }
}

pub open spec fn all_digits(ds: Seq<char>) -> bool {
    forall|i: int| 0 <= i < ds.len() ==> is_digit(#[trigger] ds[i])
}

/// A decimal `i32` as `str::parse` reads it: an optional `+` or `-`, then
/// one or more digits, the value in range.
pub open spec fn parse_i32(s: Seq<char>) -> Option<i32> {
    let negative = s.len() > 0 && s[0] == '-';
    let digits = if s.len() > 0 && (s[0] == '+' || s[0] == '-') {
        s.drop_first()
    } else {
        s
    };
    let value = if negative {
        -digits_value(digits)
    } else {
        digits_value(digits)
    };
    if digits.len() > 0 && all_digits(digits) && i32::MIN <= value <= i32::MAX {
        Some(value as i32)
    } else {
        None
    }
}

pub open spec fn first_colon(s: Seq<char>, i: int) -> int
    decreases s.len() - i,
{
    if i < 0 || i >= s.len() {
        -1
    } else if s[i] == ':' {
        i
    } else {
        first_colon(s, i + 1)
    }
}

/// The `Pid` and `PPid` read so far from `lines`: a line `key: value`
/// whose trimmed key names a field sets it to the trimmed value parsed,
/// or to nothing when that fails; later lines win.
pub open spec fn status_fields(lines: Seq<Seq<char>>) -> (Option<i32>, Option<i32>)
    decreases lines.len(),
{
    if lines.len() == 0 {
        (None, None)
    } else {
        let (pid, ppid) = status_fields(lines.drop_last());
        let line = lines.last();
        let colon = first_colon(line, 0);
        if colon < 0 {
            (pid, ppid)
        } else {
            let key = trim(line.subrange(0, colon));
            let value = parse_i32(trim(line.subrange(colon + 1, line.len() as int)));
            if key == seq!['P', 'i', 'd'] {
                (value, ppid)
            } else if key == seq!['P', 'P', 'i', 'd'] {
                (pid, value)
            } else {
                (pid, ppid)
            }
        }
    }
}

pub open spec fn record_of_status(lines: Seq<Seq<char>>) -> Option<ProcessRecord> {
    match status_fields(lines) {
        (Some(pid), Some(ppid)) => Some(ProcessRecord { pid, ppid }),
        _ => None,
    }
}

pub(crate) fn chars_of(s: &str) -> (r: Vec<char>)
    ensures
        r@ == s@,
{
    let mut out: Vec<char> = Vec::new();
    let mut it = s.chars();
    let ghost k: int = 0;
    loop
        invariant
            0 <= k <= s@.len(),
            it.remaining() == s@.subrange(k, s@.len() as int),
            out@ == s@.subrange(0, k),
        ensures
            out@ == s@,
        decreases s@.len() - k,
    {
        match it.next() {
            Some(c) => {
                proof {
                    assert(s@.subrange(k, s@.len() as int).len() > 0);
                    assert(c == s@[k]);
                    assert(s@.subrange(k, s@.len() as int).drop_first() =~= s@.subrange(
                        k + 1,
                        s@.len() as int,
                    ));
                    k = k + 1;
                }
                out.push(c);
                assert(out@ =~= s@.subrange(0, k));
            },
            None => {
                assert(s@.subrange(0, k) =~= s@);
                break ;
            },
        }
    }
    out
}

fn is_white_space_char(c: char) -> (r: bool)
    ensures
        r == is_white_space(c),
{
    let u = c as u32;
    (0x09 <= u && u <= 0x0d) || u == 0x20 || u == 0x85 || u == 0xa0 || u == 0x1680 || (0x2000 <= u
        && u <= 0x200a) || u == 0x2028 || u == 0x2029 || u == 0x202f || u == 0x205f || u == 0x3000
}

proof fn lemma_trim_start_from(s: Seq<char>, i: int)
    requires
        0 <= i <= s.len(),
        forall|j: int| 0 <= j < i ==> is_white_space(#[trigger] s[j]),
    ensures
        trim_start(s) == trim_start(s.subrange(i, s.len() as int)),
    decreases i,
{
    if i > 0 {
        assert(is_white_space(s[0]));
        let t = s.drop_first();
        assert forall|j: int| 0 <= j < i - 1 implies is_white_space(#[trigger] t[j]) by {
            assert(t[j] == s[j + 1]);
        }
        lemma_trim_start_from(t, i - 1);
        assert(t.subrange(i - 1, t.len() as int) =~= s.subrange(i, s.len() as int));
    } else {
        assert(s.subrange(0, s.len() as int) =~= s);
    }
}

proof fn lemma_trim_end_to(s: Seq<char>, e: int)
    requires
        0 <= e <= s.len(),
        forall|j: int| e <= j < s.len() ==> is_white_space(#[trigger] s[j]),
    ensures
        trim_end(s) == trim_end(s.subrange(0, e)),
    decreases s.len() - e,
{
    if e < s.len() {
        assert(is_white_space(s[s.len() - 1]));
        let t = s.drop_last();
        lemma_trim_end_to(t, e);
        assert(t.subrange(0, e) =~= s.subrange(0, e));
    } else {
        assert(s.subrange(0, e) =~= s);
    }
}

/// The bounds of `trim(s[lo..hi])` within `s`.
fn trim_bounds(s: &Vec<char>, lo: usize, hi: usize) -> (r: (usize, usize))
    requires
        lo <= hi <= s@.len(),
    ensures
        lo <= r.0 <= r.1 <= hi,
        s@.subrange(r.0 as int, r.1 as int) == trim(s@.subrange(lo as int, hi as int)),
{
    let ghost part = s@.subrange(lo as int, hi as int);
    let mut a = lo;
    while a < hi && is_white_space_char(s[a])
        invariant
            lo <= a <= hi <= s@.len(),
            forall|j: int| lo <= j < a ==> is_white_space(#[trigger] s@[j]),
        decreases hi - a,
    {
        a = a + 1;
    }
    proof {
        assert forall|j: int| 0 <= j < a - lo implies is_white_space(#[trigger] part[j]) by {
            assert(part[j] == s@[lo + j]);
        }
        lemma_trim_start_from(part, a - lo);
        assert(part.subrange(a - lo, part.len() as int) =~= s@.subrange(a as int, hi as int));
        if a < hi {
            assert(!is_white_space(s@[a as int]));
            assert(trim_start(s@.subrange(a as int, hi as int)) == s@.subrange(a as int, hi as int));
        } else {
            assert(s@.subrange(a as int, hi as int).len() == 0);
        }
    }
    let ghost started = s@.subrange(a as int, hi as int);
    let mut b = hi;
    while b > a && is_white_space_char(s[b - 1])
        invariant
            lo <= a <= b <= hi <= s@.len(),
            forall|j: int| b <= j < hi ==> is_white_space(#[trigger] s@[j]),
        decreases b - a,
    {
        b = b - 1;
    }
    proof {
        assert forall|j: int| b - a <= j < started.len() implies is_white_space(
            #[trigger] started[j],
        ) by {
            assert(started[j] == s@[a + j]);
        }
        lemma_trim_end_to(started, b - a);
        assert(started.subrange(0, b - a) =~= s@.subrange(a as int, b as int));
        if b > a {
            assert(!is_white_space(s@[b - 1]));
            assert(s@.subrange(a as int, b as int).last() == s@[b - 1]);
        }
    }
    (a, b)
}

proof fn lemma_digits_value_grows(ds: Seq<char>, n: int)
    requires
        0 <= n <= ds.len(),
        all_digits(ds),
    ensures
        digits_value(ds.subrange(0, n)) <= digits_value(ds),
        0 <= digits_value(ds.subrange(0, n)),
    decreases ds.len() - n,
{
    if n < ds.len() {
        lemma_digits_value_grows(ds, n + 1);
        let p = ds.subrange(0, n + 1);
        assert(p.drop_last() =~= ds.subrange(0, n));
        assert(is_digit(ds[n]));
    } else {
        assert(ds.subrange(0, n) =~= ds);
        lemma_digits_value_nonneg(ds);
    }
}

proof fn lemma_digits_value_nonneg(ds: Seq<char>)
    requires
        all_digits(ds),
    ensures
        digits_value(ds) >= 0,
    decreases ds.len(),
{
    if ds.len() > 0 {
        let p = ds.drop_last();
        assert(all_digits(p)) by {
            assert forall|i: int| 0 <= i < p.len() implies is_digit(#[trigger] p[i]) by {
                assert(p[i] == ds[i]);
            }
        }
        lemma_digits_value_nonneg(p);
        assert(is_digit(ds[ds.len() - 1]));
    }
}

/// `s[lo..hi]` read as an `i32` the way `str::parse` does.
fn parse_i32_in(s: &Vec<char>, lo: usize, hi: usize) -> (r: Option<i32>)
    requires
        lo <= hi <= s@.len(),
    ensures
        r == parse_i32(s@.subrange(lo as int, hi as int)),
{
    let ghost t = s@.subrange(lo as int, hi as int);
    let negative = lo < hi && s[lo] == '-';
    let start = if lo < hi && (s[lo] == '+' || s[lo] == '-') {
        lo + 1
    } else {
        lo
    };
    let ghost digits = s@.subrange(start as int, hi as int);
    assert(digits == if t.len() > 0 && (t[0] == '+' || t[0] == '-') {
        t.drop_first()
    } else {
        t
    });
    assert(negative == (t.len() > 0 && t[0] == '-'));
    if start == hi {
        assert(digits.len() == 0);
        assert(parse_i32(t) is None);
        return None;
    }
    let limit: i64 = if negative { 2147483648 } else { 2147483647 };
    let mut value: i64 = 0;
    let mut i = start;
    while i < hi
        invariant
            start <= i <= hi <= s@.len(),
            digits == s@.subrange(start as int, hi as int),
            all_digits(s@.subrange(start as int, i as int)),
            value == digits_value(s@.subrange(start as int, i as int)),
            0 <= value <= limit,
            limit == if negative { 2147483648i64 } else { 2147483647i64 },
            negative == (t.len() > 0 && t[0] == '-'),
            t == s@.subrange(lo as int, hi as int),
            digits == if t.len() > 0 && (t[0] == '+' || t[0] == '-') {
                t.drop_first()
            } else {
                t
            },
        decreases hi - i,
    {
        let c = s[i];
        if !('0' <= c && c <= '9') {
            proof {
                assert(digits[i - start] == c);
                assert(!is_digit(digits[i - start]));
                assert(!all_digits(digits));
            }
            return None;
        }
        let d = (c as u32 - '0' as u32) as i64;
        let ghost prefix = s@.subrange(start as int, i + 1);
        proof {
            assert(prefix.drop_last() =~= s@.subrange(start as int, i as int));
            assert(prefix.last() == c);
            assert(digits_value(prefix) == value * 10 + d);
        }
        if value > (limit - d) / 10 {
            proof {
                assert(value * 10 + d > limit) by (nonlinear_arith)
                    requires
                        value > (limit - d) / 10,
                        0 <= d <= 9,
                        limit >= 9,
                ;
                if all_digits(digits) {
                    assert(prefix =~= digits.subrange(0, i + 1 - start));
                    lemma_digits_value_grows(digits, i + 1 - start);
                    assert(digits_value(digits) > limit);
                }
                assert(parse_i32(t) is None);
            }
            return None;
        }
        assert(value * 10 + d <= limit) by (nonlinear_arith)
            requires
                value <= (limit - d) / 10,
                0 <= d <= 9,
                limit >= 9,
        ;
        value = value * 10 + d;
        i = i + 1;
        proof {
            assert forall|j: int| 0 <= j < prefix.len() implies is_digit(#[trigger] prefix[j]) by {
                if j < prefix.len() - 1 {
                    assert(prefix[j] == s@.subrange(start as int, (i - 1) as int)[j]);
                }
            }
        }
    }
    assert(s@.subrange(start as int, i as int) =~= digits);
    assert(negative == (t.len() > 0 && t[0] == '-'));
    if negative {
        Some((-value) as i32)
    } else {
        Some(value as i32)
    }
}

fn matches_word(s: &Vec<char>, lo: usize, hi: usize, word: &[char]) -> (r: bool)
    requires
        lo <= hi <= s@.len(),
    ensures
        r == (s@.subrange(lo as int, hi as int) == word@),
{
    if hi - lo != word.len() {
        return false;
    }
    let mut i: usize = 0;
    while i < word.len()
        invariant
            hi - lo == word@.len(),
            lo <= hi <= s@.len(),
            0 <= i <= word@.len(),
            forall|j: int| 0 <= j < i ==> s@[lo + j] == word@[j],
        decreases word.len() - i,
    {
        if s[lo + i] != word[i] {
            assert(s@.subrange(lo as int, hi as int)[i as int] != word@[i as int]);
            return false;
        }
        i = i + 1;
    }
    assert(s@.subrange(lo as int, hi as int) =~= word@);
    true
}

/// The process record that the lines of a status file give: `Some` when
/// the last `Pid` line and the last `PPid` line both hold a number.
pub fn process_record_from_status(lines: &Vec<String>) -> (r: Option<ProcessRecord>)
    ensures
        r == record_of_status(lines@.map_values(|l: String| l@)),
{
    let ghost all = lines@.map_values(|l: String| l@);
    let pid_word: [char; 3] = ['P', 'i', 'd'];
    let ppid_word: [char; 4] = ['P', 'P', 'i', 'd'];
    assert(pid_word@ =~= seq!['P', 'i', 'd']);
    assert(ppid_word@ =~= seq!['P', 'P', 'i', 'd']);
    let mut pid: Option<i32> = None;
    let mut ppid: Option<i32> = None;
    let mut k: usize = 0;
    while k < lines.len()
        invariant
            0 <= k <= lines@.len(),
            all == lines@.map_values(|l: String| l@),
            pid_word@ == seq!['P', 'i', 'd'],
            ppid_word@ == seq!['P', 'P', 'i', 'd'],
            (pid, ppid) == status_fields(all.subrange(0, k as int)),
        decreases lines.len() - k,
    {
        let line = chars_of(lines[k].as_str());
        proof {
            assert(all.subrange(0, k + 1).drop_last() =~= all.subrange(0, k as int));
            assert(all.subrange(0, k + 1).last() == line@);
        }
        let mut c: usize = 0;
        while c < line.len() && line[c] != ':'
            invariant
                0 <= c <= line@.len(),
                forall|j: int| 0 <= j < c ==> line@[j] != ':',
                first_colon(line@, 0) == first_colon(line@, c as int),
            decreases line.len() - c,
        {
            c = c + 1;
        }
        if c < line.len() {
            let (ka, kb) = trim_bounds(&line, 0, c);
            let (va, vb) = trim_bounds(&line, c + 1, line.len());
            if matches_word(&line, ka, kb, &pid_word) {
                pid = parse_i32_in(&line, va, vb);
            } else if matches_word(&line, ka, kb, &ppid_word) {
                ppid = parse_i32_in(&line, va, vb);
            }
        }
        k = k + 1;
    }
    assert(all.subrange(0, k as int) =~= all);
    match (pid, ppid) {
        (Some(p), Some(pp)) => Some(ProcessRecord { pid: p, ppid: pp }),
        _ => None,
    }
}

} // verus!
