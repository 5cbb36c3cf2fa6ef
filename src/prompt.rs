use vstd::prelude::*;

use crate::kdf::{cost_in_bounds, cost_ok};
use vstd::string::StrSliceExecFns;

verus! {

/// What to do with one line typed at the cost prompt.
#[derive(Debug, Clone, Copy, PartialEq, Eq, Structural)]
pub enum CostReply {
    /// The line holds a cost in range.
    Accept(u8),
    /// The line holds a number that fits a byte but is out of range.
    OutOfRange,
    /// The line does not hold a number that fits a byte.
    NotANumber,
}

/// The characters with Unicode's `White_Space` property, which
/// `char::is_whitespace` and `str::trim` go by.
pub open spec fn is_space(c: char) -> bool {
    let v = c as u32;
    (9 <= v && v <= 13) || v == 32 || v == 0x85 || v == 0xA0 || v == 0x1680 || (0x2000 <= v
        && v <= 0x200A) || v == 0x2028 || v == 0x2029 || v == 0x202F || v == 0x205F || v == 0x3000
}

pub open spec fn is_digit(c: char) -> bool {
    48 <= (c as u32) && (c as u32) <= 57
}

pub open spec fn trim_start(s: Seq<char>) -> Seq<char>
    decreases s.len(),
{
    if s.len() > 0 && is_space(s[0]) {
        trim_start(s.drop_first())
    } else {
        s
    }
}

pub open spec fn trim_end(s: Seq<char>) -> Seq<char>
    decreases s.len(),
{
    if s.len() > 0 && is_space(s.last()) {
        trim_end(s.drop_last())
    } else {
        s
    }
}

/// `s` without leading or trailing whitespace.
pub open spec fn trim(s: Seq<char>) -> Seq<char> {
    trim_end(trim_start(s))
}

/// The number that decimal digits `s` spell.
pub open spec fn digits_value(s: Seq<char>) -> nat
    decreases s.len(),
{
    if s.len() == 0 {
        0
    } else {
        digits_value(s.drop_last()) * 10 + ((s.last() as u32) - 48) as nat
    }
}

pub open spec fn all_digits(s: Seq<char>) -> bool {
    forall|i: int| 0 <= i < s.len() ==> is_digit(#[trigger] s[i])
}

/// A byte-sized number in decimal, with an optional leading `+`: one or
/// more ASCII digits whose value is at most 255.
pub open spec fn parse_u8_spec(t: Seq<char>) -> Option<u8> {
    let d = if t.len() > 0 && t[0] == '+' { t.drop_first() } else { t };
    if d.len() > 0 && all_digits(d) && digits_value(d) <= 255 {
        Some(digits_value(d) as u8)
    } else {
        None
    }
}

pub open spec fn cost_reply_spec(line: Seq<char>) -> CostReply {
    match parse_u8_spec(trim(line)) {
        None => CostReply::NotANumber,
        Some(u) => if cost_ok(u) {
            CostReply::Accept(u)
        } else {
            CostReply::OutOfRange
        },
    }
}

fn is_space_char(c: char) -> (r: bool)
    ensures
        r == is_space(c),
{
    let v = c as u32;
    (9 <= v && v <= 13) || v == 32 || v == 0x85 || v == 0xA0 || v == 0x1680 || (0x2000 <= v && v
        <= 0x200A) || v == 0x2028 || v == 0x2029 || v == 0x202F || v == 0x205F || v == 0x3000
}

/// The bounds `lo..hi`, in characters, of `s` with surrounding whitespace
/// removed.
fn trim_bounds(s: &str) -> (r: (usize, usize))
    ensures
        r.0 <= r.1 <= s@.len(),
        s@.subrange(r.0 as int, r.1 as int) == trim(s@),
{
    let n = s.unicode_len();
    let mut lo: usize = 0;
    assert(s@.subrange(0, n as int) =~= s@);
    while lo < n && is_space_char(s.get_char(lo))
        invariant
            lo <= n == s@.len(),
            trim_start(s@) == trim_start(s@.subrange(lo as int, n as int)),
        decreases n - lo,
    {
        assert(s@.subrange(lo as int, n as int).drop_first() =~= s@.subrange(lo + 1, n as int));
        lo = lo + 1;
    }
    proof {
        assert(trim_start(s@) == s@.subrange(lo as int, n as int));
    }
    let mut hi: usize = n;
    while hi > lo && is_space_char(s.get_char(hi - 1))
        invariant
            lo <= hi <= n == s@.len(),
            trim(s@) == trim_end(s@.subrange(lo as int, hi as int)),
        decreases hi - lo,
    {
        assert(s@.subrange(lo as int, hi as int).drop_last() =~= s@.subrange(lo as int, hi - 1));
        hi = hi - 1;
    }
    (lo, hi)
}

/// Reads `line` as typed at the cost prompt: surrounding whitespace is
/// ignored, the rest must be a byte-sized decimal number (a leading `+` is
/// allowed), and the number must lie in `5..=31` to be accepted.
pub fn read_cost_reply(line: &str) -> (r: CostReply)
    ensures
        r == cost_reply_spec(line@),
{
    let (lo, hi) = trim_bounds(line);
    let ghost t = line@.subrange(lo as int, hi as int);
    let mut start: usize = lo;
    if lo < hi && line.get_char(lo) == '+' {
        start = lo + 1;
    }
    let ghost d = line@.subrange(start as int, hi as int);
    proof {
        if lo < hi {
            assert(t[0] == line@[lo as int]);
        }
        if lo < hi && line@[lo as int] == '+' {
            assert(t.drop_first() =~= d);
        } else {
            assert(t =~= d);
        }
    }
    if start >= hi {
        return CostReply::NotANumber;
    }
    let mut acc: u32 = 0;
    let mut i: usize = start;
    while i < hi
        invariant
            start <= i <= hi <= line@.len(),
            d == line@.subrange(start as int, hi as int),
            t == trim(line@),
            d == (if t.len() > 0 && t[0] == '+' { t.drop_first() } else { t }),
            all_digits(line@.subrange(start as int, i as int)),
            acc <= 256,
            acc == if digits_value(line@.subrange(start as int, i as int)) < 256 {
                digits_value(line@.subrange(start as int, i as int))
            } else {
                256
            },
        decreases hi - i,
    {
        let c = line.get_char(i);
        let v = c as u32;
        if v < 48 || v > 57 {
            proof {
                assert(d[i - start] == c);
                assert(!all_digits(d));
            }
            return CostReply::NotANumber;
        }
        let ghost p = line@.subrange(start as int, i as int);
        let ghost q = line@.subrange(start as int, i + 1);
        proof {
            assert(q.drop_last() =~= p);
            assert(q.last() == c);
            assert(all_digits(q)) by {
                assert forall|j: int| 0 <= j < q.len() implies is_digit(#[trigger] q[j]) by {
                    if j < p.len() {
                        assert(q[j] == p[j]);
                    }
                }
            }
            let w = digits_value(p);
            assert(digits_value(q) == w * 10 + (v - 48) as nat);
            if w >= 256 {
                assert(w * 10 >= 256) by (nonlinear_arith)
                    requires
                        w >= 256,
                ;
            }
        }
        let next: u32 = acc * 10 + (v - 48);
        acc = if next < 256 { next } else { 256 };
        i = i + 1;
    }
    proof {
        assert(line@.subrange(start as int, hi as int) == d);
    }
    if acc > 255 {
        return CostReply::NotANumber;
    }
    let u = acc as u8;
    if cost_in_bounds(u) {
        CostReply::Accept(u)
    } else {
        CostReply::OutOfRange
    }
}

} // verus!
