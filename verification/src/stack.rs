//! Finding the memory region that an address lies in, from the lines of a
//! map of memory. A line starts with the region as two hexadecimal numbers
//! with a dash between them; what follows the first blank is not looked at.

use vstd::prelude::*;

verus! {

pub open spec fn is_blank(b: u8) -> bool {
    b == 0x20 || b == 0x09 || b == 0x0a || b == 0x0c || b == 0x0d
}

/// The value of a hexadecimal digit, in either case.
pub open spec fn hex_val(b: u8) -> Option<int> {
    if 0x30 <= b <= 0x39 {
        Some(b - 0x30)
    } else if 0x61 <= b <= 0x66 {
        Some(b - 0x61 + 10)
    } else if 0x41 <= b <= 0x46 {
        Some(b - 0x41 + 10)
    } else {
        None
    }
}

/// The number that the hexadecimal digits of `s[at..end]` make of `acc`.
/// `None` where one of them is no digit or the number is no `usize`.
pub open spec fn hex_from(s: Seq<u8>, at: int, end: int, acc: int) -> Option<int>
    decreases end - at,
{
    if at >= end {
        Some(acc)
    } else {
        match hex_val(s[at]) {
            Some(d) => if acc * 16 + d <= usize::MAX {
                hex_from(s, at + 1, end, acc * 16 + d)
            } else {
                None
            },
            None => None,
        }
    }
}

/// The number that `s[from..end]` spells in hexadecimal digits, with or
/// without a plus sign in front. There has to be a digit.
pub open spec fn hex_number(s: Seq<u8>, from: int, end: int) -> Option<int> {
    let start = if from < end && s[from] == 0x2b {
        from + 1
    } else {
        from
    };
    if start >= end {
        None
    } else {
        hex_from(s, start, end, 0)
    }
}

/// The first place at or behind `from`, and before `end`, that holds a byte
/// for which `blank` says what the bytes of the run before it do not:
/// the end of the run of blanks or of bytes that are none.
pub open spec fn run_end(s: Seq<u8>, from: int, end: int, blank: bool) -> int
    decreases end - from,
{
    if from >= end || is_blank(s[from]) != blank {
        from
    } else {
        run_end(s, from + 1, end, blank)
    }
}

/// The first place at or behind `from`, and before `end`, that holds a
/// dash; `end` where there is none.
pub open spec fn dash_at(s: Seq<u8>, from: int, end: int) -> int
    decreases end - from,
{
    if from >= end || s[from] == 0x2d {
        from
    } else {
        dash_at(s, from + 1, end)
    }
}

/// The region that a line names: the two numbers of its first word, which
/// a dash parts. Of a word with more dashes, what follows the second is not
/// looked at.
pub open spec fn range_of(line: Seq<u8>) -> Option<(int, int)> {
    let start = run_end(line, 0, line.len() as int, true);
    let end = run_end(line, start, line.len() as int, false);
    let dash = dash_at(line, start, end);
    if start >= end || dash >= end {
        None
    } else {
        let second_end = dash_at(line, dash + 1, end);
        match (hex_number(line, start, dash), hex_number(line, dash + 1, second_end)) {
            (Some(first), Some(second)) => Some((first, second)),
            _ => None,
        }
    }
}

/// Whether line `i` names a region that holds `ptr`.
pub open spec fn holds(lines: Seq<Vec<u8>>, i: int, ptr: usize) -> bool {
    match range_of(lines[i]@) {
        Some((first, second)) => first <= ptr < second,
        None => false,
    }
}

fn scan_run(s: &[u8], from: usize, end: usize, blank: bool) -> (at: usize)
    requires
        from <= end <= s@.len(),
    ensures
        at == run_end(s@, from as int, end as int, blank),
        from <= at <= end,
{
    let mut at = from;
    loop
        invariant
            from <= at <= end <= s@.len(),
            run_end(s@, from as int, end as int, blank) == run_end(s@, at as int, end as int, blank),
        decreases end - at,
    {
        if at >= end {
            return at;
        }
        let b = s[at];
        let is = b == 0x20 || b == 0x09 || b == 0x0a || b == 0x0c || b == 0x0d;
        if is != blank {
            return at;
        }
        at += 1;
    }
}

fn scan_dash(s: &[u8], from: usize, end: usize) -> (at: usize)
    requires
        from <= end <= s@.len(),
    ensures
        at == dash_at(s@, from as int, end as int),
        from <= at <= end,
{
    let mut at = from;
    loop
        invariant
            from <= at <= end <= s@.len(),
            dash_at(s@, from as int, end as int) == dash_at(s@, at as int, end as int),
        decreases end - at,
    {
        if at >= end || s[at] == 0x2d {
            return at;
        }
        at += 1;
    }
}

/// Reads a number in hexadecimal digits.
pub fn parse_hex(s: &[u8], from: usize, end: usize) -> (r: Option<usize>)
    requires
        from <= end <= s@.len(),
    ensures
        match r {
            Some(n) => hex_number(s@, from as int, end as int) == Some(n as int),
            None => hex_number(s@, from as int, end as int) is None,
        },
{
    let start = if from < end && s[from] == 0x2b {
        from + 1
    } else {
        from
    };
    if start >= end {
        return None;
    }
    let mut at = start;
    let mut acc: usize = 0;
    loop
        invariant
            start <= at <= end <= s@.len(),
            start < end,
            hex_number(s@, from as int, end as int) == hex_from(s@, start as int, end as int, 0),
            hex_from(s@, start as int, end as int, 0) == hex_from(
                s@,
                at as int,
                end as int,
                acc as int,
            ),
        decreases end - at,
    {
        if at >= end {
            return Some(acc);
        }
        let b = s[at];
        let d: usize = if 0x30 <= b && b <= 0x39 {
            (b - 0x30) as usize
        } else if 0x61 <= b && b <= 0x66 {
            (b - 0x61) as usize + 10
        } else if 0x41 <= b && b <= 0x46 {
            (b - 0x41) as usize + 10
        } else {
            return None;
        };
        if acc > (usize::MAX - d) / 16 {
            return None;
        }
        acc = acc * 16 + d;
        at += 1;
    }
}

/// The region that `line` names.
pub fn parse_range(line: &[u8]) -> (r: Option<(usize, usize)>)
    ensures
        match r {
            Some((first, second)) => range_of(line@) == Some((first as int, second as int)),
            None => range_of(line@) is None,
        },
{
    let start = scan_run(line, 0, line.len(), true);
    let end = scan_run(line, start, line.len(), false);
    let dash = scan_dash(line, start, end);
    if start >= end || dash >= end {
        return None;
    }
    let second_end = scan_dash(line, dash + 1, end);
    let first = match parse_hex(line, start, dash) {
        Some(first) => first,
        None => {
            return None;
        },
    };
    match parse_hex(line, dash + 1, second_end) {
        Some(second) => Some((first, second)),
        None => None,
    }
}

/// The region of the first line that names one which holds `ptr`.
pub fn find_range(lines: &[Vec<u8>], ptr: usize) -> (r: Option<(usize, usize)>)
    ensures
        match r {
            Some((first, second)) => exists|i: int|
                0 <= i < lines@.len() && holds(lines@, i, ptr) && range_of(
                    (#[trigger] lines@[i])@,
                ) == Some((first as int, second as int)) && forall|j: int|
                    0 <= j < i ==> !holds(lines@, j, ptr),
            None => forall|i: int| 0 <= i < lines@.len() ==> !holds(lines@, i, ptr),
        },
{
    let mut i: usize = 0;
    while i < lines.len()
        invariant
            i <= lines@.len(),
            forall|j: int| 0 <= j < i ==> !holds(lines@, j, ptr),
        decreases lines@.len() - i,
    {
        match parse_range(lines[i].as_slice()) {
            Some((first, second)) => {
                if first <= ptr && ptr < second {
                    assert(holds(lines@, i as int, ptr));
                    return Some((first, second));
                }
            },
            None => {},
        }
        i += 1;
    }
    None
}

} // verus!
