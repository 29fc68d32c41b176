//! A string that knows its length in characters and what it is hashed by:
//! its characters as code units of the narrowest width that holds them all.

use vstd::prelude::*;
use vstd::string::StrSliceExecFns;
use vstd::string::StringSliceAdditionalSpecFns;

verus! {

/// How two strings are to be compared.
#[derive(Clone, Copy, Debug, PartialEq, Eq)]
pub enum CompareOp {
    Lt,
    Le,
    Eq,
    Ne,
    Gt,
    Ge,
}

/// The greatest code among the first `n` characters of `s`, and at least
/// that of the last character of the ASCII range.
pub open spec fn max_code(s: Seq<char>, n: int) -> u32
    decreases n,
{
    if n <= 0 {
        0x7f
    } else if s[n - 1] as u32 > max_code(s, n - 1) {
        s[n - 1] as u32
    } else {
        max_code(s, n - 1)
    }
}

/// The number of bytes of the code units that a string is hashed by whose
/// greatest code is `max`: one, two or four.
pub open spec fn width_of(max: u32) -> u8 {
    if max <= 0xff {
        1
    } else if max <= 0xffff {
        2
    } else {
        4
    }
}

/// The codes of the characters.
pub open spec fn codes(s: Seq<char>) -> Seq<u32> {
    Seq::new(s.len(), |i: int| s[i] as u32)
}

/// What a character becomes in the printed form of a string: quotes and the
/// backslash get a backslash in front.
pub open spec fn escaped(c: char) -> Seq<char> {
    if c == '\'' || c == '"' || c == '\\' {
        seq!['\\', c]
    } else {
        seq![c]
    }
}

/// The first `n` characters of `s`, escaped.
pub open spec fn escaped_upto(s: Seq<char>, n: int) -> Seq<char>
    decreases n,
{
    if n <= 0 {
        Seq::empty()
    } else {
        escaped_upto(s, n - 1) + escaped(s[n - 1])
    }
}

/// `a` comes before `b` where the two are compared byte by byte from
/// `from` on: at the first place where they differ `a` has the lesser
/// byte, or `a` ends there and `b` does not.
pub open spec fn bytes_lt(a: Seq<u8>, b: Seq<u8>, from: int) -> bool
    decreases a.len() - from,
{
    if from < 0 || from >= b.len() {
        false
    } else if from >= a.len() {
        true
    } else if a[from] != b[from] {
        a[from] < b[from]
    } else {
        bytes_lt(a, b, from + 1)
    }
}

/// The two hold the same bytes from `from` on.
pub open spec fn bytes_eq(a: Seq<u8>, b: Seq<u8>, from: int) -> bool
    decreases a.len() - from,
{
    if from < 0 {
        false
    } else if from >= a.len() || from >= b.len() {
        a.len() == b.len()
    } else {
        a[from] == b[from] && bytes_eq(a, b, from + 1)
    }
}

/// What the comparison `op` says of `a` and `b`, compared as strings are:
/// by their bytes.
pub open spec fn compared(a: Seq<u8>, b: Seq<u8>, op: CompareOp) -> bool {
    match op {
        CompareOp::Lt => bytes_lt(a, b, 0),
        CompareOp::Le => bytes_lt(a, b, 0) || bytes_eq(a, b, 0),
        CompareOp::Eq => bytes_eq(a, b, 0),
        CompareOp::Ne => !bytes_eq(a, b, 0),
        CompareOp::Gt => !bytes_lt(a, b, 0) && !bytes_eq(a, b, 0),
        CompareOp::Ge => !bytes_lt(a, b, 0),
    }
}

/// Bytes that are the same from `from` on are the same bytes.
pub proof fn lemma_bytes_eq(a: Seq<u8>, b: Seq<u8>, from: int)
    requires
        0 <= from,
        from <= a.len(),
        from <= b.len(),
        a.take(from) == b.take(from),
    ensures
        bytes_eq(a, b, from) <==> a == b,
    decreases a.len() - from,
{
    if from >= a.len() || from >= b.len() {
        if a.len() == b.len() {
            assert(a.take(from) =~= a);
            assert(b.take(from) =~= b);
        }
    } else {
        if a[from] == b[from] {
            assert(a.take(from + 1) =~= a.take(from).push(a[from]));
            assert(b.take(from + 1) =~= b.take(from).push(b[from]));
            lemma_bytes_eq(a, b, from + 1);
        }
    }
}

/// A string with what is known of it.
pub struct Utf8Str {
    val: String,
    char_len: usize,
    width: u8,
}

/// -1, 0 or 1 as `a` comes before `b`, is `b`, or comes after it.
fn order(a: &[u8], b: &[u8]) -> (r: i8)
    ensures
        r == -1 <==> bytes_lt(a@, b@, 0),
        r == 0 <==> bytes_eq(a@, b@, 0),
        r == -1 || r == 0 || r == 1,
{
    let mut i: usize = 0;
    loop
        invariant
            i <= a@.len(),
            i <= b@.len(),
            bytes_lt(a@, b@, 0) == bytes_lt(a@, b@, i as int),
            bytes_eq(a@, b@, 0) == bytes_eq(a@, b@, i as int),
        decreases a@.len() - i,
    {
        if i >= b.len() {
            return if i >= a.len() {
                0
            } else {
                1
            };
        }
        if i >= a.len() {
            return -1;
        }
        if a[i] != b[i] {
            return if a[i] < b[i] {
                -1
            } else {
                1
            };
        }
        i += 1;
    }
}

impl Utf8Str {
    /// The string.
    pub closed spec fn view(&self) -> Seq<char> {
        self.val@
    }

    /// The bytes of the string.
    pub open spec fn bytes(&self) -> Seq<u8> {
        vstd::utf8::encode_utf8(self@)
    }

    /// What is known of the string is true of it.
    pub closed spec fn wf(&self) -> bool {
        &&& self.char_len == self.val@.len()
        &&& self.width == width_of(max_code(self.val@, self.val@.len() as int))
    }

    /// Takes the string and counts its characters and their width.
    pub fn new(val: String) -> (s: Self)
        ensures
            s.wf(),
            s@ == val@,
    {
        let len = val.as_str().unicode_len();
        let mut max_char: u32 = 0x7f;
        let mut char_len: usize = 0;
        while char_len < len
            invariant
                len == val@.len(),
                char_len <= len,
                max_char == max_code(val@, char_len as int),
            decreases len - char_len,
        {
            let c = val.as_str().get_char(char_len) as u32;
            if c > max_char {
                max_char = c;
            }
            char_len += 1;
        }
        let width: u8 = if max_char <= 0xff {
            1
        } else if max_char <= 0xffff {
            2
        } else {
            4
        };
        Self { val, char_len, width }
    }

    /// The string itself.
    pub fn as_str(&self) -> (s: &str)
        ensures
            s@ == self@,
    {
        self.val.as_str()
    }

    /// The number of characters.
    pub fn len(&self) -> (n: usize)
        requires
            self.wf(),
        ensures
            n == self@.len(),
    {
        self.char_len
    }

    /// Whether the string holds a character.
    pub fn to_bool(&self) -> (full: bool)
        requires
            self.wf(),
        ensures
            full == (self@.len() > 0),
    {
        self.char_len != 0
    }

    /// What the string is hashed by: the width of a code unit in bytes, and
    /// the code of each character, which that width holds.
    pub fn code_units(&self) -> (r: (u8, Vec<u32>))
        requires
            self.wf(),
        ensures
            r.0 == width_of(max_code(self@, self@.len() as int)),
            r.1@ == codes(self@),
    {
        let mut units: Vec<u32> = Vec::new();
        let mut i: usize = 0;
        while i < self.char_len
            invariant
                i <= self.char_len,
                self.char_len == self.val@.len(),
                units@ == codes(self.val@).take(i as int),
            decreases self.char_len - i,
        {
            units.push(self.val.as_str().get_char(i) as u32);
            assert(units@ =~= codes(self.val@).take(i + 1));
            i += 1;
        }
        assert(codes(self.val@).take(self.char_len as int) =~= codes(self.val@));
        (self.width, units)
    }

    /// The printed form: the string between single quotes, with a backslash
    /// before every quote and backslash in it.
    pub fn repr(&self) -> (res: Vec<char>)
        requires
            self.wf(),
        ensures
            res@ == seq!['\''] + escaped_upto(self@, self@.len() as int) + seq!['\''],
    {
        let mut res: Vec<char> = Vec::new();
        res.push('\'');
        let mut i: usize = 0;
        while i < self.char_len
            invariant
                i <= self.char_len,
                self.char_len == self.val@.len(),
                res@ == seq!['\''] + escaped_upto(self.val@, i as int),
            decreases self.char_len - i,
        {
            let c = self.val.as_str().get_char(i);
            if c == '\'' || c == '"' || c == '\\' {
                res.push('\\');
                res.push(c);
            } else {
                res.push(c);
            }
            assert(res@ =~= seq!['\''] + escaped_upto(self.val@, i + 1));
            i += 1;
        }
        res.push('\'');
        res
    }

    /// Compares the string with `other` as `op` says.
    pub fn richcmp(&self, other: &str, op: CompareOp) -> (r: bool)
        ensures
            r == compared(self.bytes(), other.spec_bytes(), op),
    {
        let ord = order(self.val.as_str().as_bytes(), other.as_bytes());
        match op {
            CompareOp::Lt => ord < 0,
            CompareOp::Le => ord <= 0,
            CompareOp::Eq => ord == 0,
            CompareOp::Ne => ord != 0,
            CompareOp::Gt => ord > 0,
            CompareOp::Ge => ord >= 0,
        }
    }
}

} // verus!
