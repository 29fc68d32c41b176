//! A similarity hash: of the hashes that are pushed, each bit votes for or
//! against its place, and the fingerprint has a bit set where the votes for
//! it outweigh those against.

use vstd::prelude::*;

verus! {

/// The number of places that vote.
pub const BITS: usize = 32;

/// The votes.
pub struct State {
    counts: [isize; 32],
}

/// The fingerprint of the first `n` counts: bit `i` is set where count `i`
/// is positive.
pub open spec fn fingerprint_of(counts: Seq<isize>, n: nat) -> u32
    decreases n,
{
    if n == 0 {
        0
    } else {
        fingerprint_of(counts, (n - 1) as nat) | (if counts[n - 1] > 0 {
            1u32 << ((n - 1) as u32)
        } else {
            0u32
        })
    }
}

/// What one vote of the bit `bit` makes of a count.
pub open spec fn voted(count: isize, bit: bool) -> int {
    if bit {
        count + 1
    } else {
        count - 1
    }
}

/// The character of one hexadecimal digit, in lower case.
pub open spec fn hex_digit(nibble: u32) -> char {
    if nibble == 0 {
        '0'
    } else if nibble == 1 {
        '1'
    } else if nibble == 2 {
        '2'
    } else if nibble == 3 {
        '3'
    } else if nibble == 4 {
        '4'
    } else if nibble == 5 {
        '5'
    } else if nibble == 6 {
        '6'
    } else if nibble == 7 {
        '7'
    } else if nibble == 8 {
        '8'
    } else if nibble == 9 {
        '9'
    } else if nibble == 10 {
        'a'
    } else if nibble == 11 {
        'b'
    } else if nibble == 12 {
        'c'
    } else if nibble == 13 {
        'd'
    } else if nibble == 14 {
        'e'
    } else {
        'f'
    }
}

/// The eight hexadecimal digits of `val`, the most significant first.
pub open spec fn hex8(val: u32) -> Seq<char> {
    Seq::new(8, |i: int| hex_digit((val >> ((4 * (7 - i)) as u32)) & 0xf))
}

fn digit(nibble: u32) -> (c: char)
    ensures
        c == hex_digit(nibble),
{
    if nibble == 0 {
        '0'
    } else if nibble == 1 {
        '1'
    } else if nibble == 2 {
        '2'
    } else if nibble == 3 {
        '3'
    } else if nibble == 4 {
        '4'
    } else if nibble == 5 {
        '5'
    } else if nibble == 6 {
        '6'
    } else if nibble == 7 {
        '7'
    } else if nibble == 8 {
        '8'
    } else if nibble == 9 {
        '9'
    } else if nibble == 10 {
        'a'
    } else if nibble == 11 {
        'b'
    } else if nibble == 12 {
        'c'
    } else if nibble == 13 {
        'd'
    } else if nibble == 14 {
        'e'
    } else {
        'f'
    }
}

/// Appends the eight hexadecimal digits of `val` to `out`.
pub fn push_hex8(val: u32, out: &mut Vec<char>)
    ensures
        final(out)@ == old(out)@ + hex8(val),
{
    let mut i: u32 = 0;
    while i < 8
        invariant
            i <= 8,
            out@ == old(out)@ + hex8(val).take(i as int),
        decreases 8 - i,
    {
        let shift: u32 = 4 * (7 - i);
        out.push(digit((val >> shift) & 0xf));
        assert(out@ =~= old(out)@ + hex8(val).take(i + 1));
        i += 1;
    }
    assert(hex8(val).take(8) =~= hex8(val));
}

impl State {
    /// The counts, one to a place.
    pub closed spec fn view(&self) -> Seq<isize> {
        self.counts@
    }

    /// No vote yet.
    pub fn new() -> (state: Self)
        ensures
            state@.len() == 32,
            forall|i: int| 0 <= i < 32 ==> state@[i] == 0,
    {
        State { counts: [0isize; 32] }
    }

    /// Lets every bit of `val` vote at its place.
    pub fn push(&mut self, val: u32)
        requires
            forall|i: int| 0 <= i < 32 ==> isize::MIN < (#[trigger] old(self)@[i]) < isize::MAX,
        ensures
            final(self)@.len() == 32,
            forall|i: int|
                0 <= i < 32 ==> (#[trigger] final(self)@[i]) == voted(
                    old(self)@[i],
                    (val >> (i as u32)) & 1 != 0,
                ),
    {
        let mut i: usize = 0;
        while i < 32
            invariant
                i <= 32,
                self@.len() == 32,
                forall|j: int| i <= j < 32 ==> self@[j] == old(self)@[j],
                forall|j: int| 0 <= j < 32 ==> isize::MIN < (#[trigger] old(self)@[j]) < isize::MAX,
                forall|j: int|
                    0 <= j < i ==> (#[trigger] self@[j]) == voted(
                        old(self)@[j],
                        (val >> (j as u32)) & 1 != 0,
                    ),
            decreases 32 - i,
        {
            let bit = (val >> (i as u32)) & 1;
            let place = self.counts[i];
            if bit != 0 {
                self.counts.set(i, place + 1);
            } else {
                self.counts.set(i, place - 1);
            }
            i += 1;
        }
    }

    /// The fingerprint: bit `i` is set where more of the pushed values had
    /// bit `i` set than had it clear.
    pub fn fingerprint(&self) -> (val: u32)
        ensures
            val == fingerprint_of(self@, 32),
    {
        let mut val: u32 = 0;
        let mut off: usize = 0;
        while off < 32
            invariant
                off <= 32,
                self@.len() == 32,
                val == fingerprint_of(self@, off as nat),
            decreases 32 - off,
        {
            let flag: u32 = if self.counts[off] > 0 {
                1
            } else {
                0
            };
            assert(0u32 << (off as u32) == 0u32) by (bit_vector);
            val = val | (flag << (off as u32));
            off += 1;
        }
        val
    }

    /// The fingerprint in eight hexadecimal digits.
    pub fn render(&self) -> (text: Vec<char>)
        ensures
            text@ == hex8(fingerprint_of(self@, 32)),
    {
        let mut text: Vec<char> = Vec::new();
        push_hex8(self.fingerprint(), &mut text);
        assert(Seq::<char>::empty() + hex8(fingerprint_of(self@, 32)) =~= hex8(
            fingerprint_of(self@, 32),
        ));
        text
    }
}

} // verus!
