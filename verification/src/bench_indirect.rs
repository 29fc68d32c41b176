//! Two ways to pick a hash function by a mode, for measuring one against the
//! other: deciding at each element, and deciding once before the loop. Both
//! give the same sum.

use vstd::prelude::*;
use vstd::string::StringSliceAdditionalSpecFns;

verus! {

/// Which hash to sum.
#[derive(Copy, Clone, Debug)]
pub enum Mode {
    Crc64,
    CityHash64,
    Other,
}

/// The CRC-64 checksum of `data` that starts from the checksum `crc`, as the
/// crate `crc64` computes it.
pub uninterp spec fn crc64_of(crc: u64, data: Seq<u8>) -> u64;

/// `crc64::crc64`. Its result is a function of its two arguments; this
/// gives it a name and claims nothing more of it.
#[verifier::external_body]
fn crc64(crc: u64, data: &[u8]) -> (sum: u64)
    ensures
        sum == crc64_of(crc, data@),
{
    crc64::crc64(crc, data)
}

/// The hash of one text in the mode `m`. The CityHash of the text is
/// computed by the caller and handed in as `city`; it counts only in the mode
/// `CityHash64`.
pub open spec fn hash_of(m: Mode, text: &str, city: u64) -> u64 {
    match m {
        Mode::Crc64 => crc64_of(0, text.spec_bytes()),
        Mode::CityHash64 => city,
        Mode::Other => 1,
    }
}

/// The sum of the hashes of `texts[..n]`, wrapping round.
pub open spec fn hash_sum(m: Mode, texts: Seq<&str>, city: Seq<u64>, n: int) -> u64
    decreases n,
{
    if n <= 0 {
        0
    } else {
        hash_sum(m, texts, city, n - 1).wrapping_add(hash_of(m, texts[n - 1], city[n - 1]))
    }
}

fn crc64f(s: &str) -> (hash: u64)
    ensures
        hash == crc64_of(0, s.spec_bytes()),
{
    crc64(0, s.as_bytes())
}

fn otherf(_s: &str) -> (hash: u64)
    ensures
        hash == 1,
{
    1
}

/// Sums the hashes of `s`, choosing the hash at each element. In the mode
/// `CityHash64`, `city` holds the CityHash of each text of `s`.
pub fn hash_e(m: Mode, s: &[&str], city: &[u64]) -> (sum: u64)
    requires
        m is CityHash64 ==> city@.len() == s@.len(),
    ensures
        sum == hash_sum(m, s@, city@, s@.len() as int),
{
    let mut v: u64 = 0;
    let mut i: usize = 0;
    while i < s.len()
        invariant
            i <= s@.len(),
            m is CityHash64 ==> city@.len() == s@.len(),
            v == hash_sum(m, s@, city@, i as int),
        decreases s@.len() - i,
    {
        let e: &str = s[i];
        let h: u64 = match m {
            Mode::Crc64 => crc64f(e),
            Mode::CityHash64 => city[i],
            Mode::Other => otherf(e),
        };
        v = v.wrapping_add(h);
        i += 1;
    }
    v
}

/// Sums the hashes of `s`, choosing the hash once. In the mode
/// `CityHash64`, `city` holds the CityHash of each text of `s`.
pub fn hash_i(m: Mode, s: &[&str], city: &[u64]) -> (sum: u64)
    requires
        m is CityHash64 ==> city@.len() == s@.len(),
    ensures
        sum == hash_sum(m, s@, city@, s@.len() as int),
{
    match m {
        Mode::Crc64 => sum_by(m, s, city, |e: &str, _i: usize| -> (h: u64)
            ensures h == crc64_of(0, e.spec_bytes()),
            { crc64f(e) }),
        Mode::CityHash64 => sum_by(m, s, city, |_e: &str, i: usize| -> (h: u64)
            requires i < city@.len(),
            ensures h == city@[i as int],
            { city[i] }),
        Mode::Other => sum_by(m, s, city, |e: &str, _i: usize| -> (h: u64)
            ensures h == 1,
            { otherf(e) }),
    }
}

/// Sums what `f` gives for each text and its place.
fn sum_by<F: Fn(&str, usize) -> u64>(m: Mode, s: &[&str], city: &[u64], f: F) -> (sum: u64)
    requires
        m is CityHash64 ==> city@.len() == s@.len(),
        forall|i: usize| i < s@.len() ==> f.requires((#[trigger] s@[i as int], i)),
        forall|i: usize, h: u64|
            i < s@.len() && #[trigger] f.ensures((s@[i as int], i), h) ==> h == hash_of(
                m,
                s@[i as int],
                city@[i as int],
            ),
    ensures
        sum == hash_sum(m, s@, city@, s@.len() as int),
{
    let mut v: u64 = 0;
    let mut i: usize = 0;
    while i < s.len()
        invariant
            i <= s@.len(),
            forall|i: usize| i < s@.len() ==> f.requires((#[trigger] s@[i as int], i)),
            forall|i: usize, h: u64|
                i < s@.len() && #[trigger] f.ensures((s@[i as int], i), h) ==> h == hash_of(
                    m,
                    s@[i as int],
                    city@[i as int],
                ),
            v == hash_sum(m, s@, city@, i as int),
        decreases s@.len() - i,
    {
        let h: u64 = f(s[i], i);
        v = v.wrapping_add(h);
        i += 1;
    }
    v
}

} // verus!
