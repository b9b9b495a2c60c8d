//! Decoding of key and value names.
//!
//! A name field is stored either as one byte per character (the
//! "extended ASCII" form, chosen by a flag bit on the record) or as
//! UTF-16 little-endian.  Decoded names are sequences of Unicode code
//! points, so that they can be compared exactly against a requested
//! name given as a string slice.

use vstd::prelude::*;
use vstd::string::*;

use crate::error::HiveError;

verus! {

/// Byte-wise decoding: each byte is one code point.
pub open spec fn ascii_points(bytes: Seq<u8>) -> Seq<u32> {
    Seq::new(bytes.len(), |i: int| bytes[i] as u32)
}

/// The 16-bit little-endian code units stored in `bytes`.
pub open spec fn units_of(bytes: Seq<u8>) -> Seq<u32>
    recommends
        bytes.len() % 2 == 0,
{
    Seq::new(bytes.len() / 2, |i: int| (bytes[2 * i] + 0x100 * bytes[2 * i + 1]) as u32)
}

/// UTF-16 decoding of the code units from index `i` on: a unit outside the
/// surrogate range stands for itself, a high surrogate must be followed by a
/// low surrogate (the pair combines to one supplementary code point), and an
/// unpaired surrogate makes the whole text invalid.
pub open spec fn utf16_points_from(units: Seq<u32>, i: int) -> Option<Seq<u32>>
    recommends
        0 <= i,
    decreases units.len() - i,
{
    if i >= units.len() {
        Some(Seq::empty())
    } else {
        let u = units[i];
        if u < 0xD800 || u >= 0xE000 {
            match utf16_points_from(units, i + 1) {
                Some(rest) => Some(seq![u] + rest),
                None => None,
            }
        } else if u < 0xDC00 {
            if i + 1 < units.len() && 0xDC00 <= units[i + 1] && units[i + 1] < 0xE000 {
                let p = (0x1_0000 + 0x400 * (units[i] - 0xD800) + (units[i + 1] - 0xDC00)) as u32;
                match utf16_points_from(units, i + 2) {
                    Some(rest) => Some(seq![p] + rest),
                    None => None,
                }
            } else {
                None
            }
        } else {
            None
        }
    }
}

/// UTF-16 decoding of a whole sequence of code units.
pub open spec fn utf16_points(units: Seq<u32>) -> Option<Seq<u32>> {
    utf16_points_from(units, 0)
}

/// The code points of a string, for comparison against a decoded name.
pub open spec fn points_of_str(s: Seq<char>) -> Seq<u32> {
    Seq::new(s.len(), |i: int| s[i] as u32)
}

/// What decoding the name field of `len` bytes at absolute offset `off`
/// yields: the bytes themselves as code points in the extended-ASCII form,
/// or their UTF-16 decoding, which needs an even byte count and no unpaired
/// surrogate.
pub open spec fn spec_decode_name(h: Seq<u8>, off: int, len: int, extended: bool) -> Result<
    Seq<u32>,
    HiveError,
>
    recommends
        0 <= off,
        0 <= len,
{
    if off + len > h.len() {
        Err(HiveError::Truncated)
    } else if extended {
        Ok(ascii_points(h.subrange(off, off + len)))
    } else if len % 2 != 0 {
        Err(HiveError::InvalidText)
    } else {
        match utf16_points(units_of(h.subrange(off, off + len))) {
            Some(p) => Ok(p),
            None => Err(HiveError::InvalidText),
        }
    }
}

/// Relates an executable name decode to its specified outcome.
pub open spec fn points_result_matches(
    r: Result<Vec<u32>, HiveError>,
    s: Result<Seq<u32>, HiveError>,
) -> bool {
    match r {
        Ok(v) => s is Ok && v@ == s->Ok_0,
        Err(e) => s is Err && e == s->Err_0,
    }
}

/// Whether `p` is a Unicode scalar value: a code point outside the
/// surrogate range and within the code space.
pub open spec fn is_scalar_value(p: u32) -> bool {
    p < 0xD800 || (0xE000 <= p && p <= 0x10_FFFF)
}

/// The UTF-16 code units that encode the scalar value `p`: the value
/// itself, or a surrogate pair for a supplementary code point.
pub open spec fn utf16_encode_point(p: u32) -> Seq<u32>
    recommends
        is_scalar_value(p),
{
    if p < 0x1_0000 {
        seq![p]
    } else {
        seq![
            (0xD800 + (p - 0x1_0000) / 0x400) as u32,
            (0xDC00 + (p - 0x1_0000) % 0x400) as u32,
        ]
    }
}

/// The UTF-16 code units that encode a sequence of scalar values.
pub open spec fn utf16_encode(ps: Seq<u32>) -> Seq<u32>
    decreases ps.len(),
{
    if ps.len() == 0 {
        Seq::empty()
    } else {
        utf16_encode_point(ps[0]) + utf16_encode(ps.drop_first())
    }
}

/// Decoding is position-independent: a scan of a concatenation that starts
/// where the second part begins sees exactly the second part.
proof fn lemma_points_from_shift(prefix: Seq<u32>, units: Seq<u32>, i: int)
    requires
        0 <= i,
    ensures
        utf16_points_from(prefix + units, prefix.len() + i) == utf16_points_from(units, i),
    decreases units.len() - i,
{
    let all = prefix + units;
    if i >= units.len() {
    } else {
        assert(all[prefix.len() + i] == units[i]);
        let u = units[i];
        if u < 0xD800 || u >= 0xE000 {
            lemma_points_from_shift(prefix, units, i + 1);
        } else if u < 0xDC00 {
            if i + 1 < units.len() {
                assert(all[prefix.len() + i + 1] == units[i + 1]);
                if 0xDC00 <= units[i + 1] && units[i + 1] < 0xE000 {
                    lemma_points_from_shift(prefix, units, i + 2);
                }
            }
        }
    }
}

/// UTF-16 round trip: decoding the encoding of any sequence of Unicode
/// scalar values gives back exactly that sequence.
pub proof fn lemma_utf16_round_trip(ps: Seq<u32>)
    requires
        forall|i: int| 0 <= i < ps.len() ==> is_scalar_value(#[trigger] ps[i]),
    ensures
        utf16_points(utf16_encode(ps)) == Some(ps),
    decreases ps.len(),
{
    if ps.len() == 0 {
        assert(utf16_encode(ps) =~= Seq::<u32>::empty());
        assert(utf16_points(utf16_encode(ps)) == Some(Seq::<u32>::empty()));
        assert(Seq::<u32>::empty() =~= ps);
    } else {
        let p = ps[0];
        let rest = ps.drop_first();
        assert(forall|i: int| 0 <= i < rest.len() ==> is_scalar_value(#[trigger] rest[i]));
        lemma_utf16_round_trip(rest);
        let eh = utf16_encode_point(p);
        let er = utf16_encode(rest);
        let all = eh + er;
        assert(is_scalar_value(p));
        if p < 0x1_0000 {
            assert(all[0] == p);
            lemma_points_from_shift(eh, er, 0);
            assert(utf16_points_from(all, 1) == utf16_points(er));
            assert(utf16_points_from(all, 0) == Some(seq![p] + rest));
            assert(seq![p] + rest =~= ps);
        } else {
            let hi = (0xD800 + (p - 0x1_0000) / 0x400) as u32;
            let lo = (0xDC00 + (p - 0x1_0000) % 0x400) as u32;
            assert((p - 0x1_0000) / 0x400 <= 0x3FF && (p - 0x1_0000) % 0x400 < 0x400);
            assert(all[0] == hi && all[1] == lo);
            lemma_points_from_shift(eh, er, 0);
            assert(utf16_points_from(all, 2) == utf16_points(er));
            assert(0x1_0000 + 0x400 * ((hi - 0xD800) as int) + ((lo - 0xDC00) as int) == p);
            assert(utf16_points_from(all, 0) == Some(seq![p] + rest));
            assert(seq![p] + rest =~= ps);
        }
    }
}

/// The little-endian byte serialization of 16-bit code units.
pub open spec fn le_unit_bytes(units: Seq<u32>) -> Seq<u8>
    recommends
        forall|k: int| 0 <= k < units.len() ==> units[k] < 0x1_0000,
{
    Seq::new(
        2 * units.len(),
        |i: int|
            if i % 2 == 0 {
                (units[i / 2] % 0x100) as u8
            } else {
                (units[i / 2] / 0x100) as u8
            },
    )
}

/// Every code unit of a UTF-16 encoding fits in 16 bits.
proof fn lemma_encode_units_bounded(ps: Seq<u32>)
    requires
        forall|i: int| 0 <= i < ps.len() ==> is_scalar_value(#[trigger] ps[i]),
    ensures
        forall|k: int|
            0 <= k < utf16_encode(ps).len() ==> #[trigger] utf16_encode(ps)[k] < 0x1_0000,
    decreases ps.len(),
{
    if ps.len() == 0 {
    } else {
        let rest = ps.drop_first();
        assert(forall|i: int| 0 <= i < rest.len() ==> is_scalar_value(#[trigger] rest[i]));
        lemma_encode_units_bounded(rest);
        assert(is_scalar_value(ps[0]));
        assert forall|k: int| 0 <= k < utf16_encode(ps).len() implies #[trigger] utf16_encode(
            ps,
        )[k] < 0x1_0000 by {
            let eh = utf16_encode_point(ps[0]);
            if k >= eh.len() {
                assert(utf16_encode(ps)[k] == utf16_encode(rest)[k - eh.len()]);
            }
        }
    }
}

/// Pairing the little-endian serialization of 16-bit code units back up
/// gives exactly those units.
proof fn lemma_units_of_le_bytes(units: Seq<u32>)
    requires
        forall|k: int| 0 <= k < units.len() ==> units[k] < 0x1_0000,
    ensures
        units_of(le_unit_bytes(units)) == units,
{
    let bytes = le_unit_bytes(units);
    assert forall|i: int| 0 <= i < units.len() implies units_of(bytes)[i] == units[i] by {
        assert(bytes[2 * i] == (units[i] % 0x100) as u8);
        assert(bytes[2 * i + 1] == (units[i] / 0x100) as u8);
    }
    assert(units_of(bytes) =~= units);
}

/// The whole UTF-16 name round trip: a name field holding the little-endian
/// serialization of the UTF-16 encoding of any scalar values decodes back to
/// exactly those code points.
pub proof fn lemma_utf16_name_round_trip(h: Seq<u8>, off: int, ps: Seq<u32>)
    requires
        0 <= off,
        forall|i: int| 0 <= i < ps.len() ==> is_scalar_value(#[trigger] ps[i]),
        off + 2 * utf16_encode(ps).len() <= h.len(),
        h.subrange(off, off + 2 * utf16_encode(ps).len()) == le_unit_bytes(utf16_encode(ps)),
    ensures
        spec_decode_name(h, off, 2 * utf16_encode(ps).len() as int, false) == Ok::<
            Seq<u32>,
            HiveError,
        >(
            ps,
        ),
{
    lemma_encode_units_bounded(ps);
    lemma_units_of_le_bytes(utf16_encode(ps));
    lemma_utf16_round_trip(ps);
}

/// An extended-ASCII name decodes byte-wise: one code point per byte, each
/// the byte's own value, whatever the bytes are.
pub proof fn lemma_extended_ascii_bytewise(h: Seq<u8>, off: int, len: int)
    requires
        0 <= off,
        0 <= len,
        off + len <= h.len(),
    ensures
        spec_decode_name(h, off, len, true) is Ok,
        spec_decode_name(h, off, len, true)->Ok_0.len() == len,
        forall|j: int|
            0 <= j < len ==> spec_decode_name(h, off, len, true)->Ok_0[j] == h[off + j] as u32,
{
}

/// A name flagged UTF-16 with an odd byte count never decodes: the result
/// is `InvalidText`, whatever the bytes are.
pub proof fn lemma_odd_utf16_rejected(h: Seq<u8>, off: int, len: int)
    requires
        0 <= off,
        0 <= len,
        off + len <= h.len(),
        len % 2 == 1,
    ensures
        spec_decode_name(h, off, len, false) == Err::<Seq<u32>, HiveError>(HiveError::InvalidText),
{
}

/// Decodes the name field of `len` bytes at absolute offset `off` under the
/// encoding selected by `extended`.
pub fn decode_name(h: &Vec<u8>, off: u64, len: u64, extended: bool) -> (r: Result<
    Vec<u32>,
    HiveError,
>)
    ensures
        points_result_matches(r, spec_decode_name(h@, off as int, len as int, extended)),
{
    let total: u64 = h.len() as u64;
    if len > total || off > total - len {
        return Err(HiveError::Truncated);
    }
    let start: usize = off as usize;
    let count: usize = len as usize;
    let ghost sub: Seq<u8> = h@.subrange(off as int, off as int + len as int);
    if extended {
        let mut out: Vec<u32> = Vec::new();
        let mut i: usize = 0;
        while i < count
            invariant
                start + count <= h@.len(),
                start + count <= usize::MAX,
                i <= count,
                out@.len() == i,
                forall|j: int| 0 <= j < i ==> out@[j] == h@[start + j] as u32,
            decreases count - i,
        {
            out.push(h[start + i] as u32);
            i = i + 1;
        }
        proof {
            assert(out@ =~= ascii_points(sub));
        }
        Ok(out)
    } else if count % 2 != 0 {
        Err(HiveError::InvalidText)
    } else {
        let m: usize = count / 2;
        let mut units: Vec<u32> = Vec::new();
        let mut j: usize = 0;
        while j < m
            invariant
                start + count <= h@.len(),
                start + count <= usize::MAX,
                count == 2 * m,
                j <= m,
                units@.len() == j,
                forall|k: int|
                    0 <= k < j ==> units@[k] == (h@[start + 2 * k] + 0x100 * h@[start + 2 * k
                        + 1]) as u32,
            decreases m - j,
        {
            let lo: u32 = h[start + 2 * j] as u32;
            let hi: u32 = h[start + 2 * j + 1] as u32;
            units.push(lo + 0x100 * hi);
            j = j + 1;
        }
        proof {
            assert(units@ =~= units_of(sub));
        }
        decode_units(&units)
    }
}

/// Decodes a sequence of 16-bit code units as UTF-16.
fn decode_units(units: &Vec<u32>) -> (r: Result<Vec<u32>, HiveError>)
    requires
        forall|k: int| 0 <= k < units@.len() ==> units@[k] < 0x1_0000,
    ensures
        points_result_matches(
            r,
            match utf16_points(units@) {
                Some(p) => Ok(p),
                None => Err(HiveError::InvalidText),
            },
        ),
{
    let n: usize = units.len();
    let mut out: Vec<u32> = Vec::new();
    let mut i: usize = 0;
    while i < n
        invariant
            n == units@.len(),
            forall|k: int| 0 <= k < units@.len() ==> units@[k] < 0x1_0000,
            i <= n,
            utf16_points_from(units@, 0) is Some <==> utf16_points_from(units@, i as int)
                is Some,
            utf16_points_from(units@, 0) is Some ==> utf16_points_from(units@, 0)->Some_0 == out@
                + utf16_points_from(units@, i as int)->Some_0,
        decreases n - i,
    {
        let u: u32 = units[i];
        if u < 0xD800 || u >= 0xE000 {
            let ghost before: Seq<u32> = out@;
            out.push(u);
            proof {
                if utf16_points_from(units@, i as int) is Some {
                    assert(out@ + utf16_points_from(units@, i + 1)->Some_0 =~= before
                        + utf16_points_from(units@, i as int)->Some_0);
                }
            }
            i = i + 1;
        } else if u < 0xDC00 {
            if i + 1 < n && 0xDC00 <= units[i + 1] && units[i + 1] < 0xE000 {
                let u2: u32 = units[i + 1];
                let p: u32 = 0x1_0000 + 0x400 * (u - 0xD800) + (u2 - 0xDC00);
                let ghost before: Seq<u32> = out@;
                out.push(p);
                proof {
                    if utf16_points_from(units@, i as int) is Some {
                        assert(out@ + utf16_points_from(units@, i + 2)->Some_0 =~= before
                            + utf16_points_from(units@, i as int)->Some_0);
                    }
                }
                i = i + 2;
            } else {
                return Err(HiveError::InvalidText);
            }
        } else {
            return Err(HiveError::InvalidText);
        }
    }
    proof {
        assert(utf16_points_from(units@, i as int) is Some);
        assert(out@ + utf16_points_from(units@, i as int)->Some_0 =~= out@);
    }
    Ok(out)
}

/// Compares a decoded name against a requested one, code point for code
/// point.  Name comparison throughout the library is case-sensitive.
pub fn name_matches(decoded: &Vec<u32>, query: &str) -> (b: bool)
    ensures
        b == (decoded@ == points_of_str(query@)),
{
    let n: usize = query.unicode_len();
    if decoded.len() != n {
        proof {
            assert(decoded@ != points_of_str(query@));
        }
        return false;
    }
    let mut i: usize = 0;
    while i < n
        invariant
            n == query@.len(),
            n == decoded@.len(),
            i <= n,
            forall|j: int| 0 <= j < i ==> decoded@[j] == points_of_str(query@)[j],
        decreases n - i,
    {
        let c: char = query.get_char(i);
        if decoded[i] != c as u32 {
            proof {
                assert(decoded@[i as int] != points_of_str(query@)[i as int]);
            }
            return false;
        }
        i = i + 1;
    }
    proof {
        assert(decoded@ =~= points_of_str(query@));
    }
    true
}

} // verus!
