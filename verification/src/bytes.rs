use vstd::prelude::*;

verus! {

/// Little-endian u16 assembled from the two bytes at `off`.
pub open spec fn le16(s: Seq<u8>, off: int) -> u16 {
    (s[off] as u16) | ((s[off + 1] as u16) << 8)
}

/// Little-endian u32 assembled from the four bytes at `off`.
pub open spec fn le32(s: Seq<u8>, off: int) -> u32 {
    (s[off] as u32) | ((s[off + 1] as u32) << 8) | ((s[off + 2] as u32) << 16) | ((s[off + 3]
        as u32) << 24)
}

/// Little-endian u64 assembled from the eight bytes at `off`.
pub open spec fn le64(s: Seq<u8>, off: int) -> u64 {
    (s[off] as u64) | ((s[off + 1] as u64) << 8) | ((s[off + 2] as u64) << 16) | ((s[off + 3]
        as u64) << 24) | ((s[off + 4] as u64) << 32) | ((s[off + 5] as u64) << 40) | ((s[off + 6]
        as u64) << 48) | ((s[off + 7] as u64) << 56)
}

/// The byte at `off`, absent when the buffer does not reach that far.
pub open spec fn spec_u8_at(s: Seq<u8>, off: int) -> Option<u8> {
    if 0 <= off && off + 1 <= s.len() {
        Some(s[off])
    } else {
        None
    }
}

/// The little-endian u16 at `off`, absent when the buffer does not reach that far.
pub open spec fn spec_u16_at(s: Seq<u8>, off: int) -> Option<u16> {
    if 0 <= off && off + 2 <= s.len() {
        Some(le16(s, off))
    } else {
        None
    }
}

/// The little-endian u32 at `off`, absent when the buffer does not reach that far.
pub open spec fn spec_u32_at(s: Seq<u8>, off: int) -> Option<u32> {
    if 0 <= off && off + 4 <= s.len() {
        Some(le32(s, off))
    } else {
        None
    }
}

/// The little-endian u64 at `off`, absent when the buffer does not reach that far.
pub open spec fn spec_u64_at(s: Seq<u8>, off: int) -> Option<u64> {
    if 0 <= off && off + 8 <= s.len() {
        Some(le64(s, off))
    } else {
        None
    }
}

/// Up to `want` bytes starting at `off`; shorter when the buffer ends first,
/// empty when `off` lies past the end.
pub open spec fn spec_bytes_at(s: Seq<u8>, off: int, want: int) -> Seq<u8> {
    if 0 <= off && off <= s.len() {
        let take = if want < 0 {
            0
        } else if want <= s.len() - off {
            want
        } else {
            s.len() - off
        };
        s.subrange(off, off + take)
    } else {
        Seq::empty()
    }
}

pub fn read_u8_at(s: &[u8], off: usize) -> (r: Option<u8>)
    ensures
        r == spec_u8_at(s@, off as int),
{
    if off < s.len() {
        Some(s[off])
    } else {
        None
    }
}

pub fn read_u16_at(s: &[u8], off: usize) -> (r: Option<u16>)
    ensures
        r == spec_u16_at(s@, off as int),
{
    if s.len() >= 2 && off <= s.len() - 2 {
        Some((s[off] as u16) | ((s[off + 1] as u16) << 8))
    } else {
        None
    }
}

pub fn read_u32_at(s: &[u8], off: usize) -> (r: Option<u32>)
    ensures
        r == spec_u32_at(s@, off as int),
{
    if s.len() >= 4 && off <= s.len() - 4 {
        Some(
            (s[off] as u32) | ((s[off + 1] as u32) << 8) | ((s[off + 2] as u32) << 16) | ((s[off
                + 3] as u32) << 24),
        )
    } else {
        None
    }
}

pub fn read_u64_at(s: &[u8], off: usize) -> (r: Option<u64>)
    ensures
        r == spec_u64_at(s@, off as int),
{
    if s.len() >= 8 && off <= s.len() - 8 {
        Some(
            (s[off] as u64) | ((s[off + 1] as u64) << 8) | ((s[off + 2] as u64) << 16) | ((s[off
                + 3] as u64) << 24) | ((s[off + 4] as u64) << 32) | ((s[off + 5] as u64) << 40) | ((
            s[off + 6] as u64) << 48) | ((s[off + 7] as u64) << 56),
        )
    } else {
        None
    }
}

/// Copies up to `want` bytes starting at `off` into an owned vector.
pub fn read_bytes_at(s: &[u8], off: usize, want: usize) -> (v: Vec<u8>)
    ensures
        v@ == spec_bytes_at(s@, off as int, want as int),
{
    let mut v: Vec<u8> = Vec::new();
    if off > s.len() {
        assert(v@ =~= spec_bytes_at(s@, off as int, want as int));
        return v;
    }
    let take: usize = if want <= s.len() - off {
        want
    } else {
        s.len() - off
    };
    let mut i: usize = 0;
    while i < take
        invariant
            i <= take,
            off + take <= s.len(),
            take == if want as int <= s@.len() - off {
                want as int
            } else {
                s@.len() - off
            },
            v@ =~= s@.subrange(off as int, off + i),
        decreases take - i,
    {
        v.push(s[off + i]);
        assert(v@ =~= s@.subrange(off as int, off + i + 1));
        i = i + 1;
    }
    assert(v@ =~= spec_bytes_at(s@, off as int, want as int));
    v
}

} // verus!
