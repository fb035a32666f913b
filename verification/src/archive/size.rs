//! Estimating the unpacked size of an archive without decompressing it.
//!
//! The estimate is read off the container's own bookkeeping: the ISIZE
//! trailer of gzip, the content-size field of an LZ4 frame, the frame content
//! size of zstd. It is a hint for quota checks and progress display, not a
//! promise.

use vstd::prelude::*;
use crate::archive::{lz4_magic, zstd_magic, Archive, CompressionType};

verus! {

/// The number that `bytes` spell in little-endian order.
pub open spec fn little_endian(bytes: Seq<u8>) -> nat
    decreases bytes.len(),
{
    if bytes.len() == 0 {
        0
    } else {
        bytes[0] as nat + 256 * little_endian(bytes.drop_first())
    }
}

/// The number of values that `n` bytes can spell: 256 to the power `n`.
pub open spec fn span(n: nat) -> nat
    decreases n,
{
    if n == 0 {
        1
    } else {
        256 * span((n - 1) as nat)
    }
}

/// A little-endian number of `n` bytes is below `span(n)`.
pub proof fn lemma_little_endian_bound(bytes: Seq<u8>)
    ensures
        little_endian(bytes) < span(bytes.len()),
    decreases bytes.len(),
{
    if bytes.len() > 0 {
        lemma_little_endian_bound(bytes.drop_first());
    }
}

/// Eight bytes fit a `u64`, and fewer bytes span less.
pub proof fn lemma_span_small(n: nat)
    requires
        n <= 8,
    ensures
        span(n) <= 0x1_0000_0000_0000_0000,
        n < 8 ==> 256 * span(n) <= 0x1_0000_0000_0000_0000,
{
    reveal_with_fuel(span, 10);
}

/// Reads up to eight bytes as a little-endian number.
pub fn decode_little_endian(bytes: &[u8]) -> (r: u64)
    requires
        bytes@.len() <= 8,
    ensures
        r == little_endian(bytes@),
{
    let mut acc: u64 = 0;
    let mut i: usize = bytes.len();
    assert(bytes@.skip(i as int) =~= Seq::<u8>::empty());
    while i > 0
        invariant
            i <= bytes@.len() <= 8,
            acc == little_endian(bytes@.skip(i as int)),
        decreases i,
    {
        proof {
            lemma_little_endian_bound(bytes@.skip(i as int));
            lemma_span_small((bytes@.len() - i) as nat);
            assert(bytes@.skip(i - 1).drop_first() =~= bytes@.skip(i as int));
        }
        i -= 1;
        acc = acc * 256 + bytes[i] as u64;
    }
    assert(bytes@.skip(0) =~= bytes@);
    acc
}

/// The content size that an LZ4 frame header announces: present where bit 3
/// of the flag byte is set, and then the eight bytes behind the two
/// descriptor bytes.
pub open spec fn lz4_content_size(header: Seq<u8>) -> Option<u64>
    recommends
        header.len() == 16,
{
    if header.take(4) != lz4_magic() {
        None
    } else if header[4] & 0x08 == 0 {
        None
    } else {
        Some(little_endian(header.subrange(5, 13)) as u64)
    }
}

/// The frame content size that a zstd frame header announces. The two low
/// bits of the descriptor byte choose the width of the field (one byte, and
/// only with the single-segment bit set; two; four; eight); the field is read
/// at offset 5 and handed out as it stands.
pub open spec fn zstd_content_size(header: Seq<u8>) -> Option<u64>
    recommends
        header.len() == 16,
{
    let descriptor = header[4];
    let width_flag = descriptor & 0x03;
    let single_segment = descriptor & 0x20 != 0;
    if header.take(4) != zstd_magic() {
        None
    } else if width_flag == 0 {
        if single_segment {
            Some(header[5] as u64)
        } else {
            None
        }
    } else if width_flag == 1 {
        Some(little_endian(header.subrange(5, 7)) as u64)
    } else if width_flag == 2 {
        Some(little_endian(header.subrange(5, 9)) as u64)
    } else {
        Some(little_endian(header.subrange(5, 13)) as u64)
    }
}

/// The size that gzip records in its last four bytes: the unpacked length
/// modulo 2^32. A file of fewer than four bytes has no trailer.
pub open spec fn gzip_recorded_size(file_len: Option<u64>, trailer: Option<Seq<u8>>) -> Option<u64> {
    match (file_len, trailer) {
        (Some(len), Some(t)) => if len < 4 {
            None
        } else {
            Some(little_endian(t) as u64)
        },
        _ => None,
    }
}

/// The estimated unpacked size of an archive.
///
/// `file_len` is the length of the file and `trailer` its last four bytes,
/// each absent where it could not be read.
pub open spec fn estimated(
    compression: CompressionType,
    header: Seq<u8>,
    file_len: Option<u64>,
    trailer: Option<Seq<u8>>,
) -> Option<u64> {
    match compression {
        CompressionType::Uncompressed => file_len,
        CompressionType::Gz => gzip_recorded_size(file_len, trailer),
        CompressionType::Xz => None,
        CompressionType::Bz2 => None,
        CompressionType::Lz4 => lz4_content_size(header),
        CompressionType::Zstd => zstd_content_size(header),
    }
}

/// The view of an optional four-byte trailer.
pub open spec fn trailer_view(trailer: Option<[u8; 4]>) -> Option<Seq<u8>> {
    match trailer {
        Some(t) => Some(t@),
        None => None,
    }
}

/// What has to be read from the file before its size can be estimated.
#[derive(Clone, Copy, Debug, PartialEq, Eq, Structural)]
pub enum SizeProbe {
    /// Nothing: the header suffices, or no estimate exists.
    Nothing,
    /// The length of the file.
    Length,
    /// The length of the file and, where it is at least four, its last four
    /// bytes.
    LengthAndTrailer,
}

fn has_magic(header: &[u8; 16], a: u8, b: u8, c: u8, d: u8) -> (r: bool)
    ensures
        r == (header@.take(4) == seq![a, b, c, d]),
{
    if header[0] == a && header[1] == b && header[2] == c && header[3] == d {
        assert(header@.take(4) =~= seq![a, b, c, d]);
        true
    } else {
        assert(header@.take(4)[0] == header@[0]);
        assert(header@.take(4)[1] == header@[1]);
        assert(header@.take(4)[2] == header@[2]);
        assert(header@.take(4)[3] == header@[3]);
        false
    }
}

fn field(header: &[u8; 16], width: usize) -> (r: u64)
    requires
        1 <= width <= 8,
    ensures
        r == little_endian(header@.subrange(5, 5 + width)),
{
    let bytes = header.as_slice();
    decode_little_endian(&bytes[5..5 + width])
}

impl Archive {
    /// What [`Archive::estimated_size`] needs from the file.
    pub fn size_probe(&self) -> (r: SizeProbe)
        ensures
            r == match self.compression {
                CompressionType::Uncompressed => SizeProbe::Length,
                CompressionType::Gz => SizeProbe::LengthAndTrailer,
                _ => SizeProbe::Nothing,
            },
    {
        match self.compression {
            CompressionType::Uncompressed => SizeProbe::Length,
            CompressionType::Gz => SizeProbe::LengthAndTrailer,
            _ => SizeProbe::Nothing,
        }
    }

    /// Estimates the unpacked size without decompressing anything.
    pub fn estimated_size(&self, file_len: Option<u64>, trailer: Option<[u8; 4]>) -> (r: Option<
        u64,
    >)
        ensures
            r == estimated(self.compression, self.header@, file_len, trailer_view(trailer)),
    {
        match self.compression {
            CompressionType::Uncompressed => file_len,
            CompressionType::Gz => {
                match (file_len, trailer) {
                    (Some(len), Some(t)) => {
                        if len < 4 {
                            None
                        } else {
                            Some(decode_little_endian(t.as_slice()))
                        }
                    },
                    _ => None,
                }
            },
            CompressionType::Xz => None,
            CompressionType::Bz2 => None,
            CompressionType::Lz4 => {
                if !has_magic(&self.header, 0x04, 0x22, 0x4D, 0x18) {
                    return None;
                }
                if self.header[4] & 0x08 == 0 {
                    return None;
                }
                Some(field(&self.header, 8))
            },
            CompressionType::Zstd => {
                if !has_magic(&self.header, 0x28, 0xB5, 0x2F, 0xFD) {
                    return None;
                }
                let descriptor = self.header[4];
                let width_flag = descriptor & 0x03;
                let single_segment = descriptor & 0x20 != 0;
                if width_flag == 0 {
                    if single_segment {
                        Some(self.header[5] as u64)
                    } else {
                        None
                    }
                } else if width_flag == 1 {
                    Some(field(&self.header, 2))
                } else if width_flag == 2 {
                    Some(field(&self.header, 4))
                } else {
                    Some(field(&self.header, 8))
                }
            },
        }
    }
}

} // verus!
