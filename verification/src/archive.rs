//! Archives as the daemon sees them before it unpacks one: how the file is
//! compressed, what container it holds, and where it came from.

use vstd::prelude::*;
use crate::path::{extension, extension_of, file_stem, file_stem_of};
use crate::text::{ascii, bytes_of, ends_with, same_bytes, starts_with};

pub mod extract;
pub mod size;

verus! {

/// How the bytes of an archive file are compressed.
#[derive(Clone, Copy, Debug, PartialEq, Eq, Structural)]
pub enum CompressionType {
    Uncompressed,
    Gz,
    Xz,
    Bz2,
    Lz4,
    Zstd,
}

/// The container format inside the (possibly compressed) file.
#[derive(Clone, Copy, Debug, PartialEq, Eq, Structural)]
pub enum ArchiveType {
    /// No container: the file is one, possibly compressed, stream.
    SingleFile,
    Tar,
    Zip,
}

/// The magic number of gzip.
pub open spec fn gzip_magic() -> Seq<u8> {
    seq![0x1Fu8, 0x8Bu8]
}

/// The magic number of bzip2.
pub open spec fn bzip2_magic() -> Seq<u8> {
    seq![0x42u8, 0x5Au8, 0x68u8]
}

/// The magic number of xz.
pub open spec fn xz_magic() -> Seq<u8> {
    seq![0xFDu8, 0x37u8, 0x7Au8, 0x58u8, 0x5Au8, 0x00u8]
}

/// The magic number of an LZ4 frame.
pub open spec fn lz4_magic() -> Seq<u8> {
    seq![0x04u8, 0x22u8, 0x4Du8, 0x18u8]
}

/// The magic number of a zstd frame.
pub open spec fn zstd_magic() -> Seq<u8> {
    seq![0x28u8, 0xB5u8, 0x2Fu8, 0xFDu8]
}

/// The compression that the first bytes of a file announce: that of the
/// magic number they begin with, and none where they begin with none.
pub open spec fn compression_by_magic(header: Seq<u8>) -> CompressionType {
    if gzip_magic().is_prefix_of(header) {
        CompressionType::Gz
    } else if bzip2_magic().is_prefix_of(header) {
        CompressionType::Bz2
    } else if xz_magic().is_prefix_of(header) {
        CompressionType::Xz
    } else if lz4_magic().is_prefix_of(header) {
        CompressionType::Lz4
    } else if zstd_magic().is_prefix_of(header) {
        CompressionType::Zstd
    } else {
        CompressionType::Uncompressed
    }
}

/// Infers the compression of a file from its first bytes.
pub fn detect_compression(header: &[u8]) -> (r: CompressionType)
    ensures
        r == compression_by_magic(header@),
{
    let gzip: [u8; 2] = [0x1F, 0x8B];
    let bzip2: [u8; 3] = [0x42, 0x5A, 0x68];
    let xz: [u8; 6] = [0xFD, 0x37, 0x7A, 0x58, 0x5A, 0x00];
    let lz4: [u8; 4] = [0x04, 0x22, 0x4D, 0x18];
    let zstd: [u8; 4] = [0x28, 0xB5, 0x2F, 0xFD];
    assert(gzip@ =~= gzip_magic());
    assert(bzip2@ =~= bzip2_magic());
    assert(xz@ =~= xz_magic());
    assert(lz4@ =~= lz4_magic());
    assert(zstd@ =~= zstd_magic());
    if starts_with(header, gzip.as_slice()) {
        CompressionType::Gz
    } else if starts_with(header, bzip2.as_slice()) {
        CompressionType::Bz2
    } else if starts_with(header, xz.as_slice()) {
        CompressionType::Xz
    } else if starts_with(header, lz4.as_slice()) {
        CompressionType::Lz4
    } else if starts_with(header, zstd.as_slice()) {
        CompressionType::Zstd
    } else {
        CompressionType::Uncompressed
    }
}

/// The container that a file name announces: `.tar` and `.zip` by
/// extension; otherwise a tar where the stem itself ends in `.tar`, as in
/// `world.tar.gz`.
pub open spec fn archive_type_for(path: Seq<u8>) -> ArchiveType {
    if extension_of(path) == Some(ascii("tar")) {
        ArchiveType::Tar
    } else if extension_of(path) == Some(ascii("zip")) {
        ArchiveType::Zip
    } else {
        match file_stem_of(path) {
            Some(stem) => if ascii(".tar").is_suffix_of(stem) {
                ArchiveType::Tar
            } else {
                ArchiveType::SingleFile
            },
            None => ArchiveType::SingleFile,
        }
    }
}

/// Infers the container format from the file's path.
pub fn detect_archive_type(path: &[u8]) -> (r: ArchiveType)
    ensures
        r == archive_type_for(path@),
{
    proof {
        reveal_strlit("tar");
        reveal_strlit("zip");
        reveal_strlit(".tar");
    }
    match extension(path) {
        Some(ext) => {
            if same_bytes(ext.as_slice(), bytes_of("tar")) {
                return ArchiveType::Tar;
            }
            if same_bytes(ext.as_slice(), bytes_of("zip")) {
                return ArchiveType::Zip;
            }
        },
        None => {},
    }
    match file_stem(path) {
        Some(stem) => {
            if ends_with(stem.as_slice(), bytes_of(".tar")) {
                ArchiveType::Tar
            } else {
                ArchiveType::SingleFile
            }
        },
        None => ArchiveType::SingleFile,
    }
}

/// An archive file that has been opened and looked at, but not yet read.
pub struct Archive {
    pub compression: CompressionType,
    pub archive: ArchiveType,
    /// The first 16 bytes of the file, zero-filled where the file is shorter.
    pub header: [u8; 16],
    pub path: Vec<u8>,
}

impl Archive {
    /// Describes the archive at `path` whose first bytes are `header`.
    pub fn open(path: Vec<u8>, header: [u8; 16]) -> (r: Archive)
        ensures
            r.compression == compression_by_magic(header@),
            r.archive == archive_type_for(path@),
            r.header == header,
            r.path == path,
    {
        let compression = detect_compression(header.as_slice());
        let archive = detect_archive_type(path.as_slice());
        Archive { compression, archive, header, path }
    }
}

} // verus!
