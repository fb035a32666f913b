use wings_core::archive::extract::{target_of, ArchiveEntry, EntryAction, EntryKind};
use wings_core::archive::size::{decode_little_endian, SizeProbe};
use wings_core::archive::{
    detect_archive_type, detect_compression, Archive, ArchiveType, CompressionType,
};

use wings_core::sandbox::Sandbox;

fn b(s: &str) -> Vec<u8> {
    s.as_bytes().to_vec()
}

fn sandbox() -> Sandbox {
    Sandbox::new(b"/srv/s1")
}

fn header(prefix: &[u8]) -> [u8; 16] {
    let mut h = [0u8; 16];
    h[..prefix.len()].copy_from_slice(prefix);
    h
}

fn archive(compression: CompressionType, kind: ArchiveType, head: &[u8], path: &str) -> Archive {
    Archive { compression, archive: kind, header: header(head), path: b(path) }
}

fn file_entry(path: &str, mode: u32, mtime: u64) -> ArchiveEntry {
    ArchiveEntry {
        path: Some(b(path)),
        kind: EntryKind::Regular,
        mode: Some(mode),
        mtime: Some(mtime),
        uid: Some(1000),
        gid: Some(1000),
    }
}

#[test]
fn gzip_is_found_by_its_two_bytes_alone() {
    for third in [0x00u8, 0x07, 0x08, 0x09, 0xFF] {
        assert_eq!(
            detect_compression(&header(&[0x1F, 0x8B, third])),
            CompressionType::Gz,
            "third byte {third:#04x}"
        );
        let opened = Archive::open(b("/srv/s1/x.tar.gz"), header(&[0x1F, 0x8B, third]));
        assert_eq!(opened.compression, CompressionType::Gz);
    }
    assert_eq!(detect_compression(&[0x1F, 0x8B]), CompressionType::Gz);
    assert_eq!(detect_compression(&[0x1F]), CompressionType::Uncompressed);
    assert_eq!(detect_compression(&header(&[0x1F, 0x8A, 0x08])), CompressionType::Uncompressed);
    assert_eq!(detect_compression(&header(&[0x00, 0x1F, 0x8B])), CompressionType::Uncompressed);
}

#[test]
fn a_magic_number_counts_only_in_full_and_at_the_start() {
    assert_eq!(detect_compression(&[0x42, 0x5A]), CompressionType::Uncompressed);
    assert_eq!(detect_compression(&[0x42, 0x5A, 0x68]), CompressionType::Bz2);
    assert_eq!(
        detect_compression(&header(&[0xFD, 0x37, 0x7A, 0x58, 0x5A, 0x01])),
        CompressionType::Uncompressed
    );
    assert_eq!(detect_compression(&[0x04, 0x22, 0x4D]), CompressionType::Uncompressed);
    assert_eq!(detect_compression(&[0x04, 0x22, 0x4D, 0x18]), CompressionType::Lz4);
    assert_eq!(detect_compression(&header(&[0x28, 0xB5, 0x2F, 0xFE])), CompressionType::Uncompressed);
    assert_eq!(
        detect_compression(&header(&[0x50, 0x2A, 0x4D, 0x18, 0, 0, 0, 0, 0x28, 0xB5, 0x2F, 0xFD])),
        CompressionType::Uncompressed
    );
}

#[test]
fn compression_is_found_by_magic_bytes() {
    assert_eq!(detect_compression(&header(&[0x1F, 0x8B, 0x08, 0x00])), CompressionType::Gz);
    assert_eq!(detect_compression(&header(&[0x42, 0x5A, 0x68, 0x39])), CompressionType::Bz2);
    assert_eq!(
        detect_compression(&header(&[0xFD, 0x37, 0x7A, 0x58, 0x5A, 0x00])),
        CompressionType::Xz
    );
    assert_eq!(detect_compression(&header(&[0x04, 0x22, 0x4D, 0x18, 0x64])), CompressionType::Lz4);
    assert_eq!(detect_compression(&header(&[0x28, 0xB5, 0x2F, 0xFD, 0x24])), CompressionType::Zstd);
}

#[test]
fn other_content_counts_as_uncompressed() {
    assert_eq!(detect_compression(&[0u8; 16]), CompressionType::Uncompressed);
    assert_eq!(detect_compression(&header(b"PK\x03\x04")), CompressionType::Uncompressed);
    assert_eq!(detect_compression(&header(b"hello, world")), CompressionType::Uncompressed);
    assert_eq!(detect_compression(&[]), CompressionType::Uncompressed);
}

#[test]
fn archive_type_from_the_file_name() {
    assert_eq!(detect_archive_type(b"/srv/s1/world.tar"), ArchiveType::Tar);
    assert_eq!(detect_archive_type(b"/srv/s1/world.zip"), ArchiveType::Zip);
    assert_eq!(detect_archive_type(b"world.tar.gz"), ArchiveType::Tar);
    assert_eq!(detect_archive_type(b"world.tar.zst"), ArchiveType::Tar);
    assert_eq!(detect_archive_type(b"world.tar.xz"), ArchiveType::Tar);
    assert_eq!(detect_archive_type(b"data.gz"), ArchiveType::SingleFile);
    assert_eq!(detect_archive_type(b"data"), ArchiveType::SingleFile);
    assert_eq!(detect_archive_type(b"x.tar/data.gz"), ArchiveType::SingleFile);
    assert_eq!(detect_archive_type(b"world.zip.gz"), ArchiveType::SingleFile);
    assert_eq!(detect_archive_type(b".tar"), ArchiveType::Tar);
    assert_eq!(detect_archive_type(b""), ArchiveType::SingleFile);
    assert_eq!(detect_archive_type(b"world.TAR"), ArchiveType::SingleFile);
}

#[test]
fn open_describes_the_archive() {
    let a = Archive::open(b("/srv/s1/world.tar.zst"), header(&[0x28, 0xB5, 0x2F, 0xFD, 0x20, 5]));
    assert_eq!(a.compression, CompressionType::Zstd);
    assert_eq!(a.archive, ArchiveType::Tar);
    assert_eq!(a.path, b("/srv/s1/world.tar.zst"));
    assert_eq!(a.header[..6], [0x28, 0xB5, 0x2F, 0xFD, 0x20, 5]);

    let plain = Archive::open(b("notes.txt"), header(b"just some text"));
    assert_eq!(plain.compression, CompressionType::Uncompressed);
    assert_eq!(plain.archive, ArchiveType::SingleFile);
}

#[test]
fn little_endian_values() {
    assert_eq!(decode_little_endian(&[]), 0);
    assert_eq!(decode_little_endian(&[0x2A]), 42);
    assert_eq!(decode_little_endian(&[0x34, 0x12]), 0x1234);
    assert_eq!(decode_little_endian(&[0x78, 0x56, 0x34, 0x12]), 0x1234_5678);
    assert_eq!(decode_little_endian(&[0xFF; 8]), u64::MAX);
    assert_eq!(
        decode_little_endian(&[1, 2, 3, 4, 5, 6, 7, 8]),
        u64::from_le_bytes([1, 2, 3, 4, 5, 6, 7, 8])
    );
}

#[test]
fn size_of_an_uncompressed_file_is_its_length() {
    let a = archive(CompressionType::Uncompressed, ArchiveType::Tar, b"", "a.tar");
    assert_eq!(a.size_probe(), SizeProbe::Length);
    assert_eq!(a.estimated_size(Some(10_240), None), Some(10_240));
    assert_eq!(a.estimated_size(Some(0), Some([1, 2, 3, 4])), Some(0));
    assert_eq!(a.estimated_size(None, None), None);
}

#[test]
fn size_of_gzip_is_its_trailer() {
    let a = archive(CompressionType::Gz, ArchiveType::Tar, &[0x1F, 0x8B, 0x08], "a.tar.gz");
    assert_eq!(a.size_probe(), SizeProbe::LengthAndTrailer);
    assert_eq!(a.estimated_size(Some(100), Some([0x00, 0x10, 0x00, 0x00])), Some(4096));
    assert_eq!(a.estimated_size(Some(4), Some([0xFF, 0xFF, 0xFF, 0xFF])), Some(0xFFFF_FFFF));
    assert_eq!(a.estimated_size(Some(3), Some([1, 0, 0, 0])), None);
    assert_eq!(a.estimated_size(Some(100), None), None);
    assert_eq!(a.estimated_size(None, Some([1, 0, 0, 0])), None);
}

#[test]
fn size_of_xz_and_bzip2_is_unknown() {
    let xz = archive(CompressionType::Xz, ArchiveType::Tar, &[0xFD, 0x37, 0x7A], "a.tar.xz");
    let bz = archive(CompressionType::Bz2, ArchiveType::Tar, &[0x42, 0x5A, 0x68], "a.tar.bz2");
    assert_eq!(xz.size_probe(), SizeProbe::Nothing);
    assert_eq!(bz.size_probe(), SizeProbe::Nothing);
    assert_eq!(xz.estimated_size(Some(100), Some([1, 2, 3, 4])), None);
    assert_eq!(bz.estimated_size(Some(100), Some([1, 2, 3, 4])), None);
}

#[test]
fn size_of_lz4_needs_the_content_size_flag() {
    let with = [0x04, 0x22, 0x4D, 0x18, 0x6C, 0x40, 0x00, 0x00, 0x10, 0, 0, 0, 0, 0xAA];
    let a = archive(CompressionType::Lz4, ArchiveType::Tar, &with, "a.tar.lz4");
    assert_eq!(a.size_probe(), SizeProbe::Nothing);
    assert_eq!(a.estimated_size(None, None), Some(0x1000_0040));
    assert_eq!(
        a.estimated_size(None, None),
        Some(u64::from_le_bytes([0x40, 0x00, 0x00, 0x10, 0, 0, 0, 0]))
    );

    let without = [0x04, 0x22, 0x4D, 0x18, 0x64, 0x40, 1, 2, 3, 4, 5, 6, 7];
    let a = archive(CompressionType::Lz4, ArchiveType::Tar, &without, "a.tar.lz4");
    assert_eq!(a.estimated_size(Some(1), Some([1, 1, 1, 1])), None);

    let wrong_magic = [0x04, 0x22, 0x4D, 0x19, 0x6C, 0x40, 1, 2, 3, 4, 5, 6, 7];
    let a = archive(CompressionType::Lz4, ArchiveType::Tar, &wrong_magic, "a.tar.lz4");
    assert_eq!(a.estimated_size(None, None), None);
}

#[test]
fn size_of_zstd_by_field_width() {
    let magic = [0x28, 0xB5, 0x2F, 0xFD];
    let field = [0x01, 0x02, 0x03, 0x04, 0x05, 0x06, 0x07, 0x08];
    let with = |descriptor: u8| {
        let mut h = magic.to_vec();
        h.push(descriptor);
        h.extend_from_slice(&field);
        archive(CompressionType::Zstd, ArchiveType::Tar, &h, "a.tar.zst")
    };
    assert_eq!(with(0x00).estimated_size(None, None), None);
    assert_eq!(with(0x20).estimated_size(None, None), Some(0x01));
    assert_eq!(with(0x01).estimated_size(None, None), Some(0x0201));
    assert_eq!(with(0x21).estimated_size(None, None), Some(0x0201));
    assert_eq!(with(0x02).estimated_size(None, None), Some(0x0403_0201));
    assert_eq!(with(0x03).estimated_size(None, None), Some(0x0807_0605_0403_0201));
    assert_eq!(with(0xC0).estimated_size(None, None), None);
    assert_eq!(with(0xE7).estimated_size(None, None), Some(0x0807_0605_0403_0201));

    let wrong = archive(
        CompressionType::Zstd,
        ArchiveType::Tar,
        &[0x28, 0xB5, 0x2F, 0xFE, 0x03, 1, 2, 3, 4, 5, 6, 7, 8],
        "a.tar.zst",
    );
    assert_eq!(wrong.estimated_size(None, None), None);
}

#[test]
fn extract_a_zstd_framed_tar() {
    let a = Archive::open(b("/srv/s1/upload.tar.zst"), header(&[0x28, 0xB5, 0x2F, 0xFD, 0x24]));
    assert_eq!(a.compression, CompressionType::Zstd);
    assert_eq!(a.archive, ArchiveType::Tar);
    assert_eq!(a.single_file_destination(&sandbox(), b"/srv/s1"), None);

    let dir = ArchiveEntry {
        path: Some(b("a/")),
        kind: EntryKind::Directory,
        mode: Some(0o755),
        mtime: Some(1_700_000_000),
        uid: None,
        gid: None,
    };
    let file = file_entry("a/b.txt", 0o640, 1_700_000_001);

    assert_eq!(
        a.extract(&sandbox(), b"/srv/s1", &dir, false),
        EntryAction::CreateDirectory { path: b("/srv/s1/a/") }
    );
    assert_eq!(
        a.extract(&sandbox(), b"/srv/s1", &file, false),
        EntryAction::WriteFile {
            path: b("/srv/s1/a/b.txt"),
            parent: b("/srv/s1/a"),
            mode: Some(0o640),
            mtime: Some(1_700_000_001),
        }
    );
}

#[test]
fn extract_skips_an_absolute_path() {
    let a = archive(CompressionType::Uncompressed, ArchiveType::Tar, b"", "evil.tar");
    let entry = file_entry("/etc/passwd", 0o644, 0);
    assert_eq!(target_of(&sandbox(), b"/srv/s1", &entry), None);
    assert_eq!(a.extract(&sandbox(), b"/srv/s1", &entry, false), EntryAction::Skip);
    assert_eq!(a.extract(&sandbox(), b"/srv/s1", &entry, true), EntryAction::Skip);

    let mut dir = file_entry("/", 0o755, 0);
    dir.kind = EntryKind::Directory;
    assert_eq!(a.extract(&sandbox(), b"/srv/s1", &dir, false), EntryAction::Skip);
}

#[test]
fn extract_skips_ignored_nameless_and_special_entries() {
    let a = archive(CompressionType::Gz, ArchiveType::Tar, &[0x1F, 0x8B, 0x08], "x.tar.gz");
    let file = file_entry("logs/latest.log", 0o644, 5);
    assert_eq!(target_of(&sandbox(), b"/srv/s1", &file), Some(b("/srv/s1/logs/latest.log")));
    assert_eq!(a.extract(&sandbox(), b"/srv/s1", &file, true), EntryAction::Skip);

    let mut nameless = file_entry("x", 0o644, 5);
    nameless.path = None;
    assert_eq!(target_of(&sandbox(), b"/srv/s1", &nameless), None);
    assert_eq!(a.extract(&sandbox(), b"/srv/s1", &nameless, false), EntryAction::Skip);

    let mut link = file_entry("link", 0o777, 5);
    link.kind = EntryKind::Other;
    assert_eq!(a.extract(&sandbox(), b"/srv/s1", &link, false), EntryAction::Skip);
}

#[test]
fn extract_skips_what_leaves_the_sandbox() {
    let a = archive(CompressionType::Uncompressed, ArchiveType::Tar, b"", "evil.tar");
    for path in ["../s2/world/level.dat", "../../etc/cron.d/job", "a/../../../x", ".."] {
        let entry = file_entry(path, 0o644, 0);
        assert_eq!(target_of(&sandbox(), b"/srv/s1", &entry), None, "{path:?}");
        assert_eq!(a.extract(&sandbox(), b"/srv/s1", &entry, false), EntryAction::Skip, "{path:?}");
        let mut dir = file_entry(path, 0o755, 0);
        dir.kind = EntryKind::Directory;
        assert_eq!(a.extract(&sandbox(), b"/srv/s1", &dir, false), EntryAction::Skip, "{path:?}");
    }
    let inside = file_entry("../other.txt", 0o644, 1);
    assert_eq!(
        a.extract(&sandbox(), b"/srv/s1/sub", &inside, false),
        EntryAction::WriteFile {
            path: b("/srv/s1/sub/../other.txt"),
            parent: b("/srv/s1/sub/.."),
            mode: Some(0o644),
            mtime: Some(1),
        }
    );
    let relative_destination = file_entry("x", 0o644, 1);
    assert_eq!(a.extract(&sandbox(), b"srv/s1", &relative_destination, false), EntryAction::Skip);
    assert_eq!(a.extract(&sandbox(), b"", &relative_destination, false), EntryAction::Skip);
    let the_root_as_a_file = file_entry(".", 0o644, 1);
    assert_eq!(a.extract(&sandbox(), b"/srv/s1", &the_root_as_a_file, false), EntryAction::Skip);
    assert_eq!(a.extract(&sandbox(), b"/srv/elsewhere", &file_entry("x", 0o644, 1), false), EntryAction::Skip);
}

#[test]
fn extract_a_file_without_recorded_metadata() {
    let a = archive(CompressionType::Uncompressed, ArchiveType::Tar, b"", "x.tar");
    let entry = ArchiveEntry {
        path: Some(b("plain")),
        kind: EntryKind::Regular,
        mode: None,
        mtime: None,
        uid: None,
        gid: None,
    };
    assert_eq!(
        a.extract(&sandbox(), b"/srv/s1/sub", &entry, false),
        EntryAction::WriteFile {
            path: b("/srv/s1/sub/plain"),
            parent: b("/srv/s1/sub"),
            mode: None,
            mtime: None,
        }
    );
}

#[test]
fn extract_a_zip_restores_mode_but_not_time() {
    let a = archive(CompressionType::Uncompressed, ArchiveType::Zip, b"PK\x03\x04", "x.zip");
    let file = file_entry("plugins/a.jar", 0o600, 1_600_000_000);
    assert_eq!(
        a.extract(&sandbox(), b"/srv/s1", &file, false),
        EntryAction::WriteFile {
            path: b("/srv/s1/plugins/a.jar"),
            parent: b("/srv/s1/plugins"),
            mode: Some(0o600),
            mtime: None,
        }
    );
    let mut dir = file_entry("plugins/", 0o755, 1);
    dir.kind = EntryKind::Directory;
    assert_eq!(
        a.extract(&sandbox(), b"/srv/s1", &dir, false),
        EntryAction::CreateDirectory { path: b("/srv/s1/plugins/") }
    );
}

#[test]
fn a_file_without_container_is_copied_under_its_stem() {
    let a = Archive::open(b("/srv/s1/uploads/dump.sql.gz"), header(&[0x1F, 0x8B, 0x08]));
    assert_eq!(a.archive, ArchiveType::SingleFile);
    assert_eq!(a.single_file_destination(&sandbox(), b"/srv/s1/data"), Some(b("/srv/s1/data/dump.sql")));
    let entry = file_entry("anything", 0o644, 0);
    assert_eq!(a.extract(&sandbox(), b"/srv/s1/data", &entry, false), EntryAction::Skip);

    let nameless = archive(CompressionType::Gz, ArchiveType::SingleFile, &[0x1F, 0x8B], "/");
    assert_eq!(nameless.single_file_destination(&sandbox(), b"/srv/s1/data"), Some(b("/srv/s1/data")));

    let dots = archive(CompressionType::Gz, ArchiveType::SingleFile, &[0x1F, 0x8B], "/srv/s1/...");
    assert_eq!(dots.single_file_destination(&sandbox(), b"/srv/s1"), None);
    assert_eq!(a.single_file_destination(&sandbox(), b"/tmp"), None);
}
