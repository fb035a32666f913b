use wings_core::archive::extract::{ArchiveEntry, EntryKind};
use wings_core::backup::{
    backup_of, backups_from, create_backup, delete_backup, download_backup, get_file_name, list_backups, member,
    restore_backup, restore_target, walk_policy, Member, RestoreAction, DEFAULT_DIRECTORY_MODE,
    DEFAULT_FILE_MODE,
};
use wings_core::encode::{hex_encode, to_decimal, to_hex};
use wings_core::ident::to_hyphenated;

const BACKUP: u128 = 0x550e8400_e29b_41d4_a716_446655440000;

fn b(s: &str) -> Vec<u8> {
    s.as_bytes().to_vec()
}

fn entry(path: &str, kind: EntryKind) -> ArchiveEntry {
    ArchiveEntry {
        path: Some(b(path)),
        kind,
        mode: Some(0o700),
        mtime: Some(1_650_000_000),
        uid: Some(988),
        gid: Some(989),
    }
}

#[test]
fn hex_of_numbers() {
    assert_eq!(to_hex(0, 0), b(""));
    assert_eq!(to_hex(0, 4), b("0000"));
    assert_eq!(to_hex(0xBEEF, 4), b("beef"));
    assert_eq!(to_hex(0xBEEF, 2), b("ef"));
    assert_eq!(to_hex(0x1234_5678_9ABC_DEF0, 16), b("123456789abcdef0"));
    assert_eq!(to_hex(u128::MAX, 32), b("ffffffffffffffffffffffffffffffff"));
}

#[test]
fn hex_of_bytes() {
    assert_eq!(hex_encode(&[]), b(""));
    assert_eq!(hex_encode(&[0x00, 0x0f, 0xa0, 0xff]), b("000fa0ff"));
    assert_eq!(hex_encode(&[0xde, 0xad, 0xbe, 0xef]), b("deadbeef"));
}

#[test]
fn decimal_of_numbers() {
    assert_eq!(to_decimal(0), b("0"));
    assert_eq!(to_decimal(7), b("7"));
    assert_eq!(to_decimal(10), b("10"));
    assert_eq!(to_decimal(1234567890), b("1234567890"));
    assert_eq!(to_decimal(u64::MAX), b("18446744073709551615"));
}

#[test]
fn hyphenated_text_of_a_uuid() {
    assert_eq!(to_hyphenated(BACKUP), b("550e8400-e29b-41d4-a716-446655440000"));
    assert_eq!(to_hyphenated(0), b("00000000-0000-0000-0000-000000000000"));
    assert_eq!(to_hyphenated(u128::MAX), b("ffffffff-ffff-ffff-ffff-ffffffffffff"));
}

#[test]
fn hyphenated_text_agrees_with_the_uuid_crate() {
    for value in [0u128, 1, BACKUP, u128::MAX, 0x0123_4567_89ab_cdef_0123_4567_89ab_cdef] {
        let expected = uuid::Uuid::from_u128(value).hyphenated().to_string();
        assert_eq!(to_hyphenated(value), expected.as_bytes());
        assert_eq!(backup_of(expected.as_bytes()), Some(value));
    }
}

#[test]
fn backup_file_name() {
    assert_eq!(
        get_file_name(b"/var/lib/wings/backups", BACKUP),
        b("/var/lib/wings/backups/550e8400-e29b-41d4-a716-446655440000.tar.gz")
    );
    assert_eq!(
        get_file_name(b"/backups/", BACKUP),
        b("/backups/550e8400-e29b-41d4-a716-446655440000.tar.gz")
    );
}

#[test]
fn backup_walk_policy() {
    let policy = walk_policy();
    assert_eq!(policy.ignore_file, ".pteroignore");
    assert!(!policy.follow_links);
    assert!(!policy.git_global);
    assert!(!policy.skip_hidden);
    assert!(policy.complete_metadata);
}

#[test]
fn backup_members_are_relative_to_the_sandbox() {
    assert_eq!(
        member(b"/srv/s1", b"/srv/s1/world/level.dat", false),
        Some(Member { name: b("world/level.dat"), directory: false })
    );
    assert_eq!(
        member(b"/srv/s1", b"/srv/s1/world", true),
        Some(Member { name: b("world"), directory: true })
    );
    assert_eq!(member(b"/srv/s1", b"/srv/s1", true), Some(Member { name: b(""), directory: true }));
    assert_eq!(member(b"/srv/s1", b"/srv/s2/world", true), None);
    assert_eq!(member(b"/srv/s1", b"/etc/passwd", false), None);
}

#[test]
fn checksum_of_nothing() {
    let backup = create_backup(b"/backups", BACKUP);
    assert_eq!(backup.file_name(), &get_file_name(b"/backups", BACKUP));
    assert_eq!(backup.size(), 0);
    let status = backup.finish();
    assert_eq!(status.checksum, b("da39a3ee5e6b4b0d3255bfef95601890afd80709"));
    assert_eq!(status.checksum_type, "sha1");
    assert_eq!(status.size, 0);
    assert!(status.successful);
    assert!(status.parts.is_empty());
}

#[test]
fn checksum_of_known_messages() {
    let mut backup = create_backup(b"/backups", BACKUP);
    backup.update(b"abc");
    let status = backup.finish();
    assert_eq!(status.checksum, b("a9993e364706816aba3e25717850c26c9cd0d89d"));
    assert_eq!(status.size, 3);

    let mut backup = create_backup(b"/backups", BACKUP);
    backup.update(b"The quick brown fox jumps over the lazy dog");
    let status = backup.finish();
    assert_eq!(status.checksum, b("2fd4e1c67a2d28fced849ee1bb76e7391b93eb12"));
    assert_eq!(status.size, 43);
}

#[test]
fn checksum_does_not_depend_on_the_chunking() {
    let data: Vec<u8> = (0..20_000u32).map(|i| (i * 31 % 251) as u8).collect();
    let mut whole = create_backup(b"/backups", BACKUP);
    whole.update(&data);
    let whole = whole.finish();

    for chunk in [1usize, 7, 64, 8192, 19_999] {
        let mut pieces = create_backup(b"/backups", BACKUP);
        for part in data.chunks(chunk) {
            pieces.update(part);
        }
        pieces.update(b"");
        assert_eq!(pieces.size(), 20_000);
        let pieces = pieces.finish();
        assert_eq!(pieces.checksum, whole.checksum, "in chunks of {chunk}");
        assert_eq!(pieces.size, 20_000);
    }
    assert_eq!(whole.checksum.len(), 40);
    assert!(whole.checksum.iter().all(|c| c.is_ascii_digit() || (b'a'..=b'f').contains(c)));
}

#[test]
fn restore_puts_directories_and_files_back() {
    let dir = entry("world/", EntryKind::Directory);
    assert_eq!(
        restore_backup(b"/srv/s1", &dir, true),
        RestoreAction::CreateDirectory {
            path: b("/srv/s1/world/"),
            mode: 0o700,
            uid: Some(988),
            gid: Some(989),
        }
    );
    let file = entry("world/level.dat", EntryKind::Regular);
    assert_eq!(
        restore_backup(b"/srv/s1", &file, true),
        RestoreAction::WriteFile {
            path: b("/srv/s1/world/level.dat"),
            parent: b("/srv/s1/world"),
            mode: 0o700,
            mtime: Some(1_650_000_000),
            log: b("(restoring): world/level.dat"),
        }
    );
}

#[test]
fn backup_round_trip_of_places_and_metadata() {
    let walked = [
        ("/srv/s1/world", true, 0o755, 1_600_000_000u64),
        ("/srv/s1/world/level.dat", false, 0o640, 1_600_000_001),
        ("/srv/s1/.hidden", false, 0o600, 1_600_000_002),
        ("/srv/s1/plugins/essentials/config.yml", false, 0o644, 1_600_000_003),
    ];
    for (path, is_dir, mode, mtime) in walked {
        let member = member(b"/srv/s1", path.as_bytes(), is_dir).unwrap();
        let recorded = ArchiveEntry {
            path: Some(member.name.clone()),
            kind: if member.directory { EntryKind::Directory } else { EntryKind::Regular },
            mode: Some(mode),
            mtime: Some(mtime),
            uid: None,
            gid: None,
        };
        let (place, put_back_mode, put_back_mtime) =
            match restore_backup(b"/srv/other", &recorded, true) {
                RestoreAction::CreateDirectory { path, mode, .. } => (path, mode, None),
                RestoreAction::WriteFile { path, mode, mtime, .. } => (path, mode, mtime),
                RestoreAction::Skip => panic!("{path} was not put back"),
            };
        assert_eq!(wings_core::path::strip_prefix(&place, b"/srv/other"), Some(member.name));
        assert_eq!(put_back_mode, mode);
        if !is_dir {
            assert_eq!(put_back_mtime, Some(mtime));
        }
    }
}

#[test]
fn restore_falls_back_to_default_modes() {
    assert_eq!(DEFAULT_DIRECTORY_MODE, 0o755);
    assert_eq!(DEFAULT_FILE_MODE, 0o644);
    let mut dir = entry("plugins", EntryKind::Directory);
    dir.mode = None;
    dir.uid = None;
    dir.gid = None;
    assert_eq!(
        restore_backup(b"/srv/s1", &dir, true),
        RestoreAction::CreateDirectory { path: b("/srv/s1/plugins"), mode: 0o755, uid: None, gid: None }
    );
    let mut file = entry("server.properties", EntryKind::Regular);
    file.mode = None;
    file.mtime = None;
    assert_eq!(
        restore_backup(b"/srv/s1", &file, true),
        RestoreAction::WriteFile {
            path: b("/srv/s1/server.properties"),
            parent: b("/srv/s1"),
            mode: 0o644,
            mtime: None,
            log: b("(restoring): server.properties"),
        }
    );
}

#[test]
fn restore_narrows_owner_and_group() {
    let mut dir = entry("d", EntryKind::Directory);
    dir.uid = Some(0x1_0000_03DC);
    dir.gid = Some(u64::MAX);
    assert_eq!(
        restore_backup(b"/srv/s1", &dir, true),
        RestoreAction::CreateDirectory {
            path: b("/srv/s1/d"),
            mode: 0o700,
            uid: Some(0x3DC),
            gid: Some(u32::MAX),
        }
    );
}

#[test]
fn restore_skips_what_leaves_the_sandbox() {
    let absolute = entry("/etc/passwd", EntryKind::Regular);
    assert_eq!(restore_target(b"/srv/s1", &absolute), None);
    assert_eq!(restore_backup(b"/srv/s1", &absolute, true), RestoreAction::Skip);

    let climbing = entry("../s2/world/level.dat", EntryKind::Regular);
    assert_eq!(restore_target(b"/srv/s1", &climbing), None);
    assert_eq!(restore_backup(b"/srv/s1", &climbing, true), RestoreAction::Skip);

    let through_link = entry("link/secret", EntryKind::Regular);
    assert_eq!(restore_target(b"/srv/s1", &through_link), Some(b("/srv/s1/link/secret")));
    assert_eq!(restore_backup(b"/srv/s1", &through_link, false), RestoreAction::Skip);

    let mut nameless = entry("x", EntryKind::Regular);
    nameless.path = None;
    assert_eq!(restore_backup(b"/srv/s1", &nameless, true), RestoreAction::Skip);

    let inside = entry("world/level.dat", EntryKind::Regular);
    assert_eq!(restore_backup(b"srv/s1", &inside, true), RestoreAction::Skip);
    assert_eq!(restore_backup(b"", &inside, true), RestoreAction::Skip);

    let the_root_as_a_file = entry(".", EntryKind::Regular);
    assert_eq!(restore_backup(b"/srv/s1", &the_root_as_a_file, true), RestoreAction::Skip);
}

#[test]
fn restore_skips_other_kinds_of_entry() {
    let link = entry("current", EntryKind::Other);
    assert_eq!(restore_backup(b"/srv/s1", &link, true), RestoreAction::Skip);
}

#[test]
fn download_head() {
    let head = download_backup(BACKUP, 123_456);
    assert_eq!(head.status, 200);
    assert_eq!(
        head.content_disposition,
        b("attachment; filename=550e8400-e29b-41d4-a716-446655440000.tar.gz")
    );
    assert_eq!(head.content_type, "application/gzip");
    assert_eq!(head.content_length, 123_456);
}

#[test]
fn delete_is_idempotent() {
    let first = delete_backup(b"/backups", BACKUP, true);
    assert_eq!(first, Some(get_file_name(b"/backups", BACKUP)));
    for _ in 0..3 {
        assert_eq!(delete_backup(b"/backups", BACKUP, false), None);
    }
}

#[test]
fn backup_of_a_file_name() {
    assert_eq!(backup_of(b"550e8400-e29b-41d4-a716-446655440000.tar.gz"), Some(BACKUP));
    assert_eq!(backup_of(b"550e8400-e29b-41d4-a716-446655440000"), Some(BACKUP));
    assert_eq!(backup_of(b"550e8400-e29b-41d4-a716-446655440000.tar.gz.tar.gz"), Some(BACKUP));
    assert_eq!(backup_of(b"550E8400-E29B-41D4-A716-446655440000.tar.gz"), Some(BACKUP));
    assert_eq!(backup_of(b"550e8400e29b41d4a716446655440000.tar.gz"), Some(BACKUP));
    assert_eq!(backup_of(b"not-a-uuid.tar.gz"), None);
    assert_eq!(backup_of(b"550e8400-e29b-41d4-a716-446655440001.tar.gz.part"), None);
    assert_eq!(backup_of(b"550e8400-e29b-41d4-a716-44665544000.tar.gz"), None);
    assert_eq!(backup_of(b".tar.gz"), None);
    assert_eq!(backup_of(b""), None);
    assert_eq!(backup_of(&[0xff, 0xfe]), None);
}

#[test]
fn backup_list() {
    let names = vec![
        b("550e8400-e29b-41d4-a716-446655440000.tar.gz"),
        b("not-a-uuid.tar.gz"),
        b("550e8400-e29b-41d4-a716-446655440001.tar.gz.part"),
    ];
    assert_eq!(list_backups(&names), vec![BACKUP]);
}

#[test]
fn backups_from_what_the_names_were_read_as() {
    assert_eq!(backups_from(&vec![]), Vec::<u128>::new());
    assert_eq!(backups_from(&vec![None, None]), Vec::<u128>::new());
    assert_eq!(backups_from(&vec![Some(3), None, Some(1), Some(3), None]), vec![3, 1, 3]);
    assert_eq!(backups_from(&vec![None, Some(BACKUP)]), vec![BACKUP]);
}

#[test]
fn every_backup_is_found_under_its_own_file_name() {
    for uuid in [0u128, 1, BACKUP, u128::MAX, 0xabcdef00_0000_0000_0000_0000_00fedcba] {
        let path = get_file_name(b"/backups", uuid);
        let name = wings_core::path::file_name(&path).unwrap();
        assert_eq!(backup_of(&name), Some(uuid));
    }
}

#[test]
fn only_texts_of_four_lengths_spell_a_uuid() {
    let digits = "550e8400e29b41d4a716446655440000";
    for len in 0..50usize {
        let text = digits.repeat(2)[..len].to_string();
        if backup_of(text.as_bytes()).is_some() {
            assert!([32, 36, 38, 45].contains(&len), "a text of {len} bytes was read");
        }
    }
    assert_eq!(backup_of(digits.as_bytes()), Some(BACKUP));
    assert_eq!(backup_of(b"{550e8400-e29b-41d4-a716-446655440000}"), Some(BACKUP));
    assert_eq!(backup_of(b"urn:uuid:550e8400-e29b-41d4-a716-446655440000"), Some(BACKUP));
}

#[test]
fn backup_list_keeps_the_order_of_the_directory() {
    let names = vec![
        b("ffffffff-ffff-ffff-ffff-ffffffffffff.tar.gz"),
        b("lost+found"),
        b("00000000-0000-0000-0000-000000000001.tar.gz"),
        b("00000000-0000-0000-0000-000000000001.tar.gz"),
    ];
    assert_eq!(list_backups(&names), vec![u128::MAX, 1, 1]);
    assert_eq!(list_backups(&Vec::new()), Vec::<u128>::new());
}

#[test]
fn a_created_backup_is_listed() {
    let path = get_file_name(b"/backups", BACKUP);
    let name = wings_core::path::file_name(&path).unwrap();
    assert_eq!(list_backups(&vec![name]), vec![BACKUP]);
}
