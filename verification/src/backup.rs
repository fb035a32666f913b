//! Backups of a server's files: where an archive lives, what goes into it,
//! what is reported about it, and how it is put back.
//!
//! A backup is the file `<uuid>.tar.gz` in the backup directory. Walking the
//! sandbox, writing the tar and reading it back are the caller's work; the
//! naming, the choice of members, the checksum bookkeeping and the rules of a
//! restore are here.

use vstd::prelude::*;
use crate::api::OK;
use crate::archive::extract::{ArchiveEntry, ArchiveEntryView, EntryKind};
use crate::digest::{absorbed, sha1_digest, sha1_finalize, sha1_new, sha1_update, Sha1Stream};
use crate::encode::{hex_digit, hex_digits, hex_encode, hex_of_bytes, lemma_hex_digits_len};
use crate::ident::{hyphenated, parse_uuid_text, to_hyphenated, uuid_of_text};
use crate::path::laws::{
    all_proper, lemma_resolved_append, lemma_segments_of_joined, lemma_segments_of_rooted,
    lemma_segments_of_unrooted, lemma_segments_proper, no_parent, proper,
};
use crate::path::{
    is_absolute, is_absolute_path, is_within, join, joined, lemma_spliced_starts_with_separator,
    parent, parent_of, parent_segment, resolved, rooted, segments, strip_prefix, stripped,
    unrooted, views, within,
};
use crate::text::{ascii, bytes_of, opt_view, to_vec, trim_end_matches, without_trailing};

verus! {

/// The name of a backup's file: the hyphenated uuid, then `.tar.gz`.
pub open spec fn archive_name(uuid: u128) -> Seq<u8> {
    hyphenated(uuid) + ascii(".tar.gz")
}

/// The path of a backup's file inside the backup directory.
pub open spec fn file_name_of(backup_directory: Seq<u8>, uuid: u128) -> Seq<u8> {
    joined(backup_directory, archive_name(uuid))
}

/// The path of the file that holds the backup `uuid`.
pub fn get_file_name(backup_directory: &[u8], uuid: u128) -> (r: Vec<u8>)
    ensures
        r@ == file_name_of(backup_directory@, uuid),
{
    proof {
        reveal_strlit(".tar.gz");
    }
    let mut name = to_hyphenated(uuid);
    name.extend_from_slice(bytes_of(".tar.gz"));
    join(backup_directory, name.as_slice())
}

/// How the sandbox is walked and recorded when a backup is made.
#[derive(Clone, Copy, Debug, PartialEq, Eq)]
pub struct WalkPolicy {
    /// The name of the per-directory file whose patterns exclude files.
    pub ignore_file: &'static str,
    /// Whether the walk, and the archive, follow symbolic links.
    pub follow_links: bool,
    /// Whether the user's global git excludes apply.
    pub git_global: bool,
    /// Whether files whose name begins with a dot are left out.
    pub skip_hidden: bool,
    /// Whether owner, group, mode and times are recorded as they are.
    pub complete_metadata: bool,
}

/// The policy of every backup: `.pteroignore` is honoured, links are not
/// followed, git's global excludes do not apply, hidden files are included,
/// and metadata is recorded completely.
pub fn walk_policy() -> (r: WalkPolicy)
    ensures
        r == (WalkPolicy {
            ignore_file: ".pteroignore",
            follow_links: false,
            git_global: false,
            skip_hidden: false,
            complete_metadata: true,
        }),
{
    WalkPolicy {
        ignore_file: ".pteroignore",
        follow_links: false,
        git_global: false,
        skip_hidden: false,
        complete_metadata: true,
    }
}

/// One member of a backup archive.
#[derive(Clone, Debug, PartialEq, Eq)]
pub struct Member {
    /// The member's path inside the archive, relative to the sandbox root.
    pub name: Vec<u8>,
    pub directory: bool,
}

/// The archive member for a walked path: the path relative to the sandbox
/// root, for whatever lies at or below it.
pub fn member(base_path: &[u8], path: &[u8], is_dir: bool) -> (r: Option<Member>)
    ensures
        match stripped(path@, base_path@) {
            Some(name) => r is Some && r->0.name@ == name && r->0.directory == is_dir,
            None => r is None,
        },
{
    match strip_prefix(path, base_path) {
        Some(name) => Some(Member { name, directory: is_dir }),
        None => None,
    }
}

/// One uploaded part of a backup that went to remote storage.
#[derive(Clone, Debug, PartialEq, Eq)]
pub struct BackupPart {
    pub etag: Vec<u8>,
    pub part_number: u64,
}

/// What is reported to the panel about a finished backup.
#[derive(Clone, Debug, PartialEq, Eq)]
pub struct RawServerBackup {
    /// The checksum of the archive, in lower-case hexadecimal.
    pub checksum: Vec<u8>,
    /// The name of the checksum algorithm.
    pub checksum_type: &'static str,
    /// The length of the archive in bytes.
    pub size: u64,
    pub successful: bool,
    /// The parts of a multi-part upload; empty for a local backup.
    pub parts: Vec<BackupPart>,
}

/// A backup in the making: where its archive is written, and the running
/// checksum and length of the archive's bytes as they are read back.
pub struct Backup {
    file_name: Vec<u8>,
    stream: Sha1Stream,
    size: u64,
}

impl Backup {
    /// The path of the archive.
    pub closed spec fn file(&self) -> Seq<u8> {
        self.file_name@
    }

    /// The bytes of the archive that have been read back so far.
    pub closed spec fn bytes(&self) -> Seq<u8> {
        absorbed(self.stream)
    }

    /// The length that is kept beside the checksum.
    pub closed spec fn counted(&self) -> nat {
        self.size as nat
    }

    /// The invariant of the type: the length counts exactly the bytes that
    /// went into the checksum.
    pub open spec fn wf(&self) -> bool {
        self.counted() == self.bytes().len()
    }

    /// The path of the archive.
    pub fn file_name(&self) -> (r: &Vec<u8>)
        ensures
            r@ == self.file(),
    {
        &self.file_name
    }

    /// The number of bytes read back so far.
    pub fn size(&self) -> (r: u64)
        ensures
            r == self.counted(),
    {
        self.size
    }

    /// Takes in the next chunk of the archive's bytes.
    pub fn update(&mut self, chunk: &[u8])
        requires
            old(self).wf(),
            old(self).counted() + chunk@.len() <= u64::MAX,
        ensures
            final(self).wf(),
            final(self).file() == old(self).file(),
            final(self).bytes() == old(self).bytes() + chunk@,
    {
        sha1_update(&mut self.stream, chunk);
        self.size = self.size + chunk.len() as u64;
    }

    /// Closes the backup and reports on it: the checksum is the SHA-1 of
    /// exactly the bytes whose number is reported as the size.
    pub fn finish(self) -> (r: RawServerBackup)
        requires
            self.wf(),
        ensures
            r.checksum@ == hex_of_bytes(sha1_digest(self.bytes())),
            r.checksum@.len() == 40,
            r.checksum_type == "sha1",
            r.size == self.bytes().len(),
            r.successful,
            r.parts@.len() == 0,
    {
        let digest = sha1_finalize(self.stream);
        let checksum = hex_encode(digest.as_slice());
        proof {
            crate::encode::lemma_hex_of_bytes_len(digest@);
        }
        RawServerBackup {
            checksum,
            checksum_type: "sha1",
            size: self.size,
            successful: true,
            parts: Vec::new(),
        }
    }
}

/// Begins the backup `uuid`: names its archive and starts its checksum.
pub fn create_backup(backup_directory: &[u8], uuid: u128) -> (r: Backup)
    ensures
        r.wf(),
        r.file() == file_name_of(backup_directory@, uuid),
        r.bytes() == Seq::<u8>::empty(),
{
    Backup { file_name: get_file_name(backup_directory, uuid), stream: sha1_new(), size: 0 }
}

/// The permission bits of a restored directory whose archive entry records
/// none.
pub const DEFAULT_DIRECTORY_MODE: u32 = 0o755;

/// The permission bits of a restored file whose archive entry records none.
pub const DEFAULT_FILE_MODE: u32 = 0o644;

/// What a restore does with one entry of the archive.
#[derive(Clone, Debug, PartialEq, Eq)]
pub enum RestoreAction {
    /// Pass over the entry.
    Skip,
    /// Create the directory and those above it, set its permission bits,
    /// and hand it to the recorded owner and group as far as that succeeds.
    CreateDirectory { path: Vec<u8>, mode: u32, uid: Option<u32>, gid: Option<u32> },
    /// Write `log` to the server's console, create the directories down to
    /// `parent`, and write the entry's content to `path` with the given
    /// permission bits and modification time.
    WriteFile { path: Vec<u8>, parent: Vec<u8>, mode: u32, mtime: Option<u64>, log: Vec<u8> },
}

/// The mathematical content of a [`RestoreAction`].
pub ghost enum RestoreActionView {
    Skip,
    CreateDirectory { path: Seq<u8>, mode: u32, uid: Option<u32>, gid: Option<u32> },
    WriteFile { path: Seq<u8>, parent: Seq<u8>, mode: u32, mtime: Option<u64>, log: Seq<u8> },
}

impl View for RestoreAction {
    type V = RestoreActionView;

    open spec fn view(&self) -> RestoreActionView {
        match *self {
            RestoreAction::Skip => RestoreActionView::Skip,
            RestoreAction::CreateDirectory { path, mode, uid, gid } => {
                RestoreActionView::CreateDirectory { path: path@, mode, uid, gid }
            },
            RestoreAction::WriteFile { path, parent, mode, mtime, log } => {
                RestoreActionView::WriteFile { path: path@, parent: parent@, mode, mtime, log: log@ }
            },
        }
    }
}

/// A recorded owner or group as the 32-bit id that the system takes: the
/// low 32 bits.
pub open spec fn narrowed(id: Option<u64>) -> Option<u32> {
    match id {
        Some(v) => Some((v % 0x1_0000_0000) as u32),
        None => None,
    }
}

/// The recorded permission bits, or `default` where none are recorded.
pub open spec fn mode_or(mode: Option<u32>, default: u32) -> u32 {
    match mode {
        Some(m) => m,
        None => default,
    }
}

/// The console line that announces the restore of a file.
pub open spec fn restore_log(path: Seq<u8>) -> Seq<u8> {
    ascii("(restoring): ") + path
}

/// The action that a restore into the sandbox at `base_path` takes on one
/// entry.
///
/// An entry without a name, with an absolute name, or whose target leaves
/// the sandbox is passed over; `safe` is the verdict of the filesystem on
/// the target, with links followed. Directories and regular files are put
/// back with their recorded metadata; every other kind is passed over.
pub open spec fn restored(base_path: Seq<u8>, entry: ArchiveEntryView, safe: bool) -> RestoreActionView {
    match entry.path {
        None => RestoreActionView::Skip,
        Some(p) => {
            let target = joined(base_path, p);
            if is_absolute_path(p) || !within(base_path, target) || !safe {
                RestoreActionView::Skip
            } else {
                match entry.kind {
                    EntryKind::Directory => RestoreActionView::CreateDirectory {
                        path: target,
                        mode: mode_or(entry.mode, DEFAULT_DIRECTORY_MODE),
                        uid: narrowed(entry.uid),
                        gid: narrowed(entry.gid),
                    },
                    EntryKind::Regular => match parent_of(target) {
                        Some(dir) => if within(base_path, dir) {
                            RestoreActionView::WriteFile {
                                path: target,
                                parent: dir,
                                mode: mode_or(entry.mode, DEFAULT_FILE_MODE),
                                mtime: entry.mtime,
                                log: restore_log(p),
                            }
                        } else {
                            RestoreActionView::Skip
                        },
                        None => RestoreActionView::Skip,
                    },
                    EntryKind::Other => RestoreActionView::Skip,
                }
            }
        },
    }
}

fn narrow(id: Option<u64>) -> (r: Option<u32>)
    ensures
        r == narrowed(id),
{
    match id {
        Some(v) => Some((v % 0x1_0000_0000) as u32),
        None => None,
    }
}

/// Where a restore would put an entry, before anything is known about the
/// filesystem: the target of an entry with a relative name that stays
/// inside the sandbox.
pub fn restore_target(base_path: &[u8], entry: &ArchiveEntry) -> (r: Option<Vec<u8>>)
    ensures
        opt_view(r) == match entry@.path {
            Some(p) => if !is_absolute_path(p) && within(base_path@, joined(base_path@, p)) {
                Some(joined(base_path@, p))
            } else {
                None
            },
            None => None,
        },
{
    match &entry.path {
        Some(p) => {
            if is_absolute(p.as_slice()) {
                return None;
            }
            let target = join(base_path, p.as_slice());
            if is_within(base_path, target.as_slice()) {
                Some(target)
            } else {
                None
            }
        },
        None => None,
    }
}

/// The places that a restore action touches all lie inside the sandbox.
pub open spec fn restore_contained(base_path: Seq<u8>, action: RestoreActionView) -> bool {
    match action {
        RestoreActionView::Skip => true,
        RestoreActionView::CreateDirectory { path, .. } => within(base_path, path),
        RestoreActionView::WriteFile { path, parent, .. } => within(base_path, path) && within(
            base_path,
            parent,
        ),
    }
}

/// Whatever an archive holds and whatever the filesystem says, a restore
/// touches nothing outside the sandbox.
pub proof fn lemma_restore_contained(base_path: Seq<u8>, entry: ArchiveEntryView, safe: bool)
    ensures
        restore_contained(base_path, restored(base_path, entry, safe)),
{
}

/// A restore puts a regular file back with the permission bits and the
/// modification time that the archive recorded for it, and a directory with
/// its permission bits, owner and group.
pub proof fn lemma_restore_keeps_metadata(base_path: Seq<u8>, entry: ArchiveEntryView, safe: bool)
    ensures
        match restored(base_path, entry, safe) {
            RestoreActionView::Skip => true,
            RestoreActionView::CreateDirectory { path, mode, uid, gid } => {
                &&& entry.path is Some
                &&& path == joined(base_path, entry.path->0)
                &&& entry.mode is Some ==> mode == entry.mode->0
                &&& uid == narrowed(entry.uid)
                &&& gid == narrowed(entry.gid)
            },
            RestoreActionView::WriteFile { path, mode, mtime, .. } => {
                &&& entry.path is Some
                &&& path == joined(base_path, entry.path->0)
                &&& entry.mode is Some ==> mode == entry.mode->0
                &&& mtime == entry.mtime
            },
        },
{
}

/// Round trip of a place: what a backup records for a path below the root
/// of one sandbox, a restore puts back at the same position below the root
/// of another, a file with its recorded permission bits and time and a
/// directory with its recorded permission bits.
///
/// `path` is a path as the walk of the sandbox hands it out, without `..`,
/// and lies strictly below `source_root`.
pub proof fn lemma_backup_round_trip(
    source_root: Seq<u8>,
    target_root: Seq<u8>,
    path: Seq<u8>,
    directory: bool,
    mode: u32,
    mtime: u64,
)
    requires
        is_absolute_path(target_root),
        no_parent(segments(path)),
        stripped(path, source_root) is Some,
        segments(path).len() > segments(source_root).len(),
    ensures
        ({
            let name = stripped(path, source_root)->0;
            let entry = ArchiveEntryView {
                path: Some(name),
                kind: if directory {
                    EntryKind::Directory
                } else {
                    EntryKind::Regular
                },
                mode: Some(mode),
                mtime: Some(mtime),
                uid: None,
                gid: None,
            };
            match restored(target_root, entry, true) {
                RestoreActionView::Skip => false,
                RestoreActionView::CreateDirectory { path: place, mode: m, .. } => {
                    &&& directory
                    &&& m == mode
                    &&& stripped(place, target_root) == Some(name)
                },
                RestoreActionView::WriteFile { path: place, mode: m, mtime: t, .. } => {
                    &&& !directory
                    &&& m == mode
                    &&& t == Some(mtime)
                    &&& stripped(place, target_root) == Some(name)
                },
            }
        }),
{
    let below = segments(path).skip(segments(source_root).len() as int);
    let name = unrooted(below);
    let root_segments = segments(target_root);
    lemma_segments_proper(path);
    lemma_segments_proper(target_root);
    assert(all_proper(below) && no_parent(below)) by {
        assert forall|i: int| 0 <= i < below.len() implies proper(#[trigger] below[i]) && below[i]
            != parent_segment() by {
            assert(below[i] == segments(path)[i + segments(source_root).len()]);
        }
    }
    lemma_segments_of_unrooted(below);
    let target = joined(target_root, name);
    lemma_segments_of_joined(target_root, name);
    lemma_resolved_append(root_segments, below);
    assert(resolved(root_segments).is_prefix_of(resolved(root_segments) + below));
    assert(is_absolute_path(target));
    assert(within(target_root, target));
    assert((root_segments + below).skip(root_segments.len() as int) =~= below);
    assert(root_segments.is_prefix_of(root_segments + below));
    assert(stripped(target, target_root) == Some(name));
    if !directory {
        let above = (root_segments + below).drop_last();
        assert(above =~= root_segments + below.drop_last());
        assert(all_proper(above) && no_parent(below.drop_last())) by {
            assert forall|i: int| 0 <= i < above.len() implies proper(#[trigger] above[i]) by {
                if i < root_segments.len() {
                    assert(above[i] == root_segments[i]);
                } else {
                    assert(above[i] == below[i - root_segments.len()]);
                }
            }
            assert forall|i: int| 0 <= i < below.drop_last().len() implies #[trigger] below.drop_last()[i]
                != parent_segment() by {
                assert(below.drop_last()[i] == below[i]);
            }
        }
        lemma_segments_of_rooted(above);
        lemma_resolved_append(root_segments, below.drop_last());
        assert(resolved(root_segments).is_prefix_of(resolved(root_segments) + below.drop_last()));
        assert(parent_of(target) == Some(rooted(above)));
        if above.len() > 0 {
            lemma_spliced_starts_with_separator(above);
        }
        assert(within(target_root, rooted(above)));
    }
}

/// Decides what a restore does with `entry`.
///
/// The caller asks the filesystem whether [`restore_target`] of the entry
/// lies inside the sandbox with links followed, and passes the answer as
/// `safe`; for an entry without a target the flag is not read.
pub fn restore_backup(base_path: &[u8], entry: &ArchiveEntry, safe: bool) -> (r: RestoreAction)
    ensures
        r@ == restored(base_path@, entry@, safe),
        restore_contained(base_path@, r@),
{
    let target = match restore_target(base_path, entry) {
        Some(t) => t,
        None => {
            return RestoreAction::Skip;
        },
    };
    if !safe {
        return RestoreAction::Skip;
    }
    match entry.kind {
        EntryKind::Directory => {
            let mode = match entry.mode {
                Some(m) => m,
                None => DEFAULT_DIRECTORY_MODE,
            };
            RestoreAction::CreateDirectory {
                path: target,
                mode,
                uid: narrow(entry.uid),
                gid: narrow(entry.gid),
            }
        },
        EntryKind::Regular => {
            match parent(target.as_slice()) {
                Some(dir) => {
                    if !is_within(base_path, dir.as_slice()) {
                        return RestoreAction::Skip;
                    }
                    let mode = match entry.mode {
                        Some(m) => m,
                        None => DEFAULT_FILE_MODE,
                    };
                    proof {
                        reveal_strlit("(restoring): ");
                    }
                    let mut log = to_vec(bytes_of("(restoring): "));
                    match &entry.path {
                        Some(p) => {
                            log.extend_from_slice(p.as_slice());
                            assert(log@ =~= restore_log(p@));
                        },
                        None => {},
                    }
                    RestoreAction::WriteFile {
                        path: target,
                        parent: dir,
                        mode,
                        mtime: entry.mtime,
                        log,
                    }
                },
                None => RestoreAction::Skip,
            }
        },
        EntryKind::Other => RestoreAction::Skip,
    }
}

/// The head of the answer that hands a backup's archive to a client.
#[derive(Clone, Debug, PartialEq, Eq)]
pub struct Download {
    pub status: u16,
    /// The value of `Content-Disposition`.
    pub content_disposition: Vec<u8>,
    /// The value of `Content-Type`.
    pub content_type: &'static str,
    /// The value of `Content-Length`.
    pub content_length: u64,
}

/// Answers a download of the backup `uuid` whose archive is `len` bytes
/// long: the archive is sent as an attachment named after the backup.
pub fn download_backup(uuid: u128, len: u64) -> (r: Download)
    ensures
        r.status == OK,
        r.content_disposition@ == ascii("attachment; filename=") + archive_name(uuid),
        r.content_type == "application/gzip",
        r.content_length == len,
{
    proof {
        reveal_strlit("attachment; filename=");
        reveal_strlit(".tar.gz");
    }
    let mut disposition = to_vec(bytes_of("attachment; filename="));
    disposition.extend_from_slice(to_hyphenated(uuid).as_slice());
    disposition.extend_from_slice(bytes_of(".tar.gz"));
    assert(disposition@ =~= ascii("attachment; filename=") + archive_name(uuid));
    Download {
        status: OK,
        content_disposition: disposition,
        content_type: "application/gzip",
        content_length: len,
    }
}

/// Decides what deleting the backup `uuid` has to do: remove its archive
/// where one is present, and nothing otherwise. Either way the deletion
/// succeeds.
pub fn delete_backup(backup_directory: &[u8], uuid: u128, present: bool) -> (r: Option<Vec<u8>>)
    ensures
        opt_view(r) == if present {
            Some(file_name_of(backup_directory@, uuid))
        } else {
            None
        },
{
    if present {
        Some(get_file_name(backup_directory, uuid))
    } else {
        None
    }
}

/// The backup that a file of the backup directory holds: the uuid that its
/// name spells once every trailing `.tar.gz` is taken off.
pub open spec fn backup_of_file(name: Seq<u8>) -> Option<u128> {
    uuid_of_text(without_trailing(name, ascii(".tar.gz")))
}

/// The values that are there, in order.
pub open spec fn present(parsed: Seq<Option<u128>>) -> Seq<u128>
    decreases parsed.len(),
{
    if parsed.len() == 0 {
        Seq::empty()
    } else {
        match parsed.last() {
            Some(uuid) => present(parsed.drop_last()).push(uuid),
            None => present(parsed.drop_last()),
        }
    }
}

/// What each file of a directory holds, in the order of the files.
pub open spec fn backups_of_files(names: Seq<Seq<u8>>) -> Seq<Option<u128>> {
    Seq::new(names.len(), |i: int| backup_of_file(names[i]))
}

/// The backups among the files of a directory, in the order of the files.
pub open spec fn backups_among(names: Seq<Seq<u8>>) -> Seq<u128> {
    present(backups_of_files(names))
}

/// What is known of the reading of a file name: only a name that is 32,
/// 36, 38 or 45 bytes long without its `.tar.gz` holds a backup, and the
/// name that [`get_file_name`] gives the backup `u` holds `u`.
pub open spec fn read_as_named(name: Seq<u8>) -> bool {
    let text = without_trailing(name, ascii(".tar.gz"));
    &&& backup_of_file(name) is Some ==> text.len() == 32 || text.len() == 36 || text.len() == 38
        || text.len() == 45
    &&& forall|u: u128| name == #[trigger] archive_name(u) ==> backup_of_file(name) == Some(u)
}

/// The name of a backup's archive ends in one `.tar.gz`: with it taken
/// off, the hyphenated uuid is left.
pub proof fn lemma_archive_name_trims(uuid: u128)
    ensures
        without_trailing(archive_name(uuid), ascii(".tar.gz")) == hyphenated(uuid),
{
    reveal_strlit(".tar.gz");
    let suffix = ascii(".tar.gz");
    let text = hyphenated(uuid);
    let name = archive_name(uuid);
    let digits = hex_digits(uuid as nat, 32);
    lemma_hex_digits_len(uuid as nat, 32);
    lemma_hex_digits_len(uuid as nat / 16, 31);
    assert(suffix.len() == 7 && suffix[6] == 0x7a);
    assert(text.len() == 36);
    assert(text[35] == digits[31]);
    assert(digits[31] == hex_digit(uuid as nat % 16));
    assert(suffix =~= name.subrange(name.len() - 7, name.len() as int));
    assert(name.subrange(0, name.len() - 7) =~= text);
    assert(!suffix.is_suffix_of(text)) by {
        if suffix.is_suffix_of(text) {
            assert(text.subrange(29, 36)[6] == text[35]);
        }
    }
    reveal_with_fuel(without_trailing, 3);
}

/// The backup that the file `name` holds, if its name is that of one.
pub fn backup_of(name: &[u8]) -> (r: Option<u128>)
    ensures
        r == backup_of_file(name@),
        read_as_named(name@),
{
    proof {
        reveal_strlit(".tar.gz");
    }
    let r = parse_uuid_text(trim_end_matches(name, bytes_of(".tar.gz")));
    proof {
        assert forall|u: u128| name@ == #[trigger] archive_name(u) implies r == Some(u) by {
            lemma_archive_name_trims(u);
        }
    }
    r
}

/// Picks out the backups among what the files of a directory were read as.
pub fn backups_from(parsed: &Vec<Option<u128>>) -> (r: Vec<u128>)
    ensures
        r@ == present(parsed@),
{
    let mut backups: Vec<u128> = Vec::new();
    let mut i: usize = 0;
    assert(parsed@.take(0) =~= Seq::<Option<u128>>::empty());
    while i < parsed.len()
        invariant
            i <= parsed@.len(),
            backups@ == present(parsed@.take(i as int)),
        decreases parsed@.len() - i,
    {
        proof {
            let upto = parsed@.take(i + 1);
            assert(upto.drop_last() =~= parsed@.take(i as int));
            assert(upto.last() == parsed@[i as int]);
        }
        match parsed[i] {
            Some(uuid) => {
                backups.push(uuid);
            },
            None => {},
        }
        i += 1;
    }
    assert(parsed@.take(i as int) =~= parsed@);
    backups
}

/// Lists the backups in a directory, given the names of its files.
pub fn list_backups(names: &Vec<Vec<u8>>) -> (r: Vec<u128>)
    ensures
        r@ == backups_among(views(names@)),
        forall|i: int| 0 <= i < names@.len() ==> read_as_named(#[trigger] views(names@)[i]),
{
    let mut parsed: Vec<Option<u128>> = Vec::new();
    let mut i: usize = 0;
    while i < names.len()
        invariant
            i <= names@.len(),
            parsed@.len() == i,
            forall|j: int| 0 <= j < i ==> parsed@[j] == backup_of_file(views(names@)[j]),
            forall|j: int| 0 <= j < i ==> read_as_named(#[trigger] views(names@)[j]),
        decreases names@.len() - i,
    {
        parsed.push(backup_of(names[i].as_slice()));
        i += 1;
    }
    assert(parsed@ =~= backups_of_files(views(names@)));
    backups_from(&parsed)
}

} // verus!
