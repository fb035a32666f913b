//! What extraction does with each entry of an archive.
//!
//! Reading the archive and writing the files is the caller's work. The rules
//! are here: which entries are passed over, where an entry lands, and which
//! metadata is put back.

use vstd::prelude::*;
use crate::archive::{Archive, ArchiveType};
use crate::path::{
    file_stem, file_stem_of, is_absolute, is_absolute_path, join, joined, parent, parent_of,
    within,
};
use crate::sandbox::Sandbox;
use crate::text::{opt_view, to_vec};

verus! {

/// The kinds of archive entry that extraction tells apart.
#[derive(Clone, Copy, Debug, PartialEq, Eq, Structural)]
pub enum EntryKind {
    Directory,
    Regular,
    /// Links, devices, fifos and whatever else an archive may hold.
    Other,
}

/// One entry of a tar or zip archive, as far as extraction reads it.
#[derive(Clone, Debug, PartialEq, Eq)]
pub struct ArchiveEntry {
    /// The entry's path inside the archive; absent where the archive yields
    /// no usable name for it.
    pub path: Option<Vec<u8>>,
    pub kind: EntryKind,
    /// The permission bits recorded for the entry, if any.
    pub mode: Option<u32>,
    /// The modification time recorded for the entry, in seconds since the
    /// epoch, if any.
    pub mtime: Option<u64>,
    /// The numeric owner recorded for the entry, if any.
    pub uid: Option<u64>,
    /// The numeric group recorded for the entry, if any.
    pub gid: Option<u64>,
}

/// The mathematical content of an [`ArchiveEntry`].
pub ghost struct ArchiveEntryView {
    pub path: Option<Seq<u8>>,
    pub kind: EntryKind,
    pub mode: Option<u32>,
    pub mtime: Option<u64>,
    pub uid: Option<u64>,
    pub gid: Option<u64>,
}

impl View for ArchiveEntry {
    type V = ArchiveEntryView;

    open spec fn view(&self) -> ArchiveEntryView {
        ArchiveEntryView {
            path: opt_view(self.path),
            kind: self.kind,
            mode: self.mode,
            mtime: self.mtime,
            uid: self.uid,
            gid: self.gid,
        }
    }
}

/// What to do with one entry.
#[derive(Clone, Debug, PartialEq, Eq)]
pub enum EntryAction {
    /// Pass over the entry.
    Skip,
    /// Create the directory `path` and every missing directory above it.
    CreateDirectory { path: Vec<u8> },
    /// Create the directories down to `parent`, then write the entry's
    /// content to `path` with the given permission bits and modification
    /// time.
    WriteFile { path: Vec<u8>, parent: Vec<u8>, mode: Option<u32>, mtime: Option<u64> },
}

/// The mathematical content of an [`EntryAction`].
pub ghost enum EntryActionView {
    Skip,
    CreateDirectory { path: Seq<u8> },
    WriteFile { path: Seq<u8>, parent: Seq<u8>, mode: Option<u32>, mtime: Option<u64> },
}

impl View for EntryAction {
    type V = EntryActionView;

    open spec fn view(&self) -> EntryActionView {
        match *self {
            EntryAction::Skip => EntryActionView::Skip,
            EntryAction::CreateDirectory { path } => EntryActionView::CreateDirectory { path: path@ },
            EntryAction::WriteFile { path, parent, mode, mtime } => EntryActionView::WriteFile {
                path: path@,
                parent: parent@,
                mode,
                mtime,
            },
        }
    }
}

/// Where an entry lands below `destination`: nowhere where it has no name
/// or an absolute one, or where it would leave the sandbox.
pub open spec fn entry_target(
    sandbox_root: Seq<u8>,
    destination: Seq<u8>,
    entry: ArchiveEntryView,
) -> Option<Seq<u8>> {
    match entry.path {
        Some(p) => if !is_absolute_path(p) && within(sandbox_root, joined(destination, p)) {
            Some(joined(destination, p))
        } else {
            None
        },
        None => None,
    }
}

/// The action that extraction takes on one entry.
///
/// `ignored` says whether the ignore rules of the sandbox match the entry's
/// target. Directories are created, regular files are written with their
/// recorded mode, and with their recorded time where the archive is a tar;
/// every other kind of entry is passed over.
pub open spec fn planned(
    archive: ArchiveType,
    sandbox_root: Seq<u8>,
    destination: Seq<u8>,
    entry: ArchiveEntryView,
    ignored: bool,
) -> EntryActionView {
    match entry_target(sandbox_root, destination, entry) {
        None => EntryActionView::Skip,
        Some(target) => {
            if ignored || archive == ArchiveType::SingleFile {
                EntryActionView::Skip
            } else {
                match entry.kind {
                    EntryKind::Directory => EntryActionView::CreateDirectory { path: target },
                    EntryKind::Regular => match parent_of(target) {
                        Some(dir) => if within(sandbox_root, dir) {
                            EntryActionView::WriteFile {
                                path: target,
                                parent: dir,
                                mode: entry.mode,
                                mtime: if archive == ArchiveType::Tar {
                                    entry.mtime
                                } else {
                                    None
                                },
                            }
                        } else {
                            EntryActionView::Skip
                        },
                        None => EntryActionView::Skip,
                    },
                    EntryKind::Other => EntryActionView::Skip,
                }
            }
        },
    }
}

/// The places that an action touches all lie inside the sandbox.
pub open spec fn contained(sandbox_root: Seq<u8>, action: EntryActionView) -> bool {
    match action {
        EntryActionView::Skip => true,
        EntryActionView::CreateDirectory { path } => within(sandbox_root, path),
        EntryActionView::WriteFile { path, parent, .. } => within(sandbox_root, path) && within(
            sandbox_root,
            parent,
        ),
    }
}

/// Whatever an archive holds, extraction touches nothing outside the
/// sandbox: neither `..` nor an absolute name leads out.
pub proof fn lemma_extraction_contained(
    archive: ArchiveType,
    sandbox_root: Seq<u8>,
    destination: Seq<u8>,
    entry: ArchiveEntryView,
    ignored: bool,
)
    ensures
        contained(sandbox_root, planned(archive, sandbox_root, destination, entry, ignored)),
{
}

/// Where the single stream of an archive without a container is written:
/// `destination` joined with the stem of the archive's own file name.
pub open spec fn single_file_target(path: Seq<u8>, destination: Seq<u8>) -> Seq<u8> {
    match file_stem_of(path) {
        Some(stem) => joined(destination, stem),
        None => destination,
    }
}

/// Where an entry lands below `destination`.
pub fn target_of(sandbox: &Sandbox, destination: &[u8], entry: &ArchiveEntry) -> (r: Option<
    Vec<u8>,
>)
    requires
        sandbox.wf(),
    ensures
        opt_view(r) == entry_target(sandbox.root(), destination@, entry@),
{
    match &entry.path {
        Some(p) => {
            if is_absolute(p.as_slice()) {
                return None;
            }
            let target = join(destination, p.as_slice());
            if sandbox.is_safe_path(target.as_slice()) {
                Some(target)
            } else {
                None
            }
        },
        None => None,
    }
}

impl Archive {
    /// Decides what extraction into `destination` does with `entry`.
    ///
    /// The caller asks the sandbox whether [`target_of`] the entry is ignored
    /// and passes the answer as `ignored`; for an entry without a target the
    /// flag is not read.
    pub fn extract(
        &self,
        sandbox: &Sandbox,
        destination: &[u8],
        entry: &ArchiveEntry,
        ignored: bool,
    ) -> (r: EntryAction)
        requires
            sandbox.wf(),
        ensures
            r@ == planned(self.archive, sandbox.root(), destination@, entry@, ignored),
            contained(sandbox.root(), r@),
    {
        let target = match target_of(sandbox, destination, entry) {
            Some(t) => t,
            None => {
                return EntryAction::Skip;
            },
        };
        if ignored || self.archive == ArchiveType::SingleFile {
            return EntryAction::Skip;
        }
        match entry.kind {
            EntryKind::Directory => EntryAction::CreateDirectory { path: target },
            EntryKind::Regular => {
                match parent(target.as_slice()) {
                    Some(dir) => {
                        if !sandbox.is_safe_path(dir.as_slice()) {
                            return EntryAction::Skip;
                        }
                        let mtime = if self.archive == ArchiveType::Tar {
                            entry.mtime
                        } else {
                            None
                        };
                        EntryAction::WriteFile { path: target, parent: dir, mode: entry.mode, mtime }
                    },
                    None => EntryAction::Skip,
                }
            },
            EntryKind::Other => EntryAction::Skip,
        }
    }

    /// Where the decoded stream of an archive without a container goes:
    /// nowhere for a tar or a zip, and nowhere where the place would lie
    /// outside the sandbox.
    ///
    /// Such an archive has no entries; its whole content is one file, named
    /// after the archive with the last extension taken off.
    pub fn single_file_destination(&self, sandbox: &Sandbox, destination: &[u8]) -> (r: Option<
        Vec<u8>,
    >)
        requires
            sandbox.wf(),
        ensures
            opt_view(r) == if self.archive == ArchiveType::SingleFile && within(
                sandbox.root(),
                single_file_target(self.path@, destination@),
            ) {
                Some(single_file_target(self.path@, destination@))
            } else {
                None
            },
    {
        if self.archive != ArchiveType::SingleFile {
            return None;
        }
        let target = match file_stem(self.path.as_slice()) {
            Some(stem) => join(destination, stem.as_slice()),
            None => to_vec(destination),
        };
        if sandbox.is_safe_path(target.as_slice()) {
            Some(target)
        } else {
            None
        }
    }
}

} // verus!
