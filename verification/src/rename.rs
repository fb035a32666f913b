//! Renaming files inside the sandbox, one pair or many.
//!
//! A rename is refused unless both ends are safe, neither is the sandbox
//! root or the directory the request works in, the two differ, the source
//! exists, the target does not, and the ignore rules match neither.

use vstd::prelude::*;
use crate::api::{ApiError, EXPECTATION_FAILED, NOT_FOUND};
use crate::path::{begins, join, joined, normalized, resolve, resolve_path, resolved, segments, split, views, within};
use crate::sandbox::Sandbox;
use crate::text::{count_true, lemma_count_true_bound, string_bytes, utf8};

verus! {

/// One rename: the two ends as virtual paths below the request's root.
#[derive(Clone, Debug, PartialEq, Eq)]
pub struct RenameFile {
    pub to: String,
    pub from: String,
}

/// The body of a rename request.
#[derive(Clone, Debug, PartialEq, Eq)]
pub struct Payload {
    /// The directory that the renames are relative to, as a virtual path;
    /// empty for the sandbox root.
    pub root: String,
    pub files: Vec<RenameFile>,
}

/// The answer to a rename request.
#[derive(Clone, Copy, Debug, PartialEq, Eq, Structural)]
pub struct Response {
    /// How many of the renames were carried out.
    pub renamed: usize,
}

/// What the filesystem says about the two ends of a rename.
#[derive(Clone, Copy, Debug, PartialEq, Eq, Structural)]
pub struct RenameProbe {
    /// Whether the source, with links followed, lies inside the sandbox.
    pub from_safe: bool,
    /// Whether the target, with links followed, lies inside the sandbox.
    pub to_safe: bool,
    /// Whether the source is a directory; absent where it does not exist.
    pub from_is_dir: Option<bool>,
    /// Whether something stands at the target already.
    pub to_exists: bool,
    /// Whether the ignore rules of the sandbox match the source.
    pub from_ignored: bool,
    /// Whether the ignore rules of the sandbox match the target.
    pub to_ignored: bool,
}

/// The refusal that the request's root leads to, if any: "not found" where
/// it did not resolve inside the sandbox, "expectation failed" where it is
/// known not to be a directory.
pub open spec fn root_refusal(resolved: bool, is_dir: Option<bool>) -> Option<ApiError> {
    if !resolved {
        Some(ApiError { status: NOT_FOUND, message: "root not found" })
    } else if is_dir == Some(false) {
        Some(ApiError { status: EXPECTATION_FAILED, message: "root is not a directory" })
    } else {
        None
    }
}

/// The two ends of a rename, in normal form, for a request that works in
/// `root`.
pub open spec fn endpoints(root: Seq<u8>, file: RenameFile) -> (Seq<u8>, Seq<u8>) {
    (normalized(joined(root, utf8(file.from@))), normalized(joined(root, utf8(file.to@))))
}

/// Two paths that name the same place: their resolved segments agree.
pub open spec fn same_place(a: Seq<u8>, b: Seq<u8>) -> bool {
    resolved(segments(a)) == resolved(segments(b))
}

/// Whether the rename of `from` to `to` is carried out.
pub open spec fn rename_allowed(
    sandbox_root: Seq<u8>,
    root: Seq<u8>,
    from: Seq<u8>,
    to: Seq<u8>,
    probe: RenameProbe,
) -> bool {
    &&& within(sandbox_root, from) && probe.from_safe
    &&& !same_place(from, sandbox_root) && !same_place(from, root)
    &&& within(sandbox_root, to) && probe.to_safe
    &&& !same_place(to, sandbox_root) && !same_place(to, root)
    &&& !same_place(from, to)
    &&& probe.from_is_dir is Some
    &&& !probe.to_exists
    &&& !probe.from_ignored
    &&& !probe.to_ignored
}

/// A rename whose source or target is the sandbox root, or whose target
/// exists, is refused, whatever else holds.
pub proof fn lemma_rename_refusal(
    sandbox_root: Seq<u8>,
    root: Seq<u8>,
    from: Seq<u8>,
    to: Seq<u8>,
    probe: RenameProbe,
)
    requires
        from == sandbox_root || to == sandbox_root || probe.to_exists,
    ensures
        !rename_allowed(sandbox_root, root, from, to, probe),
{
}

/// A rename that leaves the sandbox is refused, whatever the filesystem
/// says.
pub proof fn lemma_rename_stays_inside(
    sandbox_root: Seq<u8>,
    root: Seq<u8>,
    from: Seq<u8>,
    to: Seq<u8>,
    probe: RenameProbe,
)
    requires
        rename_allowed(sandbox_root, root, from, to, probe),
    ensures
        within(sandbox_root, from),
        within(sandbox_root, to),
{
}

fn is_same_place(a: &Vec<Vec<u8>>, b: &Vec<Vec<u8>>) -> (r: bool)
    ensures
        r == (views(a@) == views(b@)),
{
    if a.len() != b.len() {
        return false;
    }
    let r = begins(a, b);
    proof {
        if r {
            assert(views(a@) =~= views(b@).subrange(0, views(a@).len() as int));
            assert(views(b@).subrange(0, views(b@).len() as int) =~= views(b@));
        } else if views(a@) == views(b@) {
            assert(views(b@).subrange(0, views(b@).len() as int) =~= views(b@));
        }
    }
    r
}

/// Decides whether `from` is renamed to `to`.
///
/// `root` is the directory that the request works in and `probe` what the
/// filesystem says about the two ends.
pub fn rename_path(sandbox: &Sandbox, root: &[u8], from: &[u8], to: &[u8], probe: RenameProbe) -> (r:
    bool)
    requires
        sandbox.wf(),
    ensures
        r == rename_allowed(sandbox.root(), root@, from@, to@, probe),
{
    if !probe.from_safe || !probe.to_safe {
        return false;
    }
    if probe.from_is_dir.is_none() || probe.to_exists || probe.from_ignored || probe.to_ignored {
        return false;
    }
    if !sandbox.is_safe_path(from) || !sandbox.is_safe_path(to) {
        return false;
    }
    let base = sandbox.base_path();
    proof {
        crate::path::laws::lemma_segments_of_normalized(sandbox.root());
    }
    let base_segments = resolve(&split(base.as_slice()));
    let root_segments = resolve(&split(root));
    let from_segments = resolve(&split(from));
    let to_segments = resolve(&split(to));
    if is_same_place(&from_segments, &base_segments) || is_same_place(
        &from_segments,
        &root_segments,
    ) {
        return false;
    }
    if is_same_place(&to_segments, &base_segments) || is_same_place(&to_segments, &root_segments) {
        return false;
    }
    !is_same_place(&from_segments, &to_segments)
}

/// Opens a rename request.
///
/// `root` is the place that the request's root resolved to inside the
/// sandbox, if it did, and `root_is_dir` whether that place is a directory,
/// where this could be read. A refused request is answered with its
/// refusal; otherwise the two ends of every rename are handed out, in the
/// order of the request.
pub fn route(root: Option<&[u8]>, root_is_dir: Option<bool>, payload: &Payload) -> (r: Result<
    Vec<(Vec<u8>, Vec<u8>)>,
    ApiError,
>)
    ensures
        match root_refusal(root is Some, root_is_dir) {
            Some(error) => r == Err::<Vec<(Vec<u8>, Vec<u8>)>, ApiError>(error),
            None => {
                &&& r is Ok
                &&& r->Ok_0@.len() == payload.files@.len()
                &&& forall|i: int|
                    0 <= i < payload.files@.len() ==> (#[trigger] r->Ok_0@[i].0@, r->Ok_0@[i].1@)
                        == endpoints(root->0@, payload.files@[i])
            },
        },
{
    let base = match root {
        Some(base) => base,
        None => {
            return Err(ApiError::not_found("root not found"));
        },
    };
    match root_is_dir {
        Some(is_dir) => {
            if !is_dir {
                return Err(ApiError::expectation_failed("root is not a directory"));
            }
        },
        None => {},
    }
    let mut pairs: Vec<(Vec<u8>, Vec<u8>)> = Vec::new();
    let mut i: usize = 0;
    while i < payload.files.len()
        invariant
            i <= payload.files@.len(),
            pairs@.len() == i,
            forall|j: int|
                0 <= j < i ==> (#[trigger] pairs@[j].0@, pairs@[j].1@) == endpoints(
                    base@,
                    payload.files@[j],
                ),
        decreases payload.files@.len() - i,
    {
        let file = &payload.files[i];
        let from = resolve_path(join(base, string_bytes(&file.from)).as_slice());
        let to = resolve_path(join(base, string_bytes(&file.to)).as_slice());
        pairs.push((from, to));
        i += 1;
    }
    Ok(pairs)
}

impl Response {
    /// Counts the renames that were carried out. `outcomes` holds one flag
    /// per rename of the request: whether it was allowed and then succeeded.
    pub fn of(outcomes: &[bool]) -> (r: Response)
        ensures
            r.renamed == count_true(outcomes@),
    {
        let mut renamed: usize = 0;
        let mut i: usize = 0;
        assert(outcomes@.take(0) =~= Seq::<bool>::empty());
        while i < outcomes.len()
            invariant
                i <= outcomes@.len(),
                renamed == count_true(outcomes@.take(i as int)),
                renamed <= i,
            decreases outcomes@.len() - i,
        {
            proof {
                assert(outcomes@.take(i + 1).drop_last() =~= outcomes@.take(i as int));
                lemma_count_true_bound(outcomes@.take(i + 1));
            }
            if outcomes[i] {
                renamed += 1;
            }
            i += 1;
        }
        assert(outcomes@.take(i as int) =~= outcomes@);
        Response { renamed }
    }
}

} // verus!
