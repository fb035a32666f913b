//! The boundary of a server's sandbox.
//!
//! A sandbox is the directory tree below one absolute root. Paths that come
//! from outside are never trusted: they are joined onto the root, brought
//! into normal form, and refused unless they still lie below the root.
//!
//! Everything here is decided on the text of a path. Symbolic links are a
//! matter of the filesystem; a caller that follows links hands the path it
//! arrived at to [`Sandbox::is_safe_path`].

use vstd::prelude::*;
use crate::path::laws::{lemma_normalized_idempotent, lemma_within_normalized};
use crate::path::{
    begins, below, is_absolute, join, joined, normalized, render_rooted, render_unrooted,
    resolve, resolved, segments, split, unrooted, views, within,
};
use crate::text::{opt_view, to_vec};

verus! {

/// The path that a virtual path `rel` names inside the sandbox at `root`,
/// in normal form; none where it would lie outside.
pub open spec fn safe(root: Seq<u8>, rel: Seq<u8>) -> Option<Seq<u8>> {
    if below(root, joined(root, rel)) {
        Some(normalized(joined(root, rel)))
    } else {
        None
    }
}

/// The position of `p` inside the sandbox at `root`, as a relative path;
/// none where `p` lies outside.
pub open spec fn relative_to(root: Seq<u8>, p: Seq<u8>) -> Option<Seq<u8>> {
    if within(root, p) {
        Some(unrooted(resolved(segments(p)).skip(resolved(segments(root)).len() as int)))
    } else {
        None
    }
}

/// The root of one server's files.
pub struct Sandbox {
    root: Vec<u8>,
    root_segments: Vec<Vec<u8>>,
}

impl Sandbox {
    /// The root as it was given.
    pub closed spec fn root(&self) -> Seq<u8> {
        self.root@
    }

    /// The invariant of the type: the resolved segments of the root are kept
    /// beside it.
    pub closed spec fn wf(&self) -> bool {
        views(self.root_segments@) == resolved(segments(self.root@))
    }

    /// The sandbox rooted at `root`.
    pub fn new(root: &[u8]) -> (r: Sandbox)
        ensures
            r.wf(),
            r.root() == root@,
    {
        let segs = split(root);
        let kept = resolve(&segs);
        Sandbox { root: to_vec(root), root_segments: kept }
    }

    /// The root in normal form.
    pub fn base_path(&self) -> (r: Vec<u8>)
        requires
            self.wf(),
        ensures
            r@ == normalized(self.root()),
    {
        render_rooted(&self.root_segments)
    }

    /// Resolves the virtual path `rel` against the root without consulting
    /// the filesystem. The result, where there is one, is in normal form and
    /// lies at or below the root.
    pub fn safe_path(&self, rel: &[u8]) -> (r: Option<Vec<u8>>)
        requires
            self.wf(),
        ensures
            opt_view(r) == safe(self.root(), rel@),
            r matches Some(p) ==> within(self.root(), p@) && normalized(p@) == p@,
    {
        let candidate = join(self.root.as_slice(), rel);
        let segs = resolve(&split(candidate.as_slice()));
        if begins(&self.root_segments, &segs) {
            proof {
                lemma_safe_is_contained(self.root(), rel@);
            }
            Some(render_rooted(&segs))
        } else {
            None
        }
    }

    /// Whether `abs` is an absolute path at or below the root.
    pub fn is_safe_path(&self, abs: &[u8]) -> (r: bool)
        requires
            self.wf(),
        ensures
            r == within(self.root(), abs@),
    {
        if !is_absolute(abs) {
            return false;
        }
        let segs = resolve(&split(abs));
        begins(&self.root_segments, &segs)
    }

    /// The position of `abs` relative to the root, which is all that the
    /// ignore rules of a sandbox ever see of a path.
    pub fn relative(&self, abs: &[u8]) -> (r: Option<Vec<u8>>)
        requires
            self.wf(),
        ensures
            opt_view(r) == relative_to(self.root(), abs@),
    {
        if !is_absolute(abs) {
            return None;
        }
        let segs = resolve(&split(abs));
        if !begins(&self.root_segments, &segs) {
            return None;
        }
        let mut rest: Vec<Vec<u8>> = Vec::new();
        let start = self.root_segments.len();
        let mut i: usize = start;
        assert(views(segs@).subrange(start as int, i as int) =~= Seq::<Seq<u8>>::empty());
        while i < segs.len()
            invariant
                start <= i <= segs@.len(),
                views(rest@) == views(segs@).subrange(start as int, i as int),
            decreases segs@.len() - i,
        {
            let ghost old_rest = rest@;
            rest.push(to_vec(segs[i].as_slice()));
            assert(views(rest@) =~= views(old_rest).push(segs@[i as int]@));
            assert(views(segs@).subrange(start as int, i + 1) =~= views(segs@).subrange(
                start as int,
                i as int,
            ).push(segs@[i as int]@));
            i += 1;
        }
        assert(views(segs@).subrange(start as int, i as int) =~= views(segs@).skip(start as int));
        Some(render_unrooted(&rest))
    }
}

/// Containment: whatever virtual path is asked for, the answer is either
/// nothing or an absolute path in normal form that lies at or below the
/// root. No `..` and no absolute path leads out.
pub proof fn lemma_safe_is_contained(root: Seq<u8>, rel: Seq<u8>)
    ensures
        safe(root, rel) matches Some(p) ==> within(root, p) && normalized(p) == p,
{
    lemma_within_normalized(root, joined(root, rel));
    lemma_normalized_idempotent(joined(root, rel));
}

/// The empty virtual path names the root itself.
pub proof fn lemma_safe_root(root: Seq<u8>)
    ensures
        safe(root, Seq::empty()) == Some(normalized(root)),
{
    let cand = joined(root, Seq::empty());
    if root.len() > 0 && root.last() != crate::path::SEPARATOR {
        assert(cand =~= root.push(crate::path::SEPARATOR));
        assert(cand.drop_last() =~= root);
        assert(segments(cand) =~= segments(root));
    } else {
        assert(cand =~= root);
    }
}

} // verus!
