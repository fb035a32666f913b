//! A model of Unix paths as byte strings.
//!
//! A path is read as a list of *segments*: the maximal runs of bytes between
//! separators, with empty runs and `.` left out. `..` is an ordinary segment
//! at this level; [`resolved`] gives it its meaning.

use vstd::prelude::*;
use crate::text::{find_last, last_index_of, opt_view, to_vec};

pub mod laws;

verus! {

/// The path separator, `/`.
pub const SEPARATOR: u8 = 0x2f;

/// The byte `.`.
pub const DOT: u8 = 0x2e;

/// The segment `..`.
pub open spec fn parent_segment() -> Seq<u8> {
    seq![DOT, DOT]
}

/// A path is absolute where it begins with a separator.
pub open spec fn is_absolute_path(p: Seq<u8>) -> bool {
    p.len() > 0 && p[0] == SEPARATOR
}

/// Whether `p` is absolute.
pub fn is_absolute(p: &[u8]) -> (r: bool)
    ensures
        r == is_absolute_path(p@),
{
    p.len() > 0 && p[0] == SEPARATOR
}

/// `rel` adjoined to `base`: an absolute `rel` replaces `base`; otherwise a
/// separator is put between the two unless `base` is empty or already ends
/// with one.
pub open spec fn joined(base: Seq<u8>, rel: Seq<u8>) -> Seq<u8> {
    if is_absolute_path(rel) {
        rel
    } else if base.len() > 0 && base.last() != SEPARATOR {
        base.push(SEPARATOR) + rel
    } else {
        base + rel
    }
}

/// Adjoins `rel` to `base`.
pub fn join(base: &[u8], rel: &[u8]) -> (r: Vec<u8>)
    ensures
        r@ == joined(base@, rel@),
{
    if is_absolute(rel) {
        return to_vec(rel);
    }
    let mut r = to_vec(base);
    if base.len() > 0 && base[base.len() - 1] != SEPARATOR {
        r.push(SEPARATOR);
    }
    r.extend_from_slice(rel);
    r
}

/// A run of bytes that is no segment: the empty run and `.`.
pub open spec fn is_skipped(piece: Seq<u8>) -> bool {
    piece.len() == 0 || piece == seq![DOT]
}

/// A finished run as a list of zero or one segments.
pub open spec fn kept(piece: Seq<u8>) -> Seq<Seq<u8>> {
    if is_skipped(piece) {
        Seq::empty()
    } else {
        seq![piece]
    }
}

/// Reads `p` from left to right: the segments finished so far, and the run
/// that the last byte belongs to.
pub open spec fn scanned(p: Seq<u8>) -> (Seq<Seq<u8>>, Seq<u8>)
    decreases p.len(),
{
    if p.len() == 0 {
        (Seq::empty(), Seq::empty())
    } else {
        let (done, run) = scanned(p.drop_last());
        if p.last() == SEPARATOR {
            (done + kept(run), Seq::empty())
        } else {
            (done, run.push(p.last()))
        }
    }
}

/// The segments of `p`.
pub open spec fn segments(p: Seq<u8>) -> Seq<Seq<u8>> {
    scanned(p).0 + kept(scanned(p).1)
}

/// The views of a vector of byte strings.
pub open spec fn views(v: Seq<Vec<u8>>) -> Seq<Seq<u8>> {
    Seq::new(v.len(), |i: int| v[i]@)
}

fn is_skipped_run(run: &Vec<u8>) -> (r: bool)
    ensures
        r == is_skipped(run@),
{
    if run.len() == 0 {
        true
    } else if run.len() == 1 && run[0] == DOT {
        assert(run@ =~= seq![DOT]);
        true
    } else {
        assert(run@.len() == 1 ==> run@[0] != DOT);
        assert(seq![DOT][0] == DOT);
        false
    }
}

/// Splits `p` into its segments.
pub fn split(p: &[u8]) -> (r: Vec<Vec<u8>>)
    ensures
        views(r@) == segments(p@),
{
    let mut done: Vec<Vec<u8>> = Vec::new();
    let mut run: Vec<u8> = Vec::new();
    let mut i: usize = 0;
    assert(p@.take(0) =~= Seq::<u8>::empty());
    while i < p.len()
        invariant
            i <= p@.len(),
            scanned(p@.take(i as int)) == (views(done@), run@),
        decreases p@.len() - i,
    {
        let ghost before = p@.take(i as int);
        let ghost upto = p@.take(i + 1);
        assert(upto.drop_last() =~= before);
        assert(upto.last() == p@[i as int]);
        if p[i] == SEPARATOR {
            if !is_skipped_run(&run) {
                let ghost old_done = done@;
                done.push(run);
                assert(views(done@) =~= views(old_done) + kept(run@));
            } else {
                assert(views(done@) =~= views(done@) + kept(run@));
            }
            run = Vec::new();
        } else {
            run.push(p[i]);
        }
        i += 1;
    }
    assert(p@.take(i as int) =~= p@);
    if !is_skipped_run(&run) {
        let ghost old_done = done@;
        done.push(run);
        assert(views(done@) =~= views(old_done) + kept(run@));
    } else {
        assert(views(done@) =~= views(done@) + kept(run@));
    }
    done
}

/// Gives `..` its meaning: it removes the segment before it, and where there
/// is none it is dropped, as `/..` is `/`.
pub open spec fn resolved(segs: Seq<Seq<u8>>) -> Seq<Seq<u8>>
    decreases segs.len(),
{
    if segs.len() == 0 {
        Seq::empty()
    } else {
        let init = resolved(segs.drop_last());
        if segs.last() == parent_segment() {
            if init.len() > 0 {
                init.drop_last()
            } else {
                init
            }
        } else {
            init.push(segs.last())
        }
    }
}

fn is_parent_segment(seg: &[u8]) -> (r: bool)
    ensures
        r == (seg@ == parent_segment()),
{
    if seg.len() == 2 && seg[0] == DOT && seg[1] == DOT {
        assert(seg@ =~= parent_segment());
        true
    } else {
        assert(parent_segment().len() == 2 && parent_segment()[0] == DOT && parent_segment()[1]
            == DOT);
        false
    }
}

/// Resolves the `..` segments of a list of segments.
pub fn resolve(segs: &Vec<Vec<u8>>) -> (r: Vec<Vec<u8>>)
    ensures
        views(r@) == resolved(views(segs@)),
{
    let mut out: Vec<Vec<u8>> = Vec::new();
    let mut i: usize = 0;
    assert(views(segs@).take(0) =~= Seq::<Seq<u8>>::empty());
    while i < segs.len()
        invariant
            i <= segs@.len(),
            views(out@) == resolved(views(segs@).take(i as int)),
        decreases segs@.len() - i,
    {
        let ghost upto = views(segs@).take(i + 1);
        assert(upto.drop_last() =~= views(segs@).take(i as int));
        assert(upto.last() == segs@[i as int]@);
        let ghost old_out = out@;
        if is_parent_segment(segs[i].as_slice()) {
            if out.len() > 0 {
                out.pop();
                assert(views(out@) =~= views(old_out).drop_last());
            }
        } else {
            out.push(to_vec(segs[i].as_slice()));
            assert(views(out@) =~= views(old_out).push(segs@[i as int]@));
        }
        i += 1;
    }
    assert(views(segs@).take(i as int) =~= views(segs@));
    out
}

/// The segments written one after another, each behind a separator.
pub open spec fn spliced(segs: Seq<Seq<u8>>) -> Seq<u8>
    decreases segs.len(),
{
    if segs.len() == 0 {
        Seq::empty()
    } else {
        spliced(segs.drop_last()).push(SEPARATOR) + segs.last()
    }
}

/// The text of the absolute path with the given segments; `/` where there
/// are none.
pub open spec fn rooted(segs: Seq<Seq<u8>>) -> Seq<u8> {
    if segs.len() == 0 {
        seq![SEPARATOR]
    } else {
        spliced(segs)
    }
}

/// The text of the relative path with the given segments; empty where there
/// are none.
pub open spec fn unrooted(segs: Seq<Seq<u8>>) -> Seq<u8> {
    if segs.len() == 0 {
        Seq::empty()
    } else {
        spliced(segs).drop_first()
    }
}

fn splice(segs: &Vec<Vec<u8>>) -> (r: Vec<u8>)
    ensures
        r@ == spliced(views(segs@)),
{
    let mut out: Vec<u8> = Vec::new();
    let mut i: usize = 0;
    assert(views(segs@).take(0) =~= Seq::<Seq<u8>>::empty());
    while i < segs.len()
        invariant
            i <= segs@.len(),
            out@ == spliced(views(segs@).take(i as int)),
        decreases segs@.len() - i,
    {
        let ghost upto = views(segs@).take(i + 1);
        assert(upto.drop_last() =~= views(segs@).take(i as int));
        assert(upto.last() == segs@[i as int]@);
        out.push(SEPARATOR);
        out.extend_from_slice(segs[i].as_slice());
        i += 1;
    }
    assert(views(segs@).take(i as int) =~= views(segs@));
    out
}

/// Writes the absolute path with the given segments.
pub fn render_rooted(segs: &Vec<Vec<u8>>) -> (r: Vec<u8>)
    ensures
        r@ == rooted(views(segs@)),
{
    if segs.len() == 0 {
        let mut out: Vec<u8> = Vec::new();
        out.push(SEPARATOR);
        assert(out@ =~= seq![SEPARATOR]);
        out
    } else {
        splice(segs)
    }
}

/// Writes the relative path with the given segments.
pub fn render_unrooted(segs: &Vec<Vec<u8>>) -> (r: Vec<u8>)
    ensures
        r@ == unrooted(views(segs@)),
{
    if segs.len() == 0 {
        Vec::new()
    } else {
        let all = splice(segs);
        proof {
            lemma_spliced_starts_with_separator(views(segs@));
        }
        let r = to_vec(&all[1..all.len()]);
        assert(r@ =~= all@.drop_first());
        r
    }
}

/// A non-empty splice begins with a separator.
pub proof fn lemma_spliced_starts_with_separator(segs: Seq<Seq<u8>>)
    requires
        segs.len() > 0,
    ensures
        spliced(segs).len() > 0,
        spliced(segs)[0] == SEPARATOR,
    decreases segs.len(),
{
    if segs.len() > 1 {
        lemma_spliced_starts_with_separator(segs.drop_last());
    } else {
        assert(spliced(segs.drop_last()) =~= Seq::<u8>::empty());
    }
}

/// The normal form of a path read from the filesystem root: absolute, with
/// single separators and neither `.` nor `..`.
pub open spec fn normalized(p: Seq<u8>) -> Seq<u8> {
    rooted(resolved(segments(p)))
}

/// Brings a path, read from the filesystem root, into normal form without
/// looking at any filesystem.
pub fn resolve_path(p: &[u8]) -> (r: Vec<u8>)
    ensures
        r@ == normalized(p@),
{
    let segs = split(p);
    let kept = resolve(&segs);
    render_rooted(&kept)
}

/// The place that `p` names, read from the filesystem root, lies at or below
/// the place that `root` names: the resolved segments of `root` begin those
/// of `p`.
pub open spec fn below(root: Seq<u8>, p: Seq<u8>) -> bool {
    resolved(segments(root)).is_prefix_of(resolved(segments(p)))
}

/// `p` is an absolute path that lies at or below `root`.
pub open spec fn within(root: Seq<u8>, p: Seq<u8>) -> bool {
    is_absolute_path(p) && below(root, p)
}

/// Whether the segment list `head` begins the list `all`.
pub fn begins(head: &Vec<Vec<u8>>, all: &Vec<Vec<u8>>) -> (r: bool)
    ensures
        r == views(head@).is_prefix_of(views(all@)),
{
    if head.len() > all.len() {
        return false;
    }
    let mut i: usize = 0;
    while i < head.len()
        invariant
            i <= head@.len(),
            head@.len() <= all@.len(),
            forall|j: int| 0 <= j < i ==> head@[j]@ == all@[j]@,
        decreases head@.len() - i,
    {
        if !crate::text::same_bytes(head[i].as_slice(), all[i].as_slice()) {
            assert(views(head@)[i as int] != views(all@)[i as int]);
            assert(views(all@).subrange(0, views(head@).len() as int)[i as int] == views(all@)[i as int]);
            return false;
        }
        i += 1;
    }
    assert(views(head@) =~= views(all@).subrange(0, views(head@).len() as int));
    true
}

/// Whether `p` is an absolute path at or below `root`, by the text of the
/// two alone.
pub fn is_within(root: &[u8], p: &[u8]) -> (r: bool)
    ensures
        r == within(root@, p@),
{
    if !is_absolute(p) {
        return false;
    }
    let root_segs = resolve(&split(root));
    let segs = resolve(&split(p));
    begins(&root_segs, &segs)
}

/// The final segment of `p`; none where `p` has no segment or ends in `..`.
pub open spec fn file_name_of(p: Seq<u8>) -> Option<Seq<u8>> {
    let segs = segments(p);
    if segs.len() > 0 && segs.last() != parent_segment() {
        Some(segs.last())
    } else {
        None
    }
}

/// The final segment of `p`.
pub fn file_name(p: &[u8]) -> (r: Option<Vec<u8>>)
    ensures
        opt_view(r) == file_name_of(p@),
{
    let mut segs = split(p);
    match segs.pop() {
        Some(last) => {
            if is_parent_segment(last.as_slice()) {
                None
            } else {
                Some(last)
            }
        },
        None => None,
    }
}

/// What follows the last `.` of a file name, where that `.` is not the
/// name's first byte.
pub open spec fn extension_of_name(name: Seq<u8>) -> Option<Seq<u8>> {
    match last_index_of(name, DOT) {
        Some(i) => if i > 0 {
            Some(name.skip(i + 1))
        } else {
            None
        },
        None => None,
    }
}

/// What stands before the extension of a file name; the whole name where it
/// has none.
pub open spec fn stem_of_name(name: Seq<u8>) -> Seq<u8> {
    match last_index_of(name, DOT) {
        Some(i) => if i > 0 {
            name.take(i)
        } else {
            name
        },
        None => name,
    }
}

/// The extension of the file name of `p`.
pub open spec fn extension_of(p: Seq<u8>) -> Option<Seq<u8>> {
    match file_name_of(p) {
        Some(name) => extension_of_name(name),
        None => None,
    }
}

/// The stem of the file name of `p`.
pub open spec fn file_stem_of(p: Seq<u8>) -> Option<Seq<u8>> {
    match file_name_of(p) {
        Some(name) => Some(stem_of_name(name)),
        None => None,
    }
}

/// The extension of the file name of `p`.
pub fn extension(p: &[u8]) -> (r: Option<Vec<u8>>)
    ensures
        opt_view(r) == extension_of(p@),
{
    match file_name(p) {
        Some(name) => {
            match find_last(name.as_slice(), DOT) {
                Some(i) => {
                    let n = name.len();
                    if i > 0 {
                        let ext = to_vec(&name[i + 1..n]);
                        assert(ext@ =~= name@.skip(i + 1));
                        Some(ext)
                    } else {
                        None
                    }
                },
                None => None,
            }
        },
        None => None,
    }
}

/// The stem of the file name of `p`.
pub fn file_stem(p: &[u8]) -> (r: Option<Vec<u8>>)
    ensures
        opt_view(r) == file_stem_of(p@),
{
    match file_name(p) {
        Some(name) => {
            match find_last(name.as_slice(), DOT) {
                Some(i) => {
                    if i > 0 {
                        let stem = to_vec(&name[0..i]);
                        assert(stem@ =~= name@.take(i as int));
                        Some(stem)
                    } else {
                        Some(name)
                    }
                },
                None => Some(name),
            }
        },
        None => None,
    }
}

/// The text of the path with the given segments, absolute or relative.
pub open spec fn rebuilt(absolute: bool, segs: Seq<Seq<u8>>) -> Seq<u8> {
    if absolute {
        rooted(segs)
    } else {
        unrooted(segs)
    }
}

/// The path of the directory that holds the final segment of `p`; none where
/// `p` has no segment.
pub open spec fn parent_of(p: Seq<u8>) -> Option<Seq<u8>> {
    let segs = segments(p);
    if segs.len() == 0 {
        None
    } else {
        Some(rebuilt(is_absolute_path(p), segs.drop_last()))
    }
}

/// The directory that holds the final segment of `p`.
pub fn parent(p: &[u8]) -> (r: Option<Vec<u8>>)
    ensures
        opt_view(r) == parent_of(p@),
{
    let mut segs = split(p);
    let ghost all = segs@;
    if segs.len() == 0 {
        return None;
    }
    segs.pop();
    assert(views(segs@) =~= views(all).drop_last());
    if is_absolute(p) {
        Some(render_rooted(&segs))
    } else {
        Some(render_unrooted(&segs))
    }
}

/// `p` with the leading segments `base` taken off, as a relative path; none
/// where `p` does not begin with the segments of `base` or only one of the
/// two is absolute.
pub open spec fn stripped(p: Seq<u8>, base: Seq<u8>) -> Option<Seq<u8>> {
    if is_absolute_path(p) == is_absolute_path(base) && segments(base).is_prefix_of(segments(p)) {
        Some(unrooted(segments(p).skip(segments(base).len() as int)))
    } else {
        None
    }
}

/// Takes the leading segments `base` off `p`.
pub fn strip_prefix(p: &[u8], base: &[u8]) -> (r: Option<Vec<u8>>)
    ensures
        opt_view(r) == stripped(p@, base@),
{
    if is_absolute(p) != is_absolute(base) {
        return None;
    }
    let segs = split(p);
    let head = split(base);
    if !begins(&head, &segs) {
        return None;
    }
    let mut rest: Vec<Vec<u8>> = Vec::new();
    let mut i: usize = head.len();
    assert(views(segs@).subrange(head@.len() as int, i as int) =~= Seq::<Seq<u8>>::empty());
    while i < segs.len()
        invariant
            head@.len() <= i <= segs@.len(),
            views(rest@) == views(segs@).subrange(head@.len() as int, i as int),
        decreases segs@.len() - i,
    {
        let ghost old_rest = rest@;
        rest.push(to_vec(segs[i].as_slice()));
        assert(views(rest@) =~= views(old_rest).push(segs@[i as int]@));
        assert(views(segs@).subrange(head@.len() as int, i + 1) =~= views(segs@).subrange(
            head@.len() as int,
            i as int,
        ).push(segs@[i as int]@));
        i += 1;
    }
    assert(views(segs@).subrange(head@.len() as int, i as int) =~= views(segs@).skip(
        head@.len() as int,
    ));
    Some(render_unrooted(&rest))
}

} // verus!
