//! What holds of the path model: segments are well formed, and the normal
//! form is a fixed point that keeps a path where it was.

use vstd::prelude::*;
use crate::path::{
    below, is_absolute_path, is_skipped, joined, kept, normalized, parent_segment, resolved,
    rooted, scanned, segments, spliced, unrooted, within, DOT, SEPARATOR,
};

verus! {

/// A well-formed segment: not empty, not `.`, and free of separators.
pub open spec fn proper(seg: Seq<u8>) -> bool {
    &&& seg.len() > 0
    &&& seg != seq![DOT]
    &&& !seg.contains(SEPARATOR)
}

/// Every element of the list is a well-formed segment.
pub open spec fn all_proper(segs: Seq<Seq<u8>>) -> bool {
    forall|i: int| 0 <= i < segs.len() ==> proper(#[trigger] segs[i])
}

/// No element of the list is `..`.
pub open spec fn no_parent(segs: Seq<Seq<u8>>) -> bool {
    forall|i: int| 0 <= i < segs.len() ==> #[trigger] segs[i] != parent_segment()
}

proof fn lemma_scanned_shape(p: Seq<u8>)
    ensures
        all_proper(scanned(p).0),
        !scanned(p).1.contains(SEPARATOR),
    decreases p.len(),
{
    if p.len() > 0 {
        lemma_scanned_shape(p.drop_last());
        let (done, run) = scanned(p.drop_last());
        if p.last() == SEPARATOR {
            assert(!is_skipped(run) ==> proper(run));
        } else {
            let next = run.push(p.last());
            assert forall|i: int| 0 <= i < next.len() implies next[i] != SEPARATOR by {
                if i < run.len() {
                    assert(run.contains(run[i]));
                }
            }
        }
    }
}

/// The segments of any path are well formed.
pub proof fn lemma_segments_proper(p: Seq<u8>)
    ensures
        all_proper(segments(p)),
{
    lemma_scanned_shape(p);
    let (done, run) = scanned(p);
    assert(!is_skipped(run) ==> proper(run));
}

proof fn lemma_scan_run(a: Seq<u8>, b: Seq<u8>)
    requires
        !b.contains(SEPARATOR),
    ensures
        scanned(a + b) == (scanned(a).0, scanned(a).1 + b),
    decreases b.len(),
{
    if b.len() == 0 {
        assert(a + b =~= a);
        assert(scanned(a).1 + b =~= scanned(a).1);
    } else {
        let init = b.drop_last();
        assert forall|i: int| 0 <= i < init.len() implies init[i] != SEPARATOR by {
            assert(b.contains(b[i]));
        }
        lemma_scan_run(a, init);
        assert((a + b).drop_last() =~= a + init);
        assert(b.contains(b.last()));
        assert((scanned(a).1 + init).push(b.last()) =~= scanned(a).1 + b);
    }
}

/// Splitting what [`spliced`] wrote gives the segments back.
pub proof fn lemma_segments_of_spliced(segs: Seq<Seq<u8>>)
    requires
        all_proper(segs),
    ensures
        segments(spliced(segs)) == segs,
    decreases segs.len(),
{
    if segs.len() == 0 {
        assert(segments(spliced(segs)) =~= segs);
    } else {
        let init = segs.drop_last();
        let last = segs.last();
        assert(all_proper(init)) by {
            assert forall|i: int| 0 <= i < init.len() implies proper(#[trigger] init[i]) by {
                assert(init[i] == segs[i]);
            }
        }
        lemma_segments_of_spliced(init);
        let head = spliced(init).push(SEPARATOR);
        assert(head.drop_last() =~= spliced(init));
        assert(scanned(head) == (segments(spliced(init)), Seq::<u8>::empty()));
        assert(proper(last));
        lemma_scan_run(head, last);
        assert(Seq::<u8>::empty() + last =~= last);
        assert(kept(last) =~= seq![last]);
        assert(init + seq![last] =~= segs);
    }
}

/// Splitting the text of an absolute path gives its segments back.
pub proof fn lemma_segments_of_rooted(segs: Seq<Seq<u8>>)
    requires
        all_proper(segs),
    ensures
        segments(rooted(segs)) == segs,
{
    if segs.len() == 0 {
        let root = seq![SEPARATOR];
        assert(root.drop_last() =~= Seq::<u8>::empty());
        assert(scanned(root.drop_last()) == (Seq::<Seq<u8>>::empty(), Seq::<u8>::empty()));
        assert(segments(root) =~= segs);
    } else {
        lemma_segments_of_spliced(segs);
    }
}

/// Resolving keeps only segments of the list it was given, and none of them
/// is `..`.
pub proof fn lemma_resolved_shape(segs: Seq<Seq<u8>>)
    ensures
        no_parent(resolved(segs)),
        all_proper(segs) ==> all_proper(resolved(segs)),
        resolved(segs).len() <= segs.len(),
    decreases segs.len(),
{
    if segs.len() > 0 {
        let init = segs.drop_last();
        lemma_resolved_shape(init);
        if all_proper(segs) {
            assert forall|i: int| 0 <= i < init.len() implies proper(#[trigger] init[i]) by {
                assert(init[i] == segs[i]);
            }
            assert(proper(segs[segs.len() - 1]));
        }
    }
}

/// A list without `..` is its own resolution.
pub proof fn lemma_resolved_without_parent(segs: Seq<Seq<u8>>)
    requires
        no_parent(segs),
    ensures
        resolved(segs) == segs,
    decreases segs.len(),
{
    if segs.len() == 0 {
        assert(resolved(segs) =~= segs);
    } else {
        let init = segs.drop_last();
        assert forall|i: int| 0 <= i < init.len() implies #[trigger] init[i]
            != parent_segment() by {
            assert(init[i] == segs[i]);
        }
        lemma_resolved_without_parent(init);
        assert(segs[segs.len() - 1] != parent_segment());
        assert(init.push(segs.last()) =~= segs);
    }
}

/// The segments of a normal form are the resolved segments of the path.
pub proof fn lemma_segments_of_normalized(p: Seq<u8>)
    ensures
        segments(normalized(p)) == resolved(segments(p)),
        resolved(segments(normalized(p))) == resolved(segments(p)),
{
    lemma_segments_proper(p);
    lemma_resolved_shape(segments(p));
    lemma_segments_of_rooted(resolved(segments(p)));
    lemma_resolved_without_parent(resolved(segments(p)));
}

/// Normalizing twice is normalizing once.
pub proof fn lemma_normalized_idempotent(p: Seq<u8>)
    ensures
        normalized(normalized(p)) == normalized(p),
{
    lemma_segments_of_normalized(p);
}

/// A normal form is an absolute path, and it lies below a root exactly
/// where the path it came from does.
pub proof fn lemma_within_normalized(root: Seq<u8>, p: Seq<u8>)
    ensures
        is_absolute_path(normalized(p)),
        within(root, normalized(p)) == below(root, p),
{
    lemma_segments_of_normalized(p);
    if resolved(segments(p)).len() > 0 {
        crate::path::lemma_spliced_starts_with_separator(resolved(segments(p)));
    }
}

proof fn lemma_scan_after_separator(a: Seq<u8>, b: Seq<u8>)
    ensures
        scanned(a.push(SEPARATOR) + b) == (segments(a) + scanned(b).0, scanned(b).1),
    decreases b.len(),
{
    let head = a.push(SEPARATOR);
    if b.len() == 0 {
        assert(head + b =~= head);
        assert(head.drop_last() =~= a);
        assert(segments(a) + scanned(b).0 =~= segments(a));
    } else {
        let init = b.drop_last();
        lemma_scan_after_separator(a, init);
        assert((head + b).drop_last() =~= head + init);
        assert((head + b).last() == b.last());
        if b.last() == SEPARATOR {
            assert((segments(a) + scanned(init).0) + kept(scanned(init).1) =~= segments(a) + (
            scanned(init).0 + kept(scanned(init).1)));
        }
    }
}

/// What stands on either side of a separator is split on its own.
pub proof fn lemma_segments_around_separator(a: Seq<u8>, b: Seq<u8>)
    ensures
        segments(a.push(SEPARATOR) + b) == segments(a) + segments(b),
        segments(a.push(SEPARATOR)) == segments(a),
{
    lemma_scan_after_separator(a, b);
    assert((segments(a) + scanned(b).0) + kept(scanned(b).1) =~= segments(a) + segments(b));
    lemma_scan_after_separator(a, Seq::empty());
    assert(a.push(SEPARATOR) + Seq::<u8>::empty() =~= a.push(SEPARATOR));
    assert(segments(a) + segments(Seq::<u8>::empty()) =~= segments(a));
}

/// Joining a relative path onto a base appends its segments to those of the
/// base.
pub proof fn lemma_segments_of_joined(base: Seq<u8>, rel: Seq<u8>)
    requires
        !is_absolute_path(rel),
    ensures
        segments(joined(base, rel)) == segments(base) + segments(rel),
{
    if base.len() == 0 {
        assert(base + rel =~= rel);
        assert(segments(base) + segments(rel) =~= segments(rel));
    } else if base.last() != SEPARATOR {
        lemma_segments_around_separator(base, rel);
    } else {
        let init = base.drop_last();
        assert(init.push(SEPARATOR) =~= base);
        lemma_segments_around_separator(init, rel);
    }
}

/// Splitting the text of a relative path gives its segments back, and the
/// text of at least one segment is a relative path.
pub proof fn lemma_segments_of_unrooted(segs: Seq<Seq<u8>>)
    requires
        all_proper(segs),
    ensures
        segments(unrooted(segs)) == segs,
        !is_absolute_path(unrooted(segs)),
        segs.len() > 0 ==> unrooted(segs).len() > 0,
{
    if segs.len() == 0 {
        assert(segments(unrooted(segs)) =~= segs);
    } else {
        lemma_segments_of_spliced(segs);
        crate::path::lemma_spliced_starts_with_separator(segs);
        let text = spliced(segs);
        let rest = unrooted(segs);
        assert(text =~= Seq::<u8>::empty().push(SEPARATOR) + rest);
        lemma_segments_around_separator(Seq::empty(), rest);
        assert(segments(Seq::<u8>::empty()) + segments(rest) =~= segments(rest));
        lemma_unrooted_begins_with_segment(segs);
    }
}

proof fn lemma_spliced_begins(segs: Seq<Seq<u8>>)
    requires
        segs.len() > 0,
    ensures
        (seq![SEPARATOR] + segs[0]).is_prefix_of(spliced(segs)),
    decreases segs.len(),
{
    if segs.len() == 1 {
        assert(spliced(segs.drop_last()) =~= Seq::<u8>::empty());
        assert(spliced(segs) =~= seq![SEPARATOR] + segs[0]);
    } else {
        lemma_spliced_begins(segs.drop_last());
        assert(segs.drop_last()[0] == segs[0]);
        let head = seq![SEPARATOR] + segs[0];
        let before = spliced(segs.drop_last());
        assert(head =~= before.subrange(0, head.len() as int));
        assert(head =~= spliced(segs).subrange(0, head.len() as int));
    }
}

proof fn lemma_unrooted_begins_with_segment(segs: Seq<Seq<u8>>)
    requires
        segs.len() > 0,
        all_proper(segs),
    ensures
        unrooted(segs).len() > 0,
        unrooted(segs)[0] != SEPARATOR,
{
    lemma_spliced_begins(segs);
    let head = seq![SEPARATOR] + segs[0];
    assert(proper(segs[0]));
    assert(head =~= spliced(segs).subrange(0, head.len() as int));
    assert(spliced(segs)[1] == head[1]);
    assert(head[1] == segs[0][0]);
    assert(segs[0].contains(segs[0][0]));
}

/// Segments without `..` that follow a list are untouched by resolving it.
pub proof fn lemma_resolved_append(a: Seq<Seq<u8>>, b: Seq<Seq<u8>>)
    requires
        no_parent(b),
    ensures
        resolved(a + b) == resolved(a) + b,
    decreases b.len(),
{
    if b.len() == 0 {
        assert(a + b =~= a);
        assert(resolved(a) + b =~= resolved(a));
    } else {
        let init = b.drop_last();
        assert forall|i: int| 0 <= i < init.len() implies #[trigger] init[i]
            != parent_segment() by {
            assert(init[i] == b[i]);
        }
        lemma_resolved_append(a, init);
        assert((a + b).drop_last() =~= a + init);
        assert((a + b).last() == b.last());
        assert(b[b.len() - 1] != parent_segment());
        assert((resolved(a) + init).push(b.last()) =~= resolved(a) + b);
    }
}

} // verus!
