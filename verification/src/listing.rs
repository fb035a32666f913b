//! Listing a directory of the sandbox: which requests are refused, which
//! entries are shown, and in what order.

use vstd::prelude::*;
use vstd::multiset::{
    group_multiset_axioms, group_multiset_properties, lemma_multiset_empty_len, Multiset,
};
use vstd::seq_lib::{to_multiset_build, to_multiset_insert, to_multiset_len};
use crate::api::{ApiError, EXPECTATION_FAILED, NOT_FOUND};

verus! {

broadcast use {group_multiset_axioms, group_multiset_properties};

proof fn lemma_nothing_in_empty<A>(s: Seq<A>)
    requires
        s.len() == 0,
    ensures
        s.to_multiset() == Multiset::<A>::empty(),
{
    to_multiset_len(s);
    lemma_multiset_empty_len(s.to_multiset());
}

/// The query of a listing request.
#[derive(Clone, Debug, PartialEq, Eq)]
pub struct Params {
    /// The directory to list, as a virtual path; empty for the sandbox root.
    pub directory: String,
}

/// One line of a listing.
#[derive(Clone, Debug, PartialEq, Eq)]
pub struct DirectoryEntry {
    pub name: Vec<u8>,
    pub directory: bool,
    pub file: bool,
    pub symlink: bool,
    /// The size in bytes.
    pub size: u64,
    /// The permission bits.
    pub mode: u32,
    /// The modification time, in seconds since the epoch.
    pub modified: u64,
}

/// The mathematical content of a [`DirectoryEntry`].
pub ghost struct DirectoryEntryView {
    pub name: Seq<u8>,
    pub directory: bool,
    pub file: bool,
    pub symlink: bool,
    pub size: u64,
    pub mode: u32,
    pub modified: u64,
}

impl View for DirectoryEntry {
    type V = DirectoryEntryView;

    open spec fn view(&self) -> DirectoryEntryView {
        DirectoryEntryView {
            name: self.name@,
            directory: self.directory,
            file: self.file,
            symlink: self.symlink,
            size: self.size,
            mode: self.mode,
            modified: self.modified,
        }
    }
}

/// The views of a list of entries.
pub open spec fn entry_views(entries: Seq<DirectoryEntry>) -> Seq<DirectoryEntryView> {
    Seq::new(entries.len(), |i: int| entries[i]@)
}

/// Lexicographic order on byte strings: the first differing byte decides,
/// and a proper prefix comes first.
pub open spec fn lex_le(a: Seq<u8>, b: Seq<u8>) -> bool
    decreases a.len(),
{
    if a.len() == 0 {
        true
    } else if b.len() == 0 {
        false
    } else if a[0] != b[0] {
        a[0] < b[0]
    } else {
        lex_le(a.drop_first(), b.drop_first())
    }
}

/// The order of a listing: directories before everything else, and names in
/// lexicographic order among each.
pub open spec fn precedes(a: DirectoryEntryView, b: DirectoryEntryView) -> bool {
    if a.directory != b.directory {
        a.directory
    } else {
        lex_le(a.name, b.name)
    }
}

/// Every entry precedes every later one.
pub open spec fn ordered(entries: Seq<DirectoryEntryView>) -> bool {
    forall|i: int, j: int| 0 <= i < j < entries.len() ==> precedes(entries[i], entries[j])
}

/// Of two names, one comes no later than the other.
pub proof fn lemma_lex_total(a: Seq<u8>, b: Seq<u8>)
    ensures
        lex_le(a, b) || lex_le(b, a),
    decreases a.len(),
{
    if a.len() > 0 && b.len() > 0 && a[0] == b[0] {
        lemma_lex_total(a.drop_first(), b.drop_first());
    }
}

/// The order on names is transitive.
pub proof fn lemma_lex_transitive(a: Seq<u8>, b: Seq<u8>, c: Seq<u8>)
    requires
        lex_le(a, b),
        lex_le(b, c),
    ensures
        lex_le(a, c),
    decreases a.len(),
{
    if a.len() > 0 && b.len() > 0 && c.len() > 0 && a[0] == b[0] && b[0] == c[0] {
        lemma_lex_transitive(a.drop_first(), b.drop_first(), c.drop_first());
    }
}

/// Two names that each come no later than the other are the same name.
pub proof fn lemma_lex_antisymmetric(a: Seq<u8>, b: Seq<u8>)
    requires
        lex_le(a, b),
        lex_le(b, a),
    ensures
        a == b,
    decreases a.len(),
{
    if a.len() > 0 && b.len() > 0 {
        lemma_lex_antisymmetric(a.drop_first(), b.drop_first());
        assert(a =~= seq![a[0]] + a.drop_first());
        assert(b =~= seq![b[0]] + b.drop_first());
    } else {
        assert(a =~= b);
    }
}

/// Of two entries, one precedes the other.
pub proof fn lemma_precedes_total(a: DirectoryEntryView, b: DirectoryEntryView)
    ensures
        precedes(a, b) || precedes(b, a),
{
    lemma_lex_total(a.name, b.name);
}

/// The listing order is transitive.
pub proof fn lemma_precedes_transitive(
    a: DirectoryEntryView,
    b: DirectoryEntryView,
    c: DirectoryEntryView,
)
    requires
        precedes(a, b),
        precedes(b, c),
    ensures
        precedes(a, c),
{
    if a.directory == b.directory && b.directory == c.directory {
        lemma_lex_transitive(a.name, b.name, c.name);
    }
}

/// In an ordered listing no file stands before a directory, and among
/// directories, and among the rest, names ascend; where the names of a
/// group differ from each other they ascend strictly.
pub proof fn lemma_listing_order(entries: Seq<DirectoryEntryView>, i: int, j: int)
    requires
        ordered(entries),
        0 <= i < j < entries.len(),
    ensures
        entries[j].directory ==> entries[i].directory,
        entries[i].directory == entries[j].directory ==> lex_le(entries[i].name, entries[j].name),
        entries[i].directory == entries[j].directory && entries[i].name != entries[j].name
            ==> !lex_le(entries[j].name, entries[i].name),
{
    assert(precedes(entries[i], entries[j]));
    if entries[i].directory == entries[j].directory && lex_le(entries[j].name, entries[i].name) {
        lemma_lex_antisymmetric(entries[i].name, entries[j].name);
    }
}

/// Whether the name `a` comes no later than the name `b`.
pub fn name_le(a: &[u8], b: &[u8]) -> (r: bool)
    ensures
        r == lex_le(a@, b@),
{
    let mut i: usize = 0;
    assert(a@.skip(0) =~= a@);
    assert(b@.skip(0) =~= b@);
    while i < a.len() && i < b.len()
        invariant
            i <= a@.len(),
            i <= b@.len(),
            lex_le(a@, b@) == lex_le(a@.skip(i as int), b@.skip(i as int)),
        decreases a@.len() - i,
    {
        if a[i] != b[i] {
            return a[i] < b[i];
        }
        assert(a@.skip(i as int).drop_first() =~= a@.skip(i + 1));
        assert(b@.skip(i as int).drop_first() =~= b@.skip(i + 1));
        i += 1;
    }
    i == a.len()
}

/// Whether the entry `a` precedes the entry `b` in a listing.
pub fn goes_before(a: &DirectoryEntry, b: &DirectoryEntry) -> (r: bool)
    ensures
        r == precedes(a@, b@),
{
    if a.directory != b.directory {
        a.directory
    } else {
        name_le(a.name.as_slice(), b.name.as_slice())
    }
}

/// Sorts a listing: the result holds the same entries, ordered.
pub fn sort_entries(entries: Vec<DirectoryEntry>) -> (r: Vec<DirectoryEntry>)
    ensures
        ordered(entry_views(r@)),
        entry_views(r@).to_multiset() == entry_views(entries@).to_multiset(),
{
    let ghost all = entry_views(entries@);
    let mut rest = entries;
    let mut out: Vec<DirectoryEntry> = Vec::new();
    proof {
        lemma_nothing_in_empty(entry_views(out@));
        assert(entry_views(out@).to_multiset().add(all.to_multiset()) =~= all.to_multiset());
    }
    loop
        invariant
            ordered(entry_views(out@)),
            entry_views(out@).to_multiset().add(entry_views(rest@).to_multiset())
                == all.to_multiset(),
        ensures
            entry_views(out@).to_multiset() == all.to_multiset(),
        decreases rest@.len(),
    {
        let ghost rest_before = entry_views(rest@);
        let entry = match rest.pop() {
            Some(e) => e,
            None => {
                proof {
                    lemma_nothing_in_empty(rest_before);
                    assert(entry_views(out@).to_multiset() =~= all.to_multiset());
                }
                break ;
            },
        };
        proof {
            assert(rest_before =~= entry_views(rest@).push(entry@));
            to_multiset_build(entry_views(rest@), entry@);
        }
        let mut at: usize = 0;
        while at < out.len() && !goes_before(&entry, &out[at])
            invariant
                at <= out@.len(),
                forall|k: int| 0 <= k < at ==> precedes(entry_views(out@)[k], entry@),
            decreases out@.len() - at,
        {
            proof {
                lemma_precedes_total(entry@, out@[at as int]@);
            }
            at += 1;
        }
        let ghost before = entry_views(out@);
        out.insert(at, entry);
        proof {
            let after = entry_views(out@);
            assert(after =~= before.insert(at as int, entry@));
            to_multiset_insert(before, at as int, entry@);
            assert forall|i: int, j: int| 0 <= i < j < after.len() implies precedes(
                after[i],
                after[j],
            ) by {
                if j < at {
                    assert(after[i] == before[i] && after[j] == before[j]);
                } else if j == at {
                    assert(after[i] == before[i]);
                } else if i == at {
                    assert(after[j] == before[j - 1]);
                    if j - 1 > at {
                        lemma_precedes_transitive(entry@, before[at as int], before[j - 1]);
                    }
                } else if i < at {
                    assert(after[i] == before[i] && after[j] == before[j - 1]);
                } else {
                    assert(after[i] == before[i - 1] && after[j] == before[j - 1]);
                }
            }
            assert(after.to_multiset().add(entry_views(rest@).to_multiset()) =~= all.to_multiset());
        }
    }
    out
}

/// What the filesystem says about the directory that is to be listed.
#[derive(Clone, Copy, Debug, PartialEq, Eq, Structural)]
pub struct DirectoryProbe {
    /// Whether the requested path resolved to a place inside the sandbox.
    pub resolved: bool,
    /// Whether that place is a directory; absent where nothing is there.
    pub is_dir: Option<bool>,
    /// Whether the ignore rules of the sandbox match it.
    pub ignored: bool,
}

/// One thing found in the directory.
#[derive(Clone, Debug, PartialEq, Eq)]
pub struct Candidate {
    /// The line that would be shown for it; absent where its metadata
    /// could not be read.
    pub entry: Option<DirectoryEntry>,
    /// Whether the ignore rules of the sandbox match it.
    pub ignored: bool,
}

/// The refusal that a probe leads to, if any: "not found" for a path that
/// did not resolve or does not exist, "expectation failed" for one that is
/// not a directory or is hidden by the ignore rules.
pub open spec fn refusal(probe: DirectoryProbe) -> Option<ApiError> {
    if !probe.resolved {
        Some(ApiError { status: NOT_FOUND, message: "path not found" })
    } else {
        match probe.is_dir {
            None => Some(ApiError { status: NOT_FOUND, message: "path not found" }),
            Some(is_dir) => if !is_dir || probe.ignored {
                Some(ApiError { status: EXPECTATION_FAILED, message: "path not a directory" })
            } else {
                None
            },
        }
    }
}

/// Whether a candidate is shown: it has readable metadata and is not
/// ignored.
pub open spec fn shown(candidate: Candidate) -> bool {
    candidate.entry is Some && !candidate.ignored
}

/// The entries of the candidates that are shown, in the candidates' order.
pub open spec fn shown_entries(candidates: Seq<Candidate>) -> Seq<DirectoryEntryView>
    decreases candidates.len(),
{
    if candidates.len() == 0 {
        Seq::empty()
    } else if shown(candidates.last()) {
        shown_entries(candidates.drop_last()).push(candidates.last().entry->0@)
    } else {
        shown_entries(candidates.drop_last())
    }
}

/// Decides whether a listing request is refused, before the directory is
/// read.
pub fn check(probe: DirectoryProbe) -> (r: Option<ApiError>)
    ensures
        r == refusal(probe),
{
    if !probe.resolved {
        return Some(ApiError::not_found("path not found"));
    }
    match probe.is_dir {
        None => Some(ApiError::not_found("path not found")),
        Some(is_dir) => {
            if !is_dir || probe.ignored {
                Some(ApiError::expectation_failed("path not a directory"))
            } else {
                None
            }
        },
    }
}

/// Answers a listing request.
///
/// A refused request is answered with the refusal of its probe. Otherwise
/// the answer holds exactly the shown candidates, directories first and
/// names ascending.
pub fn route(probe: DirectoryProbe, candidates: Vec<Candidate>) -> (r: Result<
    Vec<DirectoryEntry>,
    ApiError,
>)
    ensures
        match refusal(probe) {
            Some(error) => r == Err::<Vec<DirectoryEntry>, ApiError>(error),
            None => {
                &&& r is Ok
                &&& ordered(entry_views(r->Ok_0@))
                &&& entry_views(r->Ok_0@).to_multiset() == shown_entries(
                    candidates@,
                ).to_multiset()
            },
        },
{
    match check(probe) {
        Some(error) => {
            return Err(error);
        },
        None => {},
    }
    let ghost all = candidates@;
    let mut rest = candidates;
    let mut kept: Vec<DirectoryEntry> = Vec::new();
    proof {
        lemma_nothing_in_empty(entry_views(kept@));
        assert(entry_views(kept@).to_multiset().add(shown_entries(all).to_multiset())
            =~= shown_entries(all).to_multiset());
    }
    loop
        invariant
            entry_views(kept@).to_multiset().add(shown_entries(rest@).to_multiset())
                == shown_entries(all).to_multiset(),
        ensures
            entry_views(kept@).to_multiset() == shown_entries(all).to_multiset(),
        decreases rest@.len(),
    {
        let ghost rest_before = rest@;
        let candidate = match rest.pop() {
            Some(c) => c,
            None => {
                proof {
                    lemma_nothing_in_empty(shown_entries(rest_before));
                    assert(entry_views(kept@).to_multiset() =~= shown_entries(all).to_multiset());
                }
                break ;
            },
        };
        proof {
            assert(rest_before.drop_last() =~= rest@);
            assert(rest_before.last() == candidate);
        }
        let ignored = candidate.ignored;
        match candidate.entry {
            Some(entry) => {
                if !ignored {
                    let ghost kept_before = entry_views(kept@);
                    kept.push(entry);
                    proof {
                        assert(entry_views(kept@) =~= kept_before.push(entry@));
                        to_multiset_build(kept_before, entry@);
                        to_multiset_build(shown_entries(rest@), entry@);
                        assert(entry_views(kept@).to_multiset().add(
                            shown_entries(rest@).to_multiset(),
                        ) =~= shown_entries(all).to_multiset());
                    }
                }
            },
            None => {},
        }
    }
    Ok(sort_entries(kept))
}

} // verus!
