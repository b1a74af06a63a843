//! The traversal-and-match engine's decision core: classification of
//! traversal entries, the content-loading failure policy, substring
//! filtering and aggregation of per-root results.
//!
//! The surrounding binary walks each configured root concurrently and hands
//! this module, per root, the sequence of entries it observed: directories,
//! entries whose metadata could not be read, and regular files together with
//! the outcome of reading them. Everything from that point on — which
//! entries are eligible, what an unreadable file contributes, which contents
//! match, and what the aggregate result is — is decided and proved here.
//! The aggregate equals the answer of a naive sequential walk over the same
//! observations.

use vstd::prelude::*;

use crate::text::{contains_term, str_contains_term};

verus! {

/// The one declared failure of a search: no source roots are configured.
/// Per-file failures never abort a search; they degrade to "this item
/// contributes no match".
#[derive(Clone, Copy, Debug, PartialEq, Eq, Structural)]
pub enum SearchError {
    NoSourcesConfigured,
}

/// The outcome of reading one candidate file as text.
#[derive(Debug)]
pub enum LoadOutcome {
    /// The file was opened and fully read as text.
    Loaded(String),
    /// Opening or decoding failed; the diagnostic was reported at the site
    /// of the failure, and the file degrades to empty content here.
    Failed,
}

/// One filesystem entry found while walking a source root, as observed by
/// the traversal: its classification, and for regular files the outcome of
/// loading their content.
#[derive(Debug)]
pub enum TraversalEntry {
    /// Metadata was readable and named a directory.
    Directory,
    /// Metadata could not be read (entry vanished, permission denied).
    Unreadable,
    /// Metadata was readable and named a regular (non-directory) file.
    File(LoadOutcome),
}

/// Everything one traversal produced for a single source root.
#[derive(Debug)]
pub struct RootListing {
    pub entries: Vec<TraversalEntry>,
}

/// The text a load outcome contributes: the loaded content, or empty text
/// for a file that could not be read.
pub open spec fn load_text(l: LoadOutcome) -> Seq<char> {
    match l {
        LoadOutcome::Loaded(s) => s@,
        LoadOutcome::Failed => Seq::empty(),
    }
}

/// The text an entry contributes; only file entries carry text.
pub open spec fn entry_text(e: TraversalEntry) -> Seq<char> {
    match e {
        TraversalEntry::File(l) => load_text(l),
        _ => Seq::empty(),
    }
}

/// An entry is eligible for content inspection exactly when it is a regular
/// file; directories and entries with unreadable metadata are discarded.
pub open spec fn eligible(e: TraversalEntry) -> bool {
    e is File
}

/// An entry contributes a match: it is an eligible file whose (possibly
/// empty, if the load failed) text contains the term.
pub open spec fn entry_matches(e: TraversalEntry, term: Seq<char>) -> bool {
    eligible(e) && contains_term(entry_text(e), term)
}

/// The matches a single root's entry sequence yields, in traversal order:
/// the text of every eligible entry whose text contains the term.
pub open spec fn matches_of_entries(entries: Seq<TraversalEntry>, term: Seq<char>) -> Seq<
    Seq<char>,
>
    decreases entries.len(),
{
    if entries.len() == 0 {
        Seq::empty()
    } else {
        matches_of_entries(entries.drop_last(), term) + (if entry_matches(
            entries.last(),
            term,
        ) {
            seq![entry_text(entries.last())]
        } else {
            Seq::empty()
        })
    }
}

/// The golden answer of a search: the concatenation, root by root, of every
/// match under every root.
pub open spec fn matches_of_roots(roots: Seq<RootListing>, term: Seq<char>) -> Seq<Seq<char>>
    decreases roots.len(),
{
    if roots.len() == 0 {
        Seq::empty()
    } else {
        matches_of_roots(roots.drop_last(), term) + matches_of_entries(
            roots.last().entries@,
            term,
        )
    }
}

/// The entry is a regular file whose load failed.
pub open spec fn load_failed(e: TraversalEntry) -> bool {
    match e {
        TraversalEntry::File(LoadOutcome::Failed) => true,
        _ => false,
    }
}

/// The text of every eligible (regular-file) entry, matching or not, in
/// traversal order; a failed load appears as empty text.
pub open spec fn file_contents(entries: Seq<TraversalEntry>) -> Seq<Seq<char>>
    decreases entries.len(),
{
    if entries.len() == 0 {
        Seq::empty()
    } else {
        file_contents(entries.drop_last()) + (if eligible(entries.last()) {
            seq![entry_text(entries.last())]
        } else {
            Seq::empty()
        })
    }
}

/// The texts of all eligible entries across all roots, root by root.
pub open spec fn file_contents_of_roots(roots: Seq<RootListing>) -> Seq<Seq<char>>
    decreases roots.len(),
{
    if roots.len() == 0 {
        Seq::empty()
    } else {
        file_contents_of_roots(roots.drop_last()) + file_contents(roots.last().entries@)
    }
}

/// How many times the content value `c` occurs in a result sequence.
pub open spec fn occurrence_count(results: Seq<Seq<char>>, c: Seq<char>) -> nat
    decreases results.len(),
{
    if results.len() == 0 {
        0nat
    } else {
        occurrence_count(results.drop_last(), c) + (if results.last() == c {
            1nat
        } else {
            0nat
        })
    }
}

proof fn lemma_occ_singleton(c: Seq<char>)
    ensures
        occurrence_count(seq![c], c) == 1,
{
    assert(seq![c].drop_last() =~= Seq::<Seq<char>>::empty());
    assert(occurrence_count(Seq::<Seq<char>>::empty(), c) == 0);
    assert(seq![c].last() == c);
}

proof fn lemma_occ_concat(a: Seq<Seq<char>>, b: Seq<Seq<char>>, c: Seq<char>)
    ensures
        occurrence_count(a + b, c) == occurrence_count(a, c) + occurrence_count(b, c),
    decreases b.len(),
{
    if b.len() == 0 {
        assert(a + b =~= a);
    } else {
        lemma_occ_concat(a, b.drop_last(), c);
        assert((a + b).drop_last() =~= a + b.drop_last());
        assert((a + b).last() == b.last());
    }
}

/// A regular file whose load failed contributes empty content, and empty
/// content matches only the empty term.
pub proof fn lemma_failed_load_no_match(term: Seq<char>)
    requires
        term.len() > 0,
    ensures
        !entry_matches(TraversalEntry::File(LoadOutcome::Failed), term),
{
    assert forall|i: int| !crate::text::matches_at(Seq::<char>::empty(), term, i) by {
        if crate::text::matches_at(Seq::<char>::empty(), term, i) {
            assert(i + term.len() <= 0);
        }
    }
}

/// Completeness within one root: every eligible entry whose text contains
/// the term appears, by content, at least once among that root's matches.
pub proof fn lemma_root_completeness(entries: Seq<TraversalEntry>, term: Seq<char>, j: int)
    requires
        0 <= j < entries.len(),
        entry_matches(entries[j], term),
    ensures
        occurrence_count(matches_of_entries(entries, term), entry_text(entries[j])) >= 1,
    decreases entries.len(),
{
    let c = entry_text(entries[j]);
    if j == entries.len() - 1 {
        lemma_occ_concat(matches_of_entries(entries.drop_last(), term), seq![c], c);
        lemma_occ_singleton(c);
    } else {
        lemma_root_completeness(entries.drop_last(), term, j);
        if entry_matches(entries.last(), term) {
            lemma_occ_concat(
                matches_of_entries(entries.drop_last(), term),
                seq![entry_text(entries.last())],
                c,
            );
        } else {
            lemma_occ_concat(
                matches_of_entries(entries.drop_last(), term),
                Seq::<Seq<char>>::empty(),
                c,
            );
        }
    }
}

/// Completeness: every eligible entry, under any configured root, whose
/// text contains the term appears, by content, at least once in the
/// aggregated result. Together with the exact contract of
/// `Search::by_term`, the result of a search therefore misses no match
/// found by a naive sequential walk.
pub proof fn lemma_search_completeness(
    roots: Seq<RootListing>,
    term: Seq<char>,
    i: int,
    j: int,
)
    requires
        0 <= i < roots.len(),
        0 <= j < roots[i].entries@.len(),
        entry_matches(roots[i].entries@[j], term),
    ensures
        occurrence_count(matches_of_roots(roots, term), entry_text(roots[i].entries@[j]))
            >= 1,
    decreases roots.len(),
{
    let c = entry_text(roots[i].entries@[j]);
    if i == roots.len() - 1 {
        lemma_root_completeness(roots.last().entries@, term, j);
        lemma_occ_concat(
            matches_of_roots(roots.drop_last(), term),
            matches_of_entries(roots.last().entries@, term),
            c,
        );
    } else {
        lemma_search_completeness(roots.drop_last(), term, i, j);
        lemma_occ_concat(
            matches_of_roots(roots.drop_last(), term),
            matches_of_entries(roots.last().entries@, term),
            c,
        );
    }
}

/// Two distinct entries of one root that both match with the same text
/// both appear: the shared content occurs at least twice.
pub proof fn lemma_duplicates_in_root(
    entries: Seq<TraversalEntry>,
    term: Seq<char>,
    j1: int,
    j2: int,
)
    requires
        0 <= j1 < j2 < entries.len(),
        entry_matches(entries[j1], term),
        entry_matches(entries[j2], term),
        entry_text(entries[j1]) == entry_text(entries[j2]),
    ensures
        occurrence_count(matches_of_entries(entries, term), entry_text(entries[j1])) >= 2,
    decreases entries.len(),
{
    let c = entry_text(entries[j1]);
    if j2 == entries.len() - 1 {
        lemma_root_completeness(entries.drop_last(), term, j1);
        lemma_occ_concat(matches_of_entries(entries.drop_last(), term), seq![c], c);
        lemma_occ_singleton(c);
    } else {
        lemma_duplicates_in_root(entries.drop_last(), term, j1, j2);
        if entry_matches(entries.last(), term) {
            lemma_occ_concat(
                matches_of_entries(entries.drop_last(), term),
                seq![entry_text(entries.last())],
                c,
            );
        } else {
            lemma_occ_concat(
                matches_of_entries(entries.drop_last(), term),
                Seq::<Seq<char>>::empty(),
                c,
            );
        }
    }
}

/// No deduplication: two distinct files — under the same root or under
/// different roots — whose byte-identical text matches the term both
/// appear as separate entries in the aggregated result.
pub proof fn lemma_duplicate_contents(
    roots: Seq<RootListing>,
    term: Seq<char>,
    i1: int,
    j1: int,
    i2: int,
    j2: int,
)
    requires
        0 <= i1 < roots.len(),
        0 <= i2 < roots.len(),
        0 <= j1 < roots[i1].entries@.len(),
        0 <= j2 < roots[i2].entries@.len(),
        i1 < i2 || (i1 == i2 && j1 < j2),
        entry_matches(roots[i1].entries@[j1], term),
        entry_matches(roots[i2].entries@[j2], term),
        entry_text(roots[i1].entries@[j1]) == entry_text(roots[i2].entries@[j2]),
    ensures
        occurrence_count(matches_of_roots(roots, term), entry_text(roots[i1].entries@[j1]))
            >= 2,
    decreases roots.len(),
{
    let c = entry_text(roots[i1].entries@[j1]);
    lemma_occ_concat(
        matches_of_roots(roots.drop_last(), term),
        matches_of_entries(roots.last().entries@, term),
        c,
    );
    if i2 == roots.len() - 1 {
        if i1 == i2 {
            lemma_duplicates_in_root(roots.last().entries@, term, j1, j2);
        } else {
            lemma_search_completeness(roots.drop_last(), term, i1, j1);
            lemma_root_completeness(roots.last().entries@, term, j2);
        }
    } else {
        lemma_duplicate_contents(roots.drop_last(), term, i1, j1, i2, j2);
    }
}

proof fn lemma_isolation_entries(entries: Seq<TraversalEntry>, term: Seq<char>, k: int)
    requires
        0 <= k < entries.len(),
        !entry_matches(entries[k], term),
    ensures
        matches_of_entries(entries.remove(k), term) == matches_of_entries(entries, term),
    decreases entries.len(),
{
    if k == entries.len() - 1 {
        assert(entries.remove(k) =~= entries.drop_last());
    } else {
        lemma_isolation_entries(entries.drop_last(), term, k);
        assert(entries.remove(k).drop_last() =~= entries.drop_last().remove(k));
        assert(entries.remove(k).last() == entries.last());
    }
}

proof fn lemma_matches_roots_congruence(a: Seq<RootListing>, b: Seq<RootListing>, term: Seq<char>)
    requires
        a.len() == b.len(),
        forall|t: int| 0 <= t < a.len() ==> a[t].entries@ == b[t].entries@,
    ensures
        matches_of_roots(a, term) == matches_of_roots(b, term),
    decreases a.len(),
{
    if a.len() > 0 {
        lemma_matches_roots_congruence(a.drop_last(), b.drop_last(), term);
        assert(a.last().entries@ == b.last().entries@);
    }
}

/// Isolation: dropping one entry that contributes no match — a directory,
/// an entry whose metadata could not be read, or (for a nonempty term) a
/// file whose load failed — from any one root leaves the matches of every
/// other entry, under every root, untouched.
pub proof fn lemma_isolation(
    roots: Seq<RootListing>,
    pruned: Seq<RootListing>,
    term: Seq<char>,
    i: int,
    k: int,
)
    requires
        roots.len() == pruned.len(),
        0 <= i < roots.len(),
        0 <= k < roots[i].entries@.len(),
        !entry_matches(roots[i].entries@[k], term),
        pruned[i].entries@ == roots[i].entries@.remove(k),
        forall|t: int| 0 <= t < roots.len() && t != i ==> pruned[t].entries@
            == roots[t].entries@,
    ensures
        matches_of_roots(pruned, term) == matches_of_roots(roots, term),
    decreases roots.len(),
{
    if i == roots.len() - 1 {
        lemma_isolation_entries(roots.last().entries@, term, k);
        lemma_matches_roots_congruence(pruned.drop_last(), roots.drop_last(), term);
        assert(pruned.last().entries@ == roots.last().entries@.remove(k));
    } else {
        lemma_isolation(roots.drop_last(), pruned.drop_last(), term, i, k);
        assert(pruned.last().entries@ == roots.last().entries@);
    }
}

proof fn lemma_empty_term_entries(entries: Seq<TraversalEntry>, term: Seq<char>)
    requires
        term.len() == 0,
        forall|j: int| 0 <= j < entries.len() ==> !load_failed(#[trigger] entries[j]),
    ensures
        matches_of_entries(entries, term) == file_contents(entries),
    decreases entries.len(),
{
    if entries.len() > 0 {
        lemma_empty_term_entries(entries.drop_last(), term);
        if eligible(entries.last()) {
            assert(!load_failed(entries[entries.len() - 1]));
            crate::text::lemma_empty_needle(entry_text(entries.last()), term);
        }
    }
}

/// Empty-term boundary: a search whose term is empty returns the content
/// of every successfully read regular file across all roots. The statement
/// assumes every file loaded; a file whose load failed would contribute
/// its substituted empty content as well, since the empty term matches it.
pub proof fn lemma_empty_term(roots: Seq<RootListing>, term: Seq<char>)
    requires
        term.len() == 0,
        forall|i: int, j: int|
            0 <= i < roots.len() && 0 <= j < roots[i].entries@.len() ==> !load_failed(
                #[trigger] roots[i].entries@[j],
            ),
    ensures
        matches_of_roots(roots, term) == file_contents_of_roots(roots),
    decreases roots.len(),
{
    if roots.len() > 0 {
        lemma_empty_term(roots.drop_last(), term);
        assert forall|j: int| 0 <= j < roots.last().entries@.len() implies !load_failed(
            #[trigger] roots.last().entries@[j],
        ) by {
            assert(roots.last() == roots[roots.len() - 1]);
        }
        lemma_empty_term_entries(roots.last().entries@, term);
    }
}

/// The Entry Classifier: decides whether a traversal entry is a regular
/// file eligible for content inspection. Never an error — an entry whose
/// metadata was unavailable is simply not eligible.
pub fn is_eligible(e: &TraversalEntry) -> (r: bool)
    ensures
        r == eligible(*e),
{
    match e {
        TraversalEntry::File(_) => true,
        _ => false,
    }
}

/// The Content Loader's failure policy: a file that could not be read as
/// text contributes an empty content value instead of aborting the search.
pub fn content_of(l: &LoadOutcome) -> (c: String)
    ensures
        c@ == load_text(*l),
{
    match l {
        LoadOutcome::Loaded(s) => s.clone(),
        LoadOutcome::Failed => String::new(),
    }
}

pub struct Search;

impl Search {
    /// The top-level search contract. Given the per-root traversal
    /// observations and a term, returns the contents of every regular file
    /// whose text contains the term, across all roots — exactly the answer
    /// of a naive sequential walk over the same observations. An empty root
    /// list is the one declared failure; it is reported without looking at
    /// anything else.
    pub fn by_term(roots: &Vec<RootListing>, term: &str) -> (r: Result<
        Vec<String>,
        SearchError,
    >)
        ensures
            r is Err <==> roots@.len() == 0,
            r is Err ==> r == Err::<Vec<String>, SearchError>(SearchError::NoSourcesConfigured),
            r matches Ok(v) ==> v.deep_view() == matches_of_roots(roots@, term@),
    {
        if roots.len() == 0 {
            return Err(SearchError::NoSourcesConfigured);
        }
        let mut results: Vec<String> = Vec::new();
        let n = roots.len();
        let mut a: usize = 0;
        while a < n
            invariant
                n == roots@.len(),
                a <= n,
                results.deep_view() == matches_of_roots(roots@.subrange(0, a as int), term@),
            decreases n - a,
        {
            let m = roots[a].entries.len();
            let mut b: usize = 0;
            while b < m
                invariant
                    n == roots@.len(),
                    a < n,
                    m == roots@[a as int].entries@.len(),
                    b <= m,
                    results.deep_view() == matches_of_roots(roots@.subrange(0, a as int), term@)
                        + matches_of_entries(
                        roots@[a as int].entries@.subrange(0, b as int),
                        term@,
                    ),
                decreases m - b,
            {
                let ghost entries = roots@[a as int].entries@;
                proof {
                    assert(entries.subrange(0, b + 1).drop_last() =~= entries.subrange(
                        0,
                        b as int,
                    ));
                    assert(entries.subrange(0, b + 1).last() == entries[b as int]);
                }
                match &roots[a].entries[b] {
                    TraversalEntry::File(load) => {
                        let content = content_of(load);
                        let ghost pre = results.deep_view();
                        if str_contains_term(content.as_str(), term) {
                            results.push(content);
                            proof {
                                assert(results.deep_view() =~= pre.push(entry_text(
                                    entries[b as int],
                                )));
                                assert(results.deep_view() =~= matches_of_roots(
                                    roots@.subrange(0, a as int),
                                    term@,
                                ) + matches_of_entries(entries.subrange(0, b + 1), term@));
                            }
                        } else {
                            proof {
                                assert(matches_of_entries(entries.subrange(0, b + 1), term@)
                                    =~= matches_of_entries(entries.subrange(0, b as int), term@));
                            }
                        }
                    },
                    _ => {
                        proof {
                            assert(matches_of_entries(entries.subrange(0, b + 1), term@)
                                =~= matches_of_entries(entries.subrange(0, b as int), term@));
                        }
                    },
                }
                b = b + 1;
            }
            proof {
                let pre_roots = roots@.subrange(0, a + 1);
                assert(pre_roots.drop_last() =~= roots@.subrange(0, a as int));
                assert(pre_roots.last() == roots@[a as int]);
                assert(roots@[a as int].entries@.subrange(0, m as int) =~= roots@[a as int]
                    .entries@);
                assert(results.deep_view() =~= matches_of_roots(
                    roots@.subrange(0, a + 1),
                    term@,
                ));
            }
            a = a + 1;
        }
        proof {
            assert(roots@.subrange(0, n as int) =~= roots@);
        }
        Ok(results)
    }
}

} // verus!
