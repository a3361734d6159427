//! The completion cache: which chapter directories were downloaded in full,
//! and the image count that each chapter page reported.
//!
//! The cache is what a later run trusts when it decides to skip a chapter. It
//! is kept as a list of entries with distinct paths, the form in which it is
//! handed over to be stored and taken back when it is loaded.
use vstd::prelude::*;

verus! {

/// The mapping that a list of entries stands for; of two entries with the
/// same path the later one counts.
pub open spec fn pairs_map(pairs: Seq<(Seq<char>, Seq<char>)>) -> Map<Seq<char>, Seq<char>>
    decreases pairs.len(),
{
    if pairs.len() == 0 {
        Map::empty()
    } else {
        pairs_map(pairs.drop_last()).insert(pairs.last().0, pairs.last().1)
    }
}

/// No path stands in two entries.
pub open spec fn distinct_paths(pairs: Seq<(Seq<char>, Seq<char>)>) -> bool {
    forall|i: int, j: int| 0 <= i < j < pairs.len() ==> (#[trigger] pairs[i]).0 != (#[trigger] pairs[j]).0
}

/// A path is mapped exactly when some entry holds it.
pub proof fn lemma_pairs_map_domain(pairs: Seq<(Seq<char>, Seq<char>)>, path: Seq<char>)
    ensures
        pairs_map(pairs).contains_key(path) <==> exists|i: int|
            0 <= i < pairs.len() && (#[trigger] pairs[i]).0 == path,
    decreases pairs.len(),
{
    if pairs.len() > 0 {
        let shorter = pairs.drop_last();
        lemma_pairs_map_domain(shorter, path);
        if pairs_map(pairs).contains_key(path) {
            if pairs.last().0 == path {
                assert(pairs[pairs.len() - 1].0 == path);
            } else {
                let i = choose|i: int| 0 <= i < shorter.len() && (#[trigger] shorter[i]).0 == path;
                assert(pairs[i].0 == path);
            }
        }
        if exists|i: int| 0 <= i < pairs.len() && (#[trigger] pairs[i]).0 == path {
            let i = choose|i: int| 0 <= i < pairs.len() && (#[trigger] pairs[i]).0 == path;
            if i < pairs.len() - 1 {
                assert(shorter[i].0 == path);
            }
        }
    }
}

/// Among entries with distinct paths, each entry's path is mapped to that
/// entry's count.
pub proof fn lemma_pairs_map_value(pairs: Seq<(Seq<char>, Seq<char>)>, i: int)
    requires
        distinct_paths(pairs),
        0 <= i < pairs.len(),
    ensures
        pairs_map(pairs).contains_key(pairs[i].0),
        pairs_map(pairs)[pairs[i].0] == pairs[i].1,
    decreases pairs.len(),
{
    if i < pairs.len() - 1 {
        let shorter = pairs.drop_last();
        assert(distinct_paths(shorter)) by {
            assert forall|a: int, b: int| 0 <= a < b < shorter.len() implies (#[trigger] shorter[a]).0
                != (#[trigger] shorter[b]).0 by {
                assert(pairs[a].0 != pairs[b].0);
            }
        }
        lemma_pairs_map_value(shorter, i);
        assert(pairs[i].0 != pairs[pairs.len() - 1].0);
    }
}

/// Among entries with distinct paths, giving one entry a new count changes
/// the mapping at that entry's path and nowhere else.
pub proof fn lemma_pairs_map_update(pairs: Seq<(Seq<char>, Seq<char>)>, i: int, count: Seq<char>)
    requires
        distinct_paths(pairs),
        0 <= i < pairs.len(),
    ensures
        distinct_paths(pairs.update(i, (pairs[i].0, count))),
        pairs_map(pairs.update(i, (pairs[i].0, count))) == pairs_map(pairs).insert(
            pairs[i].0,
            count,
        ),
    decreases pairs.len(),
{
    let path = pairs[i].0;
    let changed = pairs.update(i, (path, count));
    assert(distinct_paths(changed)) by {
        assert forall|a: int, b: int| 0 <= a < b < changed.len() implies (#[trigger] changed[a]).0
            != (#[trigger] changed[b]).0 by {
            assert(pairs[a].0 != pairs[b].0);
        }
    }
    let shorter = pairs.drop_last();
    if i == pairs.len() - 1 {
        assert(changed.drop_last() =~= shorter);
        assert(pairs_map(changed) =~= pairs_map(pairs).insert(path, count));
    } else {
        assert(distinct_paths(shorter)) by {
            assert forall|a: int, b: int| 0 <= a < b < shorter.len() implies (#[trigger] shorter[a]).0
                != (#[trigger] shorter[b]).0 by {
                assert(pairs[a].0 != pairs[b].0);
            }
        }
        lemma_pairs_map_update(shorter, i, count);
        assert(changed.drop_last() =~= shorter.update(i, (path, count)));
        assert(changed.last() == pairs.last());
        assert(pairs[i].0 != pairs[pairs.len() - 1].0);
        assert(pairs_map(changed) =~= pairs_map(pairs).insert(path, count));
    }
}

/// Which chapter directories are complete, each with the image count that
/// its chapter page reported.
pub struct CompletionCache {
    entries: Vec<(String, String)>,
}

impl View for CompletionCache {
    type V = Map<Seq<char>, Seq<char>>;

    closed spec fn view(&self) -> Map<Seq<char>, Seq<char>> {
        pairs_map(self.entries.deep_view())
    }
}

impl CompletionCache {
    #[verifier::type_invariant]
    spec fn well_formed(self) -> bool {
        distinct_paths(self.entries.deep_view())
    }

    /// The cache of a comic of which nothing has been downloaded yet.
    pub fn new() -> (cache: CompletionCache)
        ensures
            cache@ == Map::<Seq<char>, Seq<char>>::empty(),
    {
        let entries: Vec<(String, String)> = Vec::new();
        assert(entries.deep_view() =~= Seq::empty());
        CompletionCache { entries }
    }

    /// The cache that the stored entries stand for. Where a path stands in two
    /// entries, the later one counts.
    pub fn from_entries(stored: Vec<(String, String)>) -> (cache: CompletionCache)
        ensures
            cache@ == pairs_map(stored.deep_view()),
    {
        let mut cache = CompletionCache::new();
        let mut i: usize = 0;
        while i < stored.len()
            invariant
                i <= stored.len(),
                cache@ == pairs_map(stored.deep_view().take(i as int)),
            decreases stored.len() - i,
        {
            cache.mark_complete(stored[i].0.as_str(), stored[i].1.as_str());
            proof {
                let pairs = stored.deep_view();
                assert(pairs.take(i + 1).drop_last() =~= pairs.take(i as int));
                assert(pairs.take(i + 1).last() == (stored[i as int].0@, stored[i as int].1@));
            }
            i += 1;
        }
        assert(stored.deep_view().take(stored.len() as int) =~= stored.deep_view());
        cache
    }

    /// The cache to start a run with: what was stored by the last run, or an
    /// empty cache where nothing was stored or what was stored could not be
    /// read.
    pub fn load(stored: Option<Vec<(String, String)>>) -> (cache: CompletionCache)
        ensures
            cache@ == match stored {
                Some(entries) => pairs_map(entries.deep_view()),
                None => Map::empty(),
            },
    {
        match stored {
            Some(entries) => CompletionCache::from_entries(entries),
            None => CompletionCache::new(),
        }
    }

    /// The entries to store: one for each complete chapter, no path twice.
    pub fn entries(&self) -> (stored: Vec<(String, String)>)
        ensures
            distinct_paths(stored.deep_view()),
            pairs_map(stored.deep_view()) == self@,
    {
        proof {
            use_type_invariant(self);
        }
        let mut stored: Vec<(String, String)> = Vec::new();
        let mut i: usize = 0;
        while i < self.entries.len()
            invariant
                i <= self.entries.len(),
                stored.deep_view() == self.entries.deep_view().take(i as int),
            decreases self.entries.len() - i,
        {
            let path = self.entries[i].0.clone();
            let count = self.entries[i].1.clone();
            let ghost before = stored.deep_view();
            stored.push((path, count));
            proof {
                assert(stored.deep_view() =~= before.push((path@, count@)));
                assert(self.entries.deep_view()[i as int] == (path@, count@));
                assert(stored.deep_view() =~= self.entries.deep_view().take(i + 1));
            }
            i += 1;
        }
        assert(self.entries.deep_view().take(self.entries.len() as int) =~= self.entries.deep_view());
        stored
    }

    /// The index of the entry for `path`, if there is one.
    fn position(&self, path: &String) -> (found: Option<usize>)
        ensures
            match found {
                Some(i) => i < self.entries.len() && self.entries.deep_view()[i as int].0 == path@,
                None => !self@.contains_key(path@),
            },
    {
        let mut i: usize = 0;
        while i < self.entries.len()
            invariant
                i <= self.entries.len(),
                forall|j: int| 0 <= j < i ==> (#[trigger] self.entries.deep_view()[j]).0 != path@,
            decreases self.entries.len() - i,
        {
            if self.entries[i].0 == *path {
                return Some(i);
            }
            i += 1;
        }
        proof {
            lemma_pairs_map_domain(self.entries.deep_view(), path@);
        }
        None
    }

    /// Whether the chapter stored under `chapter_dir` was downloaded in full.
    pub fn is_complete(&self, chapter_dir: &str) -> (complete: bool)
        ensures
            complete == self@.contains_key(chapter_dir@),
    {
        let path = chapter_dir.to_owned();
        match self.position(&path) {
            Some(i) => {
                proof {
                    lemma_pairs_map_domain(self.entries.deep_view(), path@);
                }
                true
            },
            None => false,
        }
    }

    /// The image count recorded for a complete chapter.
    pub fn reported_count(&self, chapter_dir: &str) -> (count: Option<String>)
        ensures
            match count {
                Some(text) => self@.contains_key(chapter_dir@) && self@[chapter_dir@] == text@,
                None => !self@.contains_key(chapter_dir@),
            },
    {
        let path = chapter_dir.to_owned();
        match self.position(&path) {
            Some(i) => {
                proof {
                    use_type_invariant(self);
                    lemma_pairs_map_value(self.entries.deep_view(), i as int);
                }
                Some(self.entries[i].1.clone())
            },
            None => None,
        }
    }

    /// Records the chapter stored under `chapter_dir` as complete, with the
    /// image count that its page reported. A count recorded earlier for the
    /// same directory is replaced.
    pub fn mark_complete(&mut self, chapter_dir: &str, reported_count: &str)
        ensures
            final(self)@ == old(self)@.insert(chapter_dir@, reported_count@),
    {
        let path = chapter_dir.to_owned();
        let count = reported_count.to_owned();
        proof {
            use_type_invariant(&*self);
        }
        let found = self.position(&path);
        let mut taken = CompletionCache::new();
        core::mem::swap(self, &mut taken);
        let mut entries = taken.entries;
        let ghost before = entries.deep_view();
        match found {
            Some(i) => {
                entries.set(i, (path, count));
                proof {
                    lemma_pairs_map_update(before, i as int, reported_count@);
                    assert(entries.deep_view() =~= before.update(
                        i as int,
                        (before[i as int].0, reported_count@),
                    ));
                }
            },
            None => {
                entries.push((path, count));
                proof {
                    let after = entries.deep_view();
                    assert(after.drop_last() =~= before);
                    assert(after.last() == (chapter_dir@, reported_count@));
                    lemma_pairs_map_domain(before, chapter_dir@);
                    assert forall|a: int, b: int| 0 <= a < b < after.len() implies (#[trigger] after[a]).0
                        != (#[trigger] after[b]).0 by {
                        if b < before.len() {
                            assert(before[a].0 != before[b].0);
                        } else {
                            assert(after[a] == before[a]);
                        }
                    }
                }
            },
        }
        *self = CompletionCache { entries };
    }
}

} // verus!
