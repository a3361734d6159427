//! The chapter orchestrator: what becomes of one chapter in one run.
//!
//! A chapter that the completion cache knows is skipped. Any other chapter is
//! fetched, and its page is asked for up to `LISTING_ATTEMPTS` times before
//! the whole run is given up. Once its images are through, the chapter is
//! either recorded as complete or reported with its failed images and left
//! out of the cache, so that the next run takes it up again.
use vstd::prelude::*;
use crate::antbyw::DownLoadImgRes;
use crate::cache::CompletionCache;

verus! {

/// How often the page of a chapter is asked for before the run is given up.
pub const LISTING_ATTEMPTS: u32 = 3;

/// How long to wait before the page of a chapter is asked for again, in
/// seconds.
pub const LISTING_RETRY_DELAY_SECS: u64 = 2;

/// How long one request for a page may take, in seconds.
pub const LISTING_TIMEOUT_SECS: u64 = 10;

/// Where a chapter stands within a run.
#[derive(Debug, Clone, Copy, PartialEq, Eq, Structural)]
pub enum ChapterState {
    /// Nothing has been decided yet.
    Pending,
    /// The chapter is being fetched; `attempt` counts the requests for its
    /// page, this one included.
    Fetching { attempt: u32 },
    /// The cache knew the chapter as complete; nothing was requested.
    Skipped,
    /// Every image was saved and the chapter was recorded as complete.
    Cached,
    /// Some image failed; the chapter was reported and not recorded.
    ReportedAndLeftUncached,
    /// The chapter's page could not be had; the run ends here.
    Aborted,
}

/// The one failure that ends a run.
#[derive(Debug, Clone, Copy, PartialEq, Eq, Structural)]
pub enum FatalError {
    /// The page of a chapter could not be had in `LISTING_ATTEMPTS` requests.
    ListingUnavailable,
}

/// Where a chapter starts, given the cache: skipped if the cache knows its
/// directory, else at the first request for its page.
pub open spec fn start_state(cache: Map<Seq<char>, Seq<char>>, chapter_dir: Seq<char>) -> ChapterState {
    if cache.contains_key(chapter_dir) {
        ChapterState::Skipped
    } else {
        ChapterState::Fetching { attempt: 1 }
    }
}

/// Whether a chapter in this state has anything requested for it.
pub open spec fn is_fetching(state: ChapterState) -> bool {
    state is Fetching
}

/// Where a chapter stands after a request for its page has failed.
pub open spec fn after_failed_listing(state: ChapterState) -> ChapterState {
    match state {
        ChapterState::Fetching { attempt } => if attempt < LISTING_ATTEMPTS {
            ChapterState::Fetching { attempt: (attempt + 1) as u32 }
        } else {
            ChapterState::Aborted
        },
        other => other,
    }
}

/// The cache after a chapter was fetched with these failed images: the
/// chapter goes in if no image failed, and nothing changes otherwise.
pub open spec fn cache_after_report(
    cache: Map<Seq<char>, Seq<char>>,
    chapter_dir: Seq<char>,
    failed: Seq<usize>,
    image_count: Seq<char>,
) -> Map<Seq<char>, Seq<char>> {
    if failed.len() == 0 {
        cache.insert(chapter_dir, image_count)
    } else {
        cache
    }
}

/// Where a chapter ends after it was fetched with these failed images.
pub open spec fn state_after_report(failed: Seq<usize>) -> ChapterState {
    if failed.len() == 0 {
        ChapterState::Cached
    } else {
        ChapterState::ReportedAndLeftUncached
    }
}

/// A chapter that a run fetched is in the cache afterwards exactly if none
/// of its images failed in that run; the other chapters stay as they were.
pub proof fn lemma_cache_gating(
    cache: Map<Seq<char>, Seq<char>>,
    chapter_dir: Seq<char>,
    failed: Seq<usize>,
    image_count: Seq<char>,
)
    requires
        is_fetching(start_state(cache, chapter_dir)),
    ensures
        cache_after_report(cache, chapter_dir, failed, image_count).contains_key(chapter_dir)
            <==> failed.len() == 0,
        forall|other: Seq<char>|
            other != chapter_dir ==> (#[trigger] cache_after_report(
                cache,
                chapter_dir,
                failed,
                image_count,
            ).contains_key(other) <==> cache.contains_key(other)),
{
}

/// A chapter that was fetched without a failed image is skipped by the next
/// run, for which nothing is requested.
pub proof fn lemma_complete_chapter_is_skipped(
    cache: Map<Seq<char>, Seq<char>>,
    chapter_dir: Seq<char>,
    image_count: Seq<char>,
)
    ensures
        start_state(
            cache_after_report(cache, chapter_dir, Seq::<usize>::empty(), image_count),
            chapter_dir,
        ) == ChapterState::Skipped,
        !is_fetching(ChapterState::Skipped),
{
}

/// A chapter with a failed image is taken up again by the next run.
pub proof fn lemma_failed_chapter_is_fetched_again(
    cache: Map<Seq<char>, Seq<char>>,
    chapter_dir: Seq<char>,
    failed: Seq<usize>,
    image_count: Seq<char>,
)
    requires
        is_fetching(start_state(cache, chapter_dir)),
        failed.len() > 0,
    ensures
        is_fetching(
            start_state(cache_after_report(cache, chapter_dir, failed, image_count), chapter_dir),
        ),
{
}

/// Decides whether a chapter is fetched: not if the cache knows the
/// directory in which it is saved.
pub fn begin_chapter(cache: &CompletionCache, chapter_dir: &str) -> (state: ChapterState)
    ensures
        state == start_state(cache@, chapter_dir@),
{
    if cache.is_complete(chapter_dir) {
        ChapterState::Skipped
    } else {
        ChapterState::Fetching { attempt: 1 }
    }
}

/// Decides what follows a failed request for a chapter's page: another
/// request, to be made after `LISTING_RETRY_DELAY_SECS`, or the end of the
/// run once `LISTING_ATTEMPTS` requests have failed.
pub fn after_listing_failure(state: ChapterState) -> (next: Result<ChapterState, FatalError>)
    ensures
        match next {
            Ok(state_now) => state_now == after_failed_listing(state) && state_now
                != ChapterState::Aborted,
            Err(error) => error == FatalError::ListingUnavailable && after_failed_listing(state)
                == ChapterState::Aborted,
        },
        state == ChapterState::Aborted ==> next is Err,
{
    match state {
        ChapterState::Fetching { attempt } => if attempt < LISTING_ATTEMPTS {
            Ok(ChapterState::Fetching { attempt: attempt + 1 })
        } else {
            Err(FatalError::ListingUnavailable)
        },
        ChapterState::Aborted => Err(FatalError::ListingUnavailable),
        other => Ok(other),
    }
}

/// Closes a chapter that was fetched: records it in the cache as complete if
/// no image failed, and else puts its report on the list of failures and
/// leaves the cache alone. A chapter that is not being fetched is left as it
/// is, and so are cache and list.
pub fn settle_chapter(
    state: ChapterState,
    cache: &mut CompletionCache,
    chapter_dir: &str,
    report: DownLoadImgRes,
    failures: &mut Vec<DownLoadImgRes>,
) -> (end: ChapterState)
    ensures
        is_fetching(state) ==> {
            &&& end == state_after_report(report.errors@)
            &&& final(cache)@ == cache_after_report(
                old(cache)@,
                chapter_dir@,
                report.errors@,
                report.image_count@,
            )
            &&& final(failures)@ == if report.errors@.len() == 0 {
                old(failures)@
            } else {
                old(failures)@.push(report)
            }
        },
        !is_fetching(state) ==> {
            &&& end == state
            &&& final(cache)@ == old(cache)@
            &&& final(failures)@ == old(failures)@
        },
{
    match state {
        ChapterState::Fetching { attempt } => {
            if report.is_clean() {
                cache.mark_complete(chapter_dir, report.image_count.as_str());
                ChapterState::Cached
            } else {
                failures.push(report);
                ChapterState::ReportedAndLeftUncached
            }
        },
        other => other,
    }
}

} // verus!
