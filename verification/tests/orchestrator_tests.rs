use comic_archiver::antbyw::DownLoadImgRes;
use comic_archiver::cache::CompletionCache;
use comic_archiver::orchestrator::{
    after_listing_failure, begin_chapter, settle_chapter, ChapterState, FatalError,
    LISTING_ATTEMPTS, LISTING_RETRY_DELAY_SECS, LISTING_TIMEOUT_SECS,
};

fn report(errors: Vec<usize>, count: &str, name: &str) -> DownLoadImgRes {
    DownLoadImgRes {
        errors,
        image_count: count.to_string(),
        current_chapter_name: name.to_string(),
    }
}

#[test]
fn listing_policy_values() {
    assert_eq!(LISTING_ATTEMPTS, 3);
    assert_eq!(LISTING_RETRY_DELAY_SECS, 2);
    assert_eq!(LISTING_TIMEOUT_SECS, 10);
}

#[test]
fn unknown_chapter_is_fetched() {
    let cache = CompletionCache::new();
    assert_eq!(begin_chapter(&cache, "./c_单话/第1話"), ChapterState::Fetching { attempt: 1 });
}

#[test]
fn chapter_in_the_cache_is_skipped() {
    let mut cache = CompletionCache::new();
    cache.mark_complete("./c_单话/第1話", "24");
    assert_eq!(begin_chapter(&cache, "./c_单话/第1話"), ChapterState::Skipped);
    assert_eq!(begin_chapter(&cache, "./c_单话/第2話"), ChapterState::Fetching { attempt: 1 });
}

#[test]
fn listing_is_asked_for_three_times_before_the_run_ends() {
    let first = ChapterState::Fetching { attempt: 1 };
    let second = after_listing_failure(first);
    assert_eq!(second, Ok(ChapterState::Fetching { attempt: 2 }));
    let third = after_listing_failure(second.unwrap());
    assert_eq!(third, Ok(ChapterState::Fetching { attempt: 3 }));
    assert_eq!(after_listing_failure(third.unwrap()), Err(FatalError::ListingUnavailable));
    assert_eq!(
        after_listing_failure(ChapterState::Fetching { attempt: u32::MAX }),
        Err(FatalError::ListingUnavailable)
    );
}

#[test]
fn listing_failure_changes_no_chapter_that_is_not_being_fetched() {
    for state in [
        ChapterState::Pending,
        ChapterState::Skipped,
        ChapterState::Cached,
        ChapterState::ReportedAndLeftUncached,
    ] {
        assert_eq!(after_listing_failure(state), Ok(state));
    }
    assert_eq!(after_listing_failure(ChapterState::Aborted), Err(FatalError::ListingUnavailable));
}

#[test]
fn chapter_without_failed_image_goes_into_the_cache() {
    let mut cache = CompletionCache::new();
    let mut failures = Vec::new();
    let state = begin_chapter(&cache, "d/1");
    let end = settle_chapter(state, &mut cache, "d/1", report(vec![], "24", "1"), &mut failures);
    assert_eq!(end, ChapterState::Cached);
    assert!(cache.is_complete("d/1"));
    assert_eq!(cache.reported_count("d/1"), Some("24".to_string()));
    assert!(failures.is_empty());
}

#[test]
fn chapter_with_a_failed_image_is_reported_and_left_out_of_the_cache() {
    let mut cache = CompletionCache::new();
    let mut failures = Vec::new();
    let state = begin_chapter(&cache, "d/1");
    let end = settle_chapter(state, &mut cache, "d/1", report(vec![3], "24", "1"), &mut failures);
    assert_eq!(end, ChapterState::ReportedAndLeftUncached);
    assert!(!cache.is_complete("d/1"));
    assert!(cache.entries().is_empty());
    assert_eq!(failures.len(), 1);
    assert_eq!(failures[0].errors, vec![3]);
    assert_eq!(failures[0].current_chapter_name, "1");
}

#[test]
fn second_run_skips_what_the_first_run_completed() {
    let dirs = ["d/1", "d/2", "d/3"];
    let mut cache = CompletionCache::new();
    let mut failures = Vec::new();
    let mut fetched_in_first_run = 0;
    for dir in dirs {
        let state = begin_chapter(&cache, dir);
        if let ChapterState::Fetching { .. } = state {
            fetched_in_first_run += 1;
            settle_chapter(state, &mut cache, dir, report(vec![], "9", dir), &mut failures);
        }
    }
    assert_eq!(fetched_in_first_run, 3);
    let stored = cache.entries();
    let cache = CompletionCache::load(Some(stored));
    let mut fetched_in_second_run = 0;
    for dir in dirs {
        if begin_chapter(&cache, dir) != ChapterState::Skipped {
            fetched_in_second_run += 1;
        }
    }
    assert_eq!(fetched_in_second_run, 0);
}

#[test]
fn second_run_takes_up_only_the_chapter_that_failed() {
    let mut cache = CompletionCache::new();
    let mut failures = Vec::new();
    for (dir, errors) in [("d/1", vec![]), ("d/2", vec![0, 5]), ("d/3", vec![])] {
        let state = begin_chapter(&cache, dir);
        settle_chapter(state, &mut cache, dir, report(errors, "9", dir), &mut failures);
    }
    assert_eq!(failures.len(), 1);
    let cache = CompletionCache::load(Some(cache.entries()));
    assert_eq!(begin_chapter(&cache, "d/1"), ChapterState::Skipped);
    assert_eq!(begin_chapter(&cache, "d/2"), ChapterState::Fetching { attempt: 1 });
    assert_eq!(begin_chapter(&cache, "d/3"), ChapterState::Skipped);
}

#[test]
fn cache_holds_a_fetched_chapter_exactly_if_nothing_failed() {
    for errors in [vec![], vec![0], vec![1, 2, 3]] {
        let mut cache = CompletionCache::new();
        cache.mark_complete("other", "1");
        let mut failures = Vec::new();
        let state = begin_chapter(&cache, "d/1");
        let clean = errors.is_empty();
        settle_chapter(state, &mut cache, "d/1", report(errors, "9", "1"), &mut failures);
        assert_eq!(cache.is_complete("d/1"), clean);
        assert!(cache.is_complete("other"));
        assert_eq!(failures.is_empty(), clean);
    }
}

#[test]
fn settling_changes_nothing_for_a_chapter_that_is_not_being_fetched() {
    for state in [
        ChapterState::Pending,
        ChapterState::Skipped,
        ChapterState::Cached,
        ChapterState::ReportedAndLeftUncached,
        ChapterState::Aborted,
    ] {
        let mut cache = CompletionCache::new();
        let mut failures = Vec::new();
        let end = settle_chapter(state, &mut cache, "d/1", report(vec![], "9", "1"), &mut failures);
        assert_eq!(end, state);
        assert!(!cache.is_complete("d/1"));
        let end = settle_chapter(state, &mut cache, "d/1", report(vec![1], "9", "1"), &mut failures);
        assert_eq!(end, state);
        assert!(failures.is_empty());
    }
}

#[test]
fn listing_retry_does_not_lose_the_chapter() {
    let mut cache = CompletionCache::new();
    let mut failures = Vec::new();
    let state = begin_chapter(&cache, "d/1");
    let state = after_listing_failure(state).unwrap();
    let state = after_listing_failure(state).unwrap();
    let end = settle_chapter(state, &mut cache, "d/1", report(vec![], "", "1"), &mut failures);
    assert_eq!(end, ChapterState::Cached);
    assert_eq!(cache.reported_count("d/1"), Some(String::new()));
}
