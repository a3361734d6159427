use comic_archiver::fetch::{
    accept_body, begin_image, image_refs, image_stem, jpeg_path, plan_chapter, user_agent,
    AttemptError, ChapterFetch, ErrorTally, ImageStart, NextStep, Retrieval,
    ATTEMPT_TIMEOUT_SECS, CONCURRENT_IMAGES, MAX_ATTEMPTS, RETRY_BACKOFF_SECS,
};
use comic_archiver::normalize::{normalize, DownloadResult, FailureReason};
use image::{DynamicImage, ImageFormat, Rgb, RgbImage};
use std::io::Cursor;

fn png_bytes() -> Vec<u8> {
    let picture = DynamicImage::ImageRgb8(RgbImage::from_pixel(2, 2, Rgb([1, 2, 3])));
    let mut out = Cursor::new(Vec::new());
    picture.write_to(&mut out, ImageFormat::Png).unwrap();
    out.into_inner()
}

#[test]
fn policy_values() {
    assert_eq!(MAX_ATTEMPTS, 10);
    assert_eq!(RETRY_BACKOFF_SECS, 1);
    assert_eq!(ATTEMPT_TIMEOUT_SECS, 20);
    assert_eq!(CONCURRENT_IMAGES, 20);
}

#[test]
fn saved_image_is_not_requested_again() {
    assert_eq!(begin_image(true), ImageStart::Skip);
    assert_eq!(begin_image(false), ImageStart::Request);
}

#[test]
fn request_is_repeated_until_the_tenth_failure() {
    let mut retrieval = Retrieval::new();
    assert_eq!(retrieval.failed_attempts(), 0);
    for made in 1..=9 {
        assert_eq!(
            retrieval.record_error(AttemptError::TimedOut),
            NextStep::RetryAfter(1),
            "after failure {}",
            made
        );
        assert_eq!(retrieval.failed_attempts(), made);
    }
    assert_eq!(
        retrieval.record_error(AttemptError::TimedOut),
        NextStep::GiveUp(FailureReason::RetriesExhausted)
    );
    assert_eq!(retrieval.failed_attempts(), 10);
}

#[test]
fn nothing_is_counted_after_giving_up() {
    let mut retrieval = Retrieval::new();
    for _ in 0..10 {
        retrieval.record_error(AttemptError::Transport);
    }
    assert_eq!(
        retrieval.record_error(AttemptError::BadStatus),
        NextStep::GiveUp(FailureReason::RetriesExhausted)
    );
    assert_eq!(retrieval.failed_attempts(), 10);
    assert_eq!(
        retrieval.error_tally(),
        ErrorTally { bad_status: 0, transport: 10, timed_out: 0, body_read: 0 }
    );
}

#[test]
fn every_kind_of_error_is_retried_and_tallied() {
    let mut retrieval = Retrieval::new();
    let errors = [
        AttemptError::BadStatus,
        AttemptError::Transport,
        AttemptError::TimedOut,
        AttemptError::BodyRead,
        AttemptError::BodyRead,
        AttemptError::BadStatus,
        AttemptError::BadStatus,
    ];
    for error in errors {
        assert_eq!(retrieval.record_error(error), NextStep::RetryAfter(RETRY_BACKOFF_SECS));
    }
    assert_eq!(
        retrieval.error_tally(),
        ErrorTally { bad_status: 3, transport: 1, timed_out: 1, body_read: 2 }
    );
    assert_eq!(retrieval.failed_attempts(), 7);
}

#[test]
fn empty_body_is_a_failure() {
    assert_eq!(accept_body(vec![]), Err(FailureReason::EmptyBody));
    assert_eq!(accept_body(vec![0]), Ok(vec![0]));
    assert_eq!(accept_body(vec![1, 2, 3]), Ok(vec![1, 2, 3]));
}

#[test]
fn image_files_are_named_by_index() {
    assert_eq!(image_stem("./a/第1話", 0), "./a/第1話/0");
    assert_eq!(image_stem("d", 123), "d/123");
    assert_eq!(jpeg_path("./a/第1話", 0), "./a/第1話/0.jpg");
    assert_eq!(jpeg_path("", 10), "/10.jpg");
}

#[test]
fn chapter_plan_comes_from_the_first_image() {
    let plan = plan_chapter("https://img.example.com/a/b/001.png", "https://www.example.com");
    assert_eq!(plan.extension, "png");
    let expected: Vec<(String, String)> = [
        ("user-agent", user_agent()),
        ("referer", "https://www.example.com"),
        ("origin", "https://www.example.com"),
        ("sec-fetch-mode", "no-cors"),
    ]
    .iter()
    .map(|(name, value)| (name.to_string(), value.to_string()))
    .collect();
    assert_eq!(plan.headers, expected);
    assert!(user_agent().starts_with("Mozilla/5.0 "));
    assert!(user_agent().contains("Chrome/130.0.0.0"));
}

#[test]
fn new_chapter_has_nothing_in_flight() {
    let fetch = ChapterFetch::new(10, 20);
    assert_eq!(fetch.image_count(), 10);
    assert_eq!(fetch.permits(), 20);
    assert_eq!(fetch.in_flight_count(), 0);
    assert_eq!(fetch.started_count(), 0);
    assert_eq!(fetch.finished_count(), 0);
    assert!(!fetch.is_done());
    assert!(fetch.failed_indices().is_empty());
    assert!(ChapterFetch::new(0, 20).is_done());
}

#[test]
fn images_start_in_index_order_while_permits_last() {
    let mut fetch = ChapterFetch::new(5, 2);
    assert_eq!(fetch.start_next(), Some(0));
    assert_eq!(fetch.start_next(), Some(1));
    assert_eq!(fetch.start_next(), None);
    assert_eq!(fetch.in_flight_count(), 2);
    assert!(fetch.is_in_flight(0) && fetch.is_in_flight(1) && !fetch.is_in_flight(2));
    assert!(fetch.complete(0, false));
    assert_eq!(fetch.start_next(), Some(2));
    assert_eq!(fetch.start_next(), None);
    assert!(fetch.complete(2, false));
    assert!(fetch.complete(1, false));
    assert_eq!(fetch.start_next(), Some(3));
    assert_eq!(fetch.start_next(), Some(4));
    assert_eq!(fetch.start_next(), None);
    assert!(fetch.complete(4, false));
    assert!(!fetch.is_done());
    assert!(fetch.complete(3, false));
    assert!(fetch.is_done());
    assert_eq!(fetch.start_next(), None);
    assert_eq!(fetch.finished_count(), 5);
}

#[test]
fn without_permits_nothing_starts() {
    let mut fetch = ChapterFetch::new(3, 0);
    assert_eq!(fetch.start_next(), None);
    assert_eq!(fetch.in_flight_count(), 0);
    assert!(!fetch.is_done());
}

#[test]
fn only_an_image_in_flight_can_be_completed() {
    let mut fetch = ChapterFetch::new(3, 2);
    assert!(!fetch.complete(0, true));
    assert_eq!(fetch.start_next(), Some(0));
    assert!(!fetch.complete(1, true));
    assert!(!fetch.complete(7, true));
    assert!(fetch.complete(0, true));
    assert!(!fetch.complete(0, true));
    assert_eq!(fetch.failed_indices(), vec![0]);
    assert_eq!(fetch.finished_count(), 1);
}

#[test]
fn failures_come_out_sorted_whatever_the_order_of_completion() {
    let mut fetch = ChapterFetch::new(6, 6);
    for index in 0..6 {
        assert_eq!(fetch.start_next(), Some(index));
    }
    for (index, failed) in [(4, true), (1, true), (5, false), (0, true), (3, false), (2, true)] {
        assert!(fetch.complete(index, failed));
    }
    assert!(fetch.is_done());
    assert_eq!(fetch.failed_indices(), vec![0, 1, 2, 4]);
    let result = fetch.report("第1話");
    assert_eq!(result.temp_errors, vec![0, 1, 2, 4]);
    assert_eq!(result.current_chapter_name, "第1話");
}

#[test]
fn never_more_than_twenty_of_a_hundred_images_hold_a_permit() {
    let mut fetch = ChapterFetch::new(100, CONCURRENT_IMAGES);
    let mut running: Vec<usize> = Vec::new();
    let mut seed: u64 = 7;
    let mut most = 0;
    while !fetch.is_done() {
        while let Some(index) = fetch.start_next() {
            running.push(index);
            assert!(fetch.in_flight_count() <= 20);
        }
        assert_eq!(fetch.in_flight_count(), running.len());
        most = most.max(running.len());
        assert!(running.len() <= 20);
        seed = seed.wrapping_mul(6364136223846793005).wrapping_add(1442695040888963407);
        let pick = (seed >> 33) as usize % running.len();
        let index = running.swap_remove(pick);
        assert!(fetch.complete(index, false));
        assert_eq!(fetch.finished_count() + fetch.in_flight_count(), fetch.started_count());
    }
    assert_eq!(most, 20);
    assert_eq!(fetch.finished_count(), 100);
    assert_eq!(fetch.in_flight_count(), 0);
    assert!(fetch.failed_indices().is_empty());
}

#[test]
fn one_failed_image_leaves_the_others_alone() {
    let dir = "./comic_单话/第1話";
    let mut fetch = ChapterFetch::new(10, CONCURRENT_IMAGES);
    let mut results: Vec<Option<DownloadResult>> = (0..10).map(|_| None).collect();
    let mut started = Vec::new();
    while let Some(index) = fetch.start_next() {
        started.push(index);
    }
    assert_eq!(started, (0..10).collect::<Vec<usize>>());
    for index in started {
        assert_eq!(begin_image(false), ImageStart::Request);
        let mut retrieval = Retrieval::new();
        let result = if index == 3 {
            let mut requests = 0;
            let reason = loop {
                requests += 1;
                match retrieval.record_error(AttemptError::BadStatus) {
                    NextStep::RetryAfter(_) => continue,
                    NextStep::GiveUp(reason) => break reason,
                }
            };
            assert_eq!(requests, 10);
            DownloadResult::Failed(reason)
        } else {
            let body = accept_body(png_bytes()).unwrap();
            let normalized = normalize(&body, "png", &image_stem(dir, index)).unwrap();
            assert!(!normalized.counts_as_failure());
            normalized.result
        };
        let failed = !matches!(result, DownloadResult::Saved(_));
        assert!(fetch.complete(index, failed));
        results[index] = Some(result);
    }
    assert!(fetch.is_done());
    for (index, result) in results.iter().enumerate() {
        match result {
            Some(DownloadResult::Saved(path)) => {
                assert_ne!(index, 3);
                assert_eq!(path, &format!("./comic_单话/第1話/{}.jpg", index));
            }
            Some(DownloadResult::Failed(reason)) => {
                assert_eq!(index, 3);
                assert_eq!(*reason, FailureReason::RetriesExhausted);
            }
            other => panic!("image {} ended as {:?}", index, other),
        }
    }
    assert_eq!(fetch.report("第1話").temp_errors, vec![3]);
}

#[test]
fn placeholder_goes_into_the_failures() {
    let garbage: Vec<u8> = vec![1, 2, 3, 4, 5, 6, 7, 8, 9, 10];
    let mut fetch = ChapterFetch::new(3, CONCURRENT_IMAGES);
    while fetch.start_next().is_some() {}
    for index in 0..3 {
        let bytes = if index == 1 { garbage.clone() } else { png_bytes() };
        let normalized = normalize(&bytes, "png", &image_stem("c", index)).unwrap();
        if index == 1 {
            match &normalized.result {
                DownloadResult::SavedAsPlaceholder(path) => assert_eq!(path, "c/1.png"),
                other => panic!("garbage ended as {:?}", other),
            }
            assert_eq!(normalized.contents, garbage);
        }
        assert!(fetch.complete(index, normalized.counts_as_failure()));
    }
    assert_eq!(fetch.failed_indices(), vec![1]);
}

#[test]
fn images_are_numbered_from_zero() {
    let images = image_refs(vec!["u/a.jpg".to_string(), "u/b.jpg".to_string(), "u/a.jpg".to_string()]);
    let listed: Vec<(usize, &str)> =
        images.iter().map(|image| (image.index, image.source_url.as_str())).collect();
    assert_eq!(listed, vec![(0, "u/a.jpg"), (1, "u/b.jpg"), (2, "u/a.jpg")]);
    assert!(image_refs(vec![]).is_empty());
}
