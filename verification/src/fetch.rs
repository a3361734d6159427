//! The asset fetcher's decisions for one chapter: which image may start,
//! how often a request is repeated, and which images count as failed.
//!
//! Requests, timeouts and files are the caller's. The caller asks `start_next`
//! for the next image to start, runs that image's requests as `Retrieval`
//! tells it to, and reports each image back with `complete`.
use vstd::prelude::*;
use vstd::string::StringExecFns;
use crate::antbyw::DownImgRes;
use crate::normalize::FailureReason;
use crate::text::{decimal, push_decimal};
use crate::utils::{extension_of, handle_img_extension};

verus! {

/// How many images of one chapter may be in flight at once.
pub const CONCURRENT_IMAGES: usize = 20;

/// How many requests are made for one image before it is given up.
pub const MAX_ATTEMPTS: u32 = 10;

/// How long to wait after a failed request before the next one, in seconds.
pub const RETRY_BACKOFF_SECS: u64 = 1;

/// How long one request for an image may take, in seconds.
pub const ATTEMPT_TIMEOUT_SECS: u64 = 20;

/// `indices` is in strictly ascending order.
pub open spec fn strictly_ascending(indices: Seq<usize>) -> bool {
    forall|i: int, j: int| 0 <= i < j < indices.len() ==> indices[i] < indices[j]
}

/// The progress of one chapter's images, as a value to reason about: how
/// many images there are and how many permits, how many images were started
/// (they are started in the order of their indices), which of them hold a
/// permit, how many are finished and which of those failed.
#[verifier::ext_equal]
pub struct Progress {
    pub total: usize,
    pub limit: usize,
    pub started: usize,
    pub in_flight: Set<usize>,
    pub finished: usize,
    pub failed: Set<usize>,
}

/// What can happen to the progress of a chapter.
pub enum FetchEvent {
    /// The next image is started, if one is left and a permit is free.
    Start,
    /// The image with this index is reported back, as failed or not.
    Complete { index: usize, failed: bool },
}

impl Progress {
    /// A chapter of which nothing has been started.
    pub open spec fn begin(total: usize, limit: usize) -> Progress {
        Progress {
            total,
            limit,
            started: 0,
            in_flight: Set::empty(),
            finished: 0,
            failed: Set::empty(),
        }
    }

    /// Whether an image can start: one is left and a permit is free.
    pub open spec fn can_start(self) -> bool {
        self.started < self.total && self.in_flight.len() < self.limit
    }

    /// The progress after the next image was started, if one could start.
    pub open spec fn start(self) -> Progress {
        if self.can_start() {
            Progress {
                started: (self.started + 1) as usize,
                in_flight: self.in_flight.insert(self.started),
                ..self
            }
        } else {
            self
        }
    }

    /// The progress after the image with this index was reported back. Only
    /// an image that holds a permit can be reported; it gives the permit
    /// back and counts as finished, and as failed if it is reported so.
    pub open spec fn complete(self, index: usize, failed: bool) -> Progress {
        if self.in_flight.contains(index) {
            Progress {
                in_flight: self.in_flight.remove(index),
                finished: (self.finished + 1) as usize,
                failed: if failed {
                    self.failed.insert(index)
                } else {
                    self.failed
                },
                ..self
            }
        } else {
            self
        }
    }

    /// The progress after one event.
    pub open spec fn step(self, event: FetchEvent) -> Progress {
        match event {
            FetchEvent::Start => self.start(),
            FetchEvent::Complete { index, failed } => self.complete(index, failed),
        }
    }

    /// The progress after a run of events.
    pub open spec fn after(self, events: Seq<FetchEvent>) -> Progress
        decreases events.len(),
    {
        if events.len() == 0 {
            self
        } else {
            self.after(events.drop_last()).step(events.last())
        }
    }

    /// What holds of the progress of a chapter at every moment: no more
    /// images hold a permit than there are permits; every image that was
    /// started either holds a permit or is finished; and only finished
    /// images count as failed.
    pub open spec fn sound(self) -> bool {
        &&& self.in_flight.finite()
        &&& self.in_flight.len() <= self.limit
        &&& self.started <= self.total
        &&& self.finished + self.in_flight.len() == self.started
        &&& forall|i: usize| self.in_flight.contains(i) ==> i < self.started
        &&& forall|i: usize| self.failed.contains(i) ==> i < self.started && !self.in_flight.contains(i)
    }

    /// Whether every image of the chapter is finished.
    pub open spec fn is_done(self) -> bool {
        self.finished == self.total
    }

    /// A chapter of which nothing has been started is sound.
    pub proof fn lemma_begin_is_sound(total: usize, limit: usize)
        ensures
            Progress::begin(total, limit).sound(),
    {
    }

    /// No event makes sound progress unsound.
    pub proof fn lemma_step_keeps_sound(self, event: FetchEvent)
        requires
            self.sound(),
        ensures
            self.step(event).sound(),
    {
    }

    /// No run of events makes sound progress unsound, and none changes the
    /// number of images or of permits.
    pub proof fn lemma_run_keeps_sound(self, events: Seq<FetchEvent>)
        requires
            self.sound(),
        ensures
            self.after(events).sound(),
            self.after(events).total == self.total,
            self.after(events).limit == self.limit,
        decreases events.len(),
    {
        if events.len() > 0 {
            self.lemma_run_keeps_sound(events.drop_last());
            self.after(events.drop_last()).lemma_step_keeps_sound(events.last());
        }
    }

    /// While a chapter is not done and there is a permit at all, an image is
    /// in flight or the next one can start: the work never comes to a halt
    /// before its end.
    pub proof fn lemma_work_remains(self)
        requires
            self.sound(),
            !self.is_done(),
            self.limit > 0,
        ensures
            self.in_flight.len() > 0 || self.can_start(),
    {
    }

    /// Whatever happens to a chapter and in whatever order, at no moment do
    /// more images hold a permit than there are permits.
    pub proof fn lemma_permits_bound_the_images_in_flight(
        total: usize,
        limit: usize,
        events: Seq<FetchEvent>,
        moment: int,
    )
        requires
            0 <= moment <= events.len(),
        ensures
            Progress::begin(total, limit).after(events.take(moment)).in_flight.len() <= limit,
    {
        Progress::lemma_begin_is_sound(total, limit);
        Progress::begin(total, limit).lemma_run_keeps_sound(events.take(moment));
    }

    /// Whether an image counts as failed after a run of events depends on
    /// that image alone: it does if it did before, or if it was itself
    /// reported as failed while it held a permit. What the other images do,
    /// and whether they fail, changes nothing for it.
    pub proof fn lemma_failures_are_isolated(self, events: Seq<FetchEvent>, index: usize)
        ensures
            self.after(events).failed.contains(index) <==> self.failed.contains(index) || exists|
                moment: int,
            |
                0 <= moment < events.len() && #[trigger] events[moment] == (FetchEvent::Complete {
                    index,
                    failed: true,
                }) && self.after(events.take(moment)).in_flight.contains(index),
        decreases events.len(),
    {
        let reported = FetchEvent::Complete { index, failed: true };
        if events.len() > 0 {
            let earlier = events.drop_last();
            let last = events.len() - 1;
            self.lemma_failures_are_isolated(earlier, index);
            assert(events.take(last) =~= earlier);
            assert forall|moment: int| 0 <= moment < last implies earlier.take(moment)
                == events.take(moment) && earlier[moment] == events[moment] by {
                assert(earlier.take(moment) =~= events.take(moment));
            }
            if self.after(events).failed.contains(index) && !self.failed.contains(index) {
                if self.after(earlier).failed.contains(index) {
                    let moment = choose|moment: int|
                        0 <= moment < earlier.len() && #[trigger] earlier[moment] == reported
                            && self.after(earlier.take(moment)).in_flight.contains(index);
                    assert(events[moment] == reported);
                } else {
                    assert(events[last] == reported);
                }
            }
            if exists|moment: int|
                0 <= moment < events.len() && #[trigger] events[moment] == reported && self.after(
                    events.take(moment),
                ).in_flight.contains(index) {
                let moment = choose|moment: int|
                    0 <= moment < events.len() && #[trigger] events[moment] == reported
                        && self.after(events.take(moment)).in_flight.contains(index);
                if moment < last {
                    assert(earlier[moment] == reported);
                }
            }
        }
    }
}

/// The progress of one chapter's images: which were started, which hold a
/// permit now, how many are finished and which of those failed.
pub struct ChapterFetch {
    total: usize,
    limit: usize,
    started: usize,
    holding: Vec<usize>,
    finished: usize,
    failed: Vec<usize>,
}

impl View for ChapterFetch {
    type V = Progress;

    closed spec fn view(&self) -> Progress {
        Progress {
            total: self.total,
            limit: self.limit,
            started: self.started,
            in_flight: self.holding@.to_set(),
            finished: self.finished,
            failed: self.failed@.to_set(),
        }
    }
}

impl ChapterFetch {
    /// The progress is sound and is kept as it should be: every permit
    /// holder listed once, the failed images in ascending order.
    pub closed spec fn wf(&self) -> bool {
        &&& self@.sound()
        &&& self.holding@.no_duplicates()
        &&& strictly_ascending(self.failed@)
    }

    /// Well-formed progress is sound.
    pub proof fn lemma_wf_is_sound(self)
        requires
            self.wf(),
        ensures
            self@.sound(),
    {
    }

    /// The progress of a chapter of `total` images of which nothing has been
    /// started, with `limit` permits.
    pub fn new(total: usize, limit: usize) -> (fetch: ChapterFetch)
        ensures
            fetch.wf(),
            fetch@ == Progress::begin(total, limit),
    {
        let fetch = ChapterFetch {
            total,
            limit,
            started: 0,
            holding: Vec::new(),
            finished: 0,
            failed: Vec::new(),
        };
        assert(fetch.holding@.to_set() =~= Set::<usize>::empty());
        assert(fetch.failed@.to_set() =~= Set::<usize>::empty());
        assert(fetch@ =~= Progress::begin(total, limit));
        fetch
    }

    /// Starts the next image if one is left and a permit is free, and gives
    /// its index. Nothing changes where none can start.
    pub fn start_next(&mut self) -> (index: Option<usize>)
        requires
            old(self).wf(),
        ensures
            final(self).wf(),
            final(self)@ == old(self)@.start(),
            index == if old(self)@.can_start() {
                Some(old(self)@.started)
            } else {
                None
            },
    {
        proof {
            self.holding@.unique_seq_to_set();
        }
        if self.started < self.total && self.holding.len() < self.limit {
            let index = self.started;
            let ghost before = self.holding@;
            self.holding.push(index);
            self.started = index + 1;
            proof {
                assert(self.holding@.to_set() =~= before.to_set().insert(index)) by {
                    assert forall|x: usize| self.holding@.to_set().contains(x)
                        == before.to_set().insert(index).contains(x) by {
                        if self.holding@.contains(x) {
                            let k = choose|k: int| 0 <= k < self.holding@.len() && self.holding@[k] == x;
                            if k < before.len() {
                                assert(before[k] == x);
                            }
                        }
                        if before.contains(x) {
                            let k = choose|k: int| 0 <= k < before.len() && before[k] == x;
                            assert(self.holding@[k] == x);
                        }
                        if x == index {
                            assert(self.holding@[before.len() as int] == x);
                        }
                    }
                }
                assert(self.holding@.no_duplicates()) by {
                    assert forall|a: int, b: int|
                        0 <= a < self.holding@.len() && 0 <= b < self.holding@.len() && a
                            != b implies self.holding@[a] != self.holding@[b] by {
                        if a < before.len() {
                            assert(before.to_set().contains(before[a]));
                        }
                        if b < before.len() {
                            assert(before.to_set().contains(before[b]));
                        }
                    }
                }
                assert(self@ =~= old(self)@.start());
                old(self)@.lemma_step_keeps_sound(FetchEvent::Start);
            }
            Some(index)
        } else {
            None
        }
    }

    /// Whether the image with this index holds a permit.
    pub fn is_in_flight(&self, index: usize) -> (held: bool)
        ensures
            held == self@.in_flight.contains(index),
    {
        self.position(index).is_some()
    }

    /// Where in the list of permit holders `index` stands.
    fn position(&self, index: usize) -> (found: Option<usize>)
        ensures
            match found {
                Some(at) => at < self.holding@.len() && self.holding@[at as int] == index,
                None => !self.holding@.contains(index),
            },
    {
        let mut at: usize = 0;
        while at < self.holding.len()
            invariant
                at <= self.holding.len(),
                forall|k: int| 0 <= k < at ==> self.holding@[k] != index,
            decreases self.holding.len() - at,
        {
            if self.holding[at] == index {
                return Some(at);
            }
            at += 1;
        }
        None
    }

    /// Takes back the permit of the image with this index and counts the
    /// image as finished, and as failed if it is reported so. The answer is
    /// whether the image held a permit; nothing changes where it did not.
    pub fn complete(&mut self, index: usize, failed: bool) -> (accepted: bool)
        requires
            old(self).wf(),
        ensures
            final(self).wf(),
            final(self)@ == old(self)@.complete(index, failed),
            accepted == old(self)@.in_flight.contains(index),
    {
        let at = match self.position(index) {
            Some(at) => at,
            None => {
                return false;
            },
        };
        let ghost held = self.holding@;
        let ghost failures = self.failed@;
        proof {
            held.unique_seq_to_set();
            assert(held.to_set().contains(held[at as int]));
        }
        self.holding.remove(at);
        self.finished = self.finished + 1;
        proof {
            assert forall|k: int| 0 <= k < self.holding@.len() implies self.holding@[k] == held[if k
                < at {
                k
            } else {
                k + 1
            }] by {}
            assert(self.holding@.no_duplicates());
            assert(self.holding@.to_set() =~= held.to_set().remove(index)) by {
                assert forall|x: usize| self.holding@.to_set().contains(x) == held.to_set().remove(
                    index,
                ).contains(x) by {
                    if self.holding@.contains(x) {
                        let k = choose|k: int| 0 <= k < self.holding@.len() && self.holding@[k] == x;
                        assert(held[if k < at { k } else { k + 1 }] == x);
                    }
                    if held.contains(x) && x != index {
                        let k = choose|k: int| 0 <= k < held.len() && held[k] == x;
                        if k < at {
                            assert(self.holding@[k] == x);
                        } else {
                            assert(self.holding@[k - 1] == x);
                        }
                    }
                }
            }
        }
        if failed {
            let mut slot: usize = 0;
            while slot < self.failed.len() && self.failed[slot] < index
                invariant
                    slot <= self.failed.len(),
                    self.failed@ == failures,
                    forall|k: int| 0 <= k < slot ==> failures[k] < index,
                decreases self.failed.len() - slot,
            {
                slot += 1;
            }
            self.failed.insert(slot, index);
            proof {
                let now = self.failed@;
                assert forall|k: int| 0 <= k < now.len() implies now[k] == (if k < slot {
                    failures[k]
                } else if k == slot {
                    index
                } else {
                    failures[k - 1]
                }) by {}
                assert(strictly_ascending(now)) by {
                    assert forall|i: int, j: int| 0 <= i < j < now.len() implies now[i] < now[j] by {
                        if j > slot && i < slot {
                            assert(failures[i] < failures[j - 1]);
                        }
                        if i == slot {
                            assert(failures[slot as int] <= failures[j - 1]);
                            assert(failures.to_set().contains(failures[slot as int]));
                        }
                    }
                }
                assert(now.to_set() =~= failures.to_set().insert(index)) by {
                    assert forall|x: usize| now.to_set().contains(x) == failures.to_set().insert(
                        index,
                    ).contains(x) by {
                        if now.contains(x) {
                            let k = choose|k: int| 0 <= k < now.len() && now[k] == x;
                            if k < slot {
                                assert(failures[k] == x);
                            } else if k > slot {
                                assert(failures[k - 1] == x);
                            }
                        }
                        if failures.contains(x) {
                            let k = choose|k: int| 0 <= k < failures.len() && failures[k] == x;
                            if k < slot {
                                assert(now[k] == x);
                            } else {
                                assert(now[k + 1] == x);
                            }
                        }
                        if x == index {
                            assert(now[slot as int] == x);
                        }
                    }
                }
            }
        }
        proof {
            assert(self@ =~= old(self)@.complete(index, failed));
            old(self)@.lemma_step_keeps_sound(FetchEvent::Complete { index, failed });
        }
        true
    }

    /// The number of images that hold a permit.
    pub fn in_flight_count(&self) -> (count: usize)
        requires
            self.wf(),
        ensures
            count == self@.in_flight.len(),
            count <= self@.limit,
    {
        proof {
            self.holding@.unique_seq_to_set();
        }
        self.holding.len()
    }

    /// The number of images that were started so far.
    pub fn started_count(&self) -> (count: usize)
        ensures
            count == self@.started,
    {
        self.started
    }

    /// The number of images that are finished.
    pub fn finished_count(&self) -> (count: usize)
        ensures
            count == self@.finished,
    {
        self.finished
    }

    /// The number of images in the chapter.
    pub fn image_count(&self) -> (count: usize)
        ensures
            count == self@.total,
    {
        self.total
    }

    /// The number of permits.
    pub fn permits(&self) -> (count: usize)
        ensures
            count == self@.limit,
    {
        self.limit
    }

    /// Whether every image of the chapter is finished.
    pub fn is_done(&self) -> (done: bool)
        ensures
            done == self@.is_done(),
    {
        self.finished == self.total
    }

    /// The chapter's result: the indices of the failed images in ascending
    /// order, under the chapter's name.
    pub fn report(&self, chapter_name: &str) -> (result: DownImgRes)
        requires
            self.wf(),
        ensures
            strictly_ascending(result.temp_errors@),
            result.temp_errors@.to_set() == self@.failed,
            result.current_chapter_name@ == chapter_name@,
    {
        DownImgRes {
            temp_errors: self.failed.clone(),
            current_chapter_name: chapter_name.to_owned(),
        }
    }

    /// The indices of the failed images, in ascending order.
    pub fn failed_indices(&self) -> (indices: Vec<usize>)
        requires
            self.wf(),
        ensures
            strictly_ascending(indices@),
            indices@.to_set() == self@.failed,
    {
        self.failed.clone()
    }
}

/// The ways in which one request for an image can go wrong.
#[derive(Debug, Clone, Copy, PartialEq, Eq, Structural)]
pub enum AttemptError {
    /// The server answered with a status other than success.
    BadStatus,
    /// The request could not be sent or the answer not received.
    Transport,
    /// No answer came within the time allowed.
    TimedOut,
    /// The answer came, but its body could not be read to the end.
    BodyRead,
}

/// How often each kind of error was met in the requests for one image.
#[derive(Debug, Clone, Copy, PartialEq, Eq, Structural)]
pub struct ErrorTally {
    pub bad_status: u32,
    pub transport: u32,
    pub timed_out: u32,
    pub body_read: u32,
}

impl ErrorTally {
    /// The number of errors of all kinds.
    pub open spec fn total(self) -> int {
        self.bad_status + self.transport + self.timed_out + self.body_read
    }

    /// The tally with one more error of the given kind.
    pub open spec fn one_more(self, error: AttemptError) -> ErrorTally {
        match error {
            AttemptError::BadStatus => ErrorTally {
                bad_status: (self.bad_status + 1) as u32,
                ..self
            },
            AttemptError::Transport => ErrorTally {
                transport: (self.transport + 1) as u32,
                ..self
            },
            AttemptError::TimedOut => ErrorTally {
                timed_out: (self.timed_out + 1) as u32,
                ..self
            },
            AttemptError::BodyRead => ErrorTally {
                body_read: (self.body_read + 1) as u32,
                ..self
            },
        }
    }
}

/// What to do after a request for an image has failed.
#[derive(Debug, Clone, Copy, PartialEq, Eq, Structural)]
pub enum NextStep {
    /// Wait this many seconds, then send the request again.
    RetryAfter(u64),
    /// Make no further request: the image has failed, for this reason.
    GiveUp(FailureReason),
}

/// The failed requests for one image so far.
#[derive(Debug)]
pub struct Retrieval {
    failures: u32,
    tally: ErrorTally,
}

impl Retrieval {
    #[verifier::type_invariant]
    spec fn within_budget(self) -> bool {
        self.failures <= MAX_ATTEMPTS && self.tally.total() == self.failures
    }

    /// The number of requests that have failed.
    pub closed spec fn failures(&self) -> nat {
        self.failures as nat
    }

    /// The failed requests by kind of error.
    pub closed spec fn tally(&self) -> ErrorTally {
        self.tally
    }

    /// The state before the first request.
    pub fn new() -> (retrieval: Retrieval)
        ensures
            retrieval.failures() == 0,
            retrieval.tally() == (ErrorTally { bad_status: 0, transport: 0, timed_out: 0, body_read: 0 }),
    {
        Retrieval {
            failures: 0,
            tally: ErrorTally { bad_status: 0, transport: 0, timed_out: 0, body_read: 0 },
        }
    }

    /// Takes note of a failed request and says what to do next: to try again
    /// after the backoff while fewer than `MAX_ATTEMPTS` requests have
    /// failed, and to give up once that many have. After that nothing is
    /// counted any more.
    pub fn record_error(&mut self, error: AttemptError) -> (step: NextStep)
        ensures
            final(self).failures() <= MAX_ATTEMPTS,
            final(self).tally().total() == final(self).failures(),
            old(self).failures() < MAX_ATTEMPTS ==> final(self).failures() == old(self).failures() + 1
                && final(self).tally() == old(self).tally().one_more(error),
            old(self).failures() >= MAX_ATTEMPTS ==> final(self).failures() == old(self).failures()
                && final(self).tally() == old(self).tally(),
            step == if final(self).failures() < MAX_ATTEMPTS {
                NextStep::RetryAfter(RETRY_BACKOFF_SECS)
            } else {
                NextStep::GiveUp(FailureReason::RetriesExhausted)
            },
    {
        proof {
            use_type_invariant(&*self);
        }
        if self.failures < MAX_ATTEMPTS {
            let tally = self.tally;
            let counted = match error {
                AttemptError::BadStatus => ErrorTally { bad_status: tally.bad_status + 1, ..tally },
                AttemptError::Transport => ErrorTally { transport: tally.transport + 1, ..tally },
                AttemptError::TimedOut => ErrorTally { timed_out: tally.timed_out + 1, ..tally },
                AttemptError::BodyRead => ErrorTally { body_read: tally.body_read + 1, ..tally },
            };
            *self = Retrieval { failures: self.failures + 1, tally: counted };
        }
        if self.failures < MAX_ATTEMPTS {
            NextStep::RetryAfter(RETRY_BACKOFF_SECS)
        } else {
            NextStep::GiveUp(FailureReason::RetriesExhausted)
        }
    }

    /// The number of requests that have failed.
    pub fn failed_attempts(&self) -> (count: u32)
        ensures
            count == self.failures(),
            count <= MAX_ATTEMPTS,
    {
        proof {
            use_type_invariant(self);
        }
        self.failures
    }

    /// The failed requests by kind of error.
    pub fn error_tally(&self) -> (tally: ErrorTally)
        ensures
            tally == self.tally(),
            tally.total() == self.failures(),
    {
        proof {
            use_type_invariant(self);
        }
        self.tally
    }
}

/// Whether an image is requested at all.
#[derive(Debug, Clone, Copy, PartialEq, Eq, Structural)]
pub enum ImageStart {
    /// The image's JPEG file is there already: nothing is requested.
    Skip,
    /// The image is requested.
    Request,
}

/// Decides whether an image is requested, given whether its JPEG file
/// exists. An image that was saved by an earlier run costs no request.
pub fn begin_image(jpeg_exists: bool) -> (start: ImageStart)
    ensures
        start == if jpeg_exists {
            ImageStart::Skip
        } else {
            ImageStart::Request
        },
{
    if jpeg_exists {
        ImageStart::Skip
    } else {
        ImageStart::Request
    }
}

/// Takes the body of a successful answer: an empty one is a failure, for
/// which no further request is made.
pub fn accept_body(body: Vec<u8>) -> (accepted: Result<Vec<u8>, FailureReason>)
    ensures
        match accepted {
            Ok(bytes) => body@.len() > 0 && bytes@ == body@,
            Err(reason) => body@.len() == 0 && reason == FailureReason::EmptyBody,
        },
{
    if body.len() == 0 {
        Err(FailureReason::EmptyBody)
    } else {
        Ok(body)
    }
}

/// The path of an image's file without its extension: the image's index
/// within the chapter, in the chapter's directory.
pub fn image_stem(chapter_dir: &str, index: usize) -> (stem: String)
    ensures
        stem@ == chapter_dir@ + "/"@ + decimal(index as nat),
{
    let mut stem = String::new();
    stem.append(chapter_dir);
    stem.append("/");
    push_decimal(&mut stem, index as u64);
    stem
}

/// The path of the JPEG file of an image. Where this file exists the image
/// is taken as done.
pub fn jpeg_path(chapter_dir: &str, index: usize) -> (path: String)
    ensures
        path@ == chapter_dir@ + "/"@ + decimal(index as nat) + ".jpg"@,
{
    let mut path = image_stem(chapter_dir, index);
    path.append(".jpg");
    path
}

/// The user agent that every request for an image names.
pub open spec fn user_agent_text() -> Seq<char> {
    "Mozilla/5.0 (Windows NT 10.0; Win64; x64) AppleWebKit/537.36 (KHTML, like Gecko) Chrome/130.0.0.0 Safari/537.36"@
}

/// The user agent that every request for an image names: that of a common
/// browser.
pub fn user_agent() -> (agent: &'static str)
    ensures
        agent@ == user_agent_text(),
{
    "Mozilla/5.0 (Windows NT 10.0; Win64; x64) AppleWebKit/537.36 (KHTML, like Gecko) Chrome/130.0.0.0 Safari/537.36"
}

/// The headers of a request for an image, given the site root that is sent
/// as referer and as origin.
pub open spec fn headers_for(origin: Seq<char>) -> Seq<(Seq<char>, Seq<char>)> {
    seq![
        ("user-agent"@, user_agent_text()),
        ("referer"@, origin),
        ("origin"@, origin),
        ("sec-fetch-mode"@, "no-cors"@),
    ]
}

/// What all requests for the images of one chapter share. It is worked out
/// once, from the chapter's first image, and handed to every request.
#[derive(Debug)]
pub struct ChapterPlan {
    /// The nominal extension of the chapter's images.
    pub extension: String,
    /// The request headers, as pairs of name and value.
    pub headers: Vec<(String, String)>,
}

/// Works out what the requests for a chapter's images share: the extension
/// that the first image's URL ends in, and the headers with `origin` as
/// referer and origin.
pub fn plan_chapter(first_url: &str, origin: &str) -> (plan: ChapterPlan)
    ensures
        plan.extension@ == extension_of(first_url@),
        plan.headers.deep_view() == headers_for(origin@),
{
    let mut headers: Vec<(String, String)> = Vec::new();
    headers.push(("user-agent".to_owned(), user_agent().to_owned()));
    headers.push(("referer".to_owned(), origin.to_owned()));
    headers.push(("origin".to_owned(), origin.to_owned()));
    headers.push(("sec-fetch-mode".to_owned(), "no-cors".to_owned()));
    assert(headers.deep_view() =~= headers_for(origin@));
    ChapterPlan { extension: handle_img_extension(first_url), headers }
}

/// One image of a chapter: its place in the chapter, counted from 0, and
/// where it is found.
#[derive(Debug)]
pub struct ImageRef {
    pub index: usize,
    pub source_url: String,
}

/// Numbers the images of a chapter in the order of their URLs.
pub fn image_refs(urls: Vec<String>) -> (images: Vec<ImageRef>)
    ensures
        images@.len() == urls@.len(),
        forall|i: int|
            0 <= i < images@.len() ==> (#[trigger] images@[i]).index == i && images@[i].source_url@
                == urls@[i]@,
{
    let mut images: Vec<ImageRef> = Vec::new();
    let mut i: usize = 0;
    while i < urls.len()
        invariant
            i <= urls.len(),
            images@.len() == i,
            forall|j: int|
                0 <= j < i ==> (#[trigger] images@[j]).index == j && images@[j].source_url@
                    == urls@[j]@,
        decreases urls.len() - i,
    {
        images.push(ImageRef { index: i, source_url: urls[i].clone() });
        i += 1;
    }
    images
}

} // verus!
