//! Downloading the images of an article, round by round.
//!
//! In the first round each image is tried once. Images that failed are tried
//! again in a later round, after all other images of the article are through.

use vstd::prelude::*;

use crate::article::{
    image_models, law_existing_images_are_skipped, planned, scanned, ImageModel, ImagePlan,
};

verus! {

/// How often a failed image is tried again.
pub const MAX_RETRIES: u32 = 1;

/// The pause before the first retry; it doubles with each further one.
pub const RETRY_BASE_DELAY_MS: u64 = 1000;

/// The pause before attempt number `attempt`, counted from 0.
pub open spec fn backoff(attempt: nat) -> nat
    decreases attempt,
{
    if attempt == 0 {
        0
    } else if attempt == 1 {
        RETRY_BASE_DELAY_MS as nat
    } else {
        2 * backoff((attempt - 1) as nat)
    }
}

/// The pause before attempt number `attempt`, counted from 0.
pub fn backoff_ms(attempt: u32) -> (ms: u64)
    requires
        backoff(attempt as nat) <= u64::MAX,
    ensures
        ms == backoff(attempt as nat),
    decreases attempt,
{
    if attempt == 0 {
        0
    } else if attempt == 1 {
        RETRY_BASE_DELAY_MS
    } else {
        2 * backoff_ms(attempt - 1)
    }
}

/// Where an image stands.
#[derive(Clone, Copy, Debug, PartialEq, Eq, Structural)]
pub enum ImageStatus {
    /// To be tried in this round.
    Queued,
    /// Failed in this round, to be tried again in the next one.
    Failed,
    /// On disk.
    Downloaded,
    /// Given up.
    Lost,
}

/// What came of one attempt.
#[derive(Clone, Copy, Debug, PartialEq, Eq, Structural)]
pub enum AttemptReport {
    /// The image is on disk, and with it this many of the article.
    Downloaded { count: u32 },
    /// The image will be tried again.
    WillRetry,
    /// The image is given up.
    GaveUp,
}

/// Where the images of an article stand.
pub struct RunModel {
    pub tasks: Seq<ImageModel>,
    pub status: Seq<ImageStatus>,
    pub round: nat,
}

/// The number of images on disk.
pub open spec fn downloaded_count(status: Seq<ImageStatus>) -> nat
    decreases status.len(),
{
    if status.len() == 0 {
        0
    } else {
        downloaded_count(status.drop_last()) + if status.last() is Downloaded {
            1nat
        } else {
            0
        }
    }
}

/// All images are to be tried.
pub open spec fn run_start(tasks: Seq<ImageModel>) -> RunModel {
    RunModel { tasks, status: Seq::new(tasks.len(), |i: int| ImageStatus::Queued), round: 0 }
}

/// Where the image of one attempt stands afterwards.
pub open spec fn status_after(round: nat, ok: bool) -> ImageStatus {
    if ok {
        ImageStatus::Downloaded
    } else if round < MAX_RETRIES {
        ImageStatus::Failed
    } else {
        ImageStatus::Lost
    }
}

/// Where the images stand after an attempt at image `i`.
pub open spec fn after_attempt(before: RunModel, i: int, ok: bool) -> RunModel {
    RunModel {
        tasks: before.tasks,
        status: before.status.update(i, status_after(before.round, ok)),
        round: before.round,
    }
}

/// Some image waits for the next round.
pub open spec fn any_failed(status: Seq<ImageStatus>) -> bool {
    status.contains(ImageStatus::Failed)
}

/// Where an image stands in the next round: what failed is to be tried, and what
/// never came to an end is given up.
pub open spec fn status_in_next_round(status: ImageStatus) -> ImageStatus {
    match status {
        ImageStatus::Failed => ImageStatus::Queued,
        ImageStatus::Queued => ImageStatus::Lost,
        other => other,
    }
}

/// Where the images stand in the next round.
pub open spec fn next_round_of(before: RunModel) -> RunModel {
    RunModel {
        tasks: before.tasks,
        status: before.status.map_values(|s: ImageStatus| status_in_next_round(s)),
        round: before.round + 1,
    }
}

/// The images that are to be tried in this round, in order.
pub open spec fn queued(status: Seq<ImageStatus>) -> Seq<int>
    decreases status.len(),
{
    if status.len() == 0 {
        Seq::empty()
    } else {
        let before = queued(status.drop_last());
        if status.last() is Queued {
            before.push(status.len() - 1)
        } else {
            before
        }
    }
}

/// The rounds are within their number, and nothing waits for a round that will
/// not come.
pub open spec fn orderly(model: RunModel) -> bool {
    &&& model.status.len() == model.tasks.len()
    &&& model.round <= MAX_RETRIES
    &&& model.round == MAX_RETRIES ==> !any_failed(model.status)
}

/// The images of an article on their way to the disk.
pub struct DownloadRun {
    tasks: Vec<ImagePlan>,
    status: Vec<ImageStatus>,
    round: u32,
    downloaded: u32,
}

impl View for DownloadRun {
    type V = RunModel;

    closed spec fn view(&self) -> RunModel {
        RunModel {
            tasks: image_models(self.tasks@),
            status: self.status@,
            round: self.round as nat,
        }
    }
}

impl DownloadRun {
    /// The rounds are in order, and the images on disk are counted.
    pub closed spec fn wf(&self) -> bool {
        &&& orderly(self@)
        &&& self.tasks.len() <= u32::MAX
        &&& self.downloaded == downloaded_count(self.status@)
    }

    /// All images are to be tried.
    pub fn new(tasks: Vec<ImagePlan>) -> (run: DownloadRun)
        requires
            tasks.len() <= u32::MAX,
        ensures
            run.wf(),
            run@ == run_start(image_models(tasks@)),
    {
        let mut status: Vec<ImageStatus> = Vec::new();
        let mut i: usize = 0;
        while i < tasks.len()
            invariant
                i <= tasks.len(),
                status@ =~= Seq::new(i as nat, |k: int| ImageStatus::Queued),
                downloaded_count(status@) == 0,
            decreases tasks.len() - i,
        {
            let ghost before = status@;
            status.push(ImageStatus::Queued);
            assert(status@.drop_last() =~= before);
            i = i + 1;
        }
        let run = DownloadRun { tasks, status, round: 0, downloaded: 0 };
        assert(run@.status =~= run_start(image_models(tasks@)).status);
        run
    }

    /// The number of images.
    pub fn len(&self) -> (n: usize)
        ensures
            n == self@.tasks.len(),
    {
        self.tasks.len()
    }

    /// The image at `i`.
    pub fn task(&self, i: usize) -> (plan: &ImagePlan)
        requires
            i < self@.tasks.len(),
        ensures
            plan@ == self@.tasks[i as int],
    {
        &self.tasks[i]
    }

    /// The number of images on disk.
    pub fn downloaded(&self) -> (n: u32)
        requires
            self.wf(),
        ensures
            n == downloaded_count(self@.status),
    {
        self.downloaded
    }

    /// The images that are to be tried in this round, in order.
    pub fn batch(&self) -> (batch: Vec<usize>)
        ensures
            batch@.map_values(|i: usize| i as int) == queued(self@.status),
    {
        let mut batch: Vec<usize> = Vec::new();
        let mut i: usize = 0;
        assert(batch@.map_values(|i: usize| i as int) =~= queued(self.status@.take(0)));
        while i < self.status.len()
            invariant
                i <= self.status.len(),
                batch@.map_values(|i: usize| i as int) == queued(self.status@.take(i as int)),
            decreases self.status.len() - i,
        {
            let ghost before = batch@;
            proof {
                assert(self.status@.take(i + 1).drop_last() =~= self.status@.take(i as int));
            }
            if self.status[i] == ImageStatus::Queued {
                batch.push(i);
                assert(batch@.map_values(|i: usize| i as int) =~= before.map_values(
                    |i: usize| i as int,
                ).push(i as int));
            }
            i = i + 1;
        }
        assert(self.status@.take(i as int) =~= self.status@);
        batch
    }

    /// Tells whether image `i` is to be tried in this round.
    pub fn is_queued(&self, i: usize) -> (yes: bool)
        ensures
            yes == (i < self@.status.len() && self@.status[i as int] is Queued),
    {
        i < self.status.len() && self.status[i] == ImageStatus::Queued
    }

    /// Takes in what came of the attempt at image `i` in this round.
    pub fn attempted(&mut self, i: usize, ok: bool) -> (report: AttemptReport)
        requires
            old(self).wf(),
            i < old(self)@.status.len(),
            old(self)@.status[i as int] is Queued,
        ensures
            final(self).wf(),
            final(self)@ == after_attempt(old(self)@, i as int, ok),
            report == match status_after(old(self)@.round, ok) {
                ImageStatus::Downloaded => AttemptReport::Downloaded {
                    count: downloaded_count(final(self)@.status) as u32,
                },
                ImageStatus::Failed => AttemptReport::WillRetry,
                _ => AttemptReport::GaveUp,
            },
            downloaded_count(final(self)@.status) == downloaded_count(old(self)@.status) + if ok {
                1nat
            } else {
                0
            },
    {
        let ghost before = self@;
        proof {
            lemma_count_update(self.status@, i as int, status_after(before.round, ok));
            lemma_count_bound(self.status@.update(i as int, status_after(before.round, ok)));
            assert forall|k: int|
                0 <= k < before.status.len() && self.round
                    == MAX_RETRIES implies #[trigger] before.status.update(
                i as int,
                status_after(before.round, ok),
            )[k] != ImageStatus::Failed by {
                assert(before.status.contains(before.status[k]));
            }
        }
        if ok {
            self.status.set(i, ImageStatus::Downloaded);
            self.downloaded = self.downloaded + 1;
            AttemptReport::Downloaded { count: self.downloaded }
        } else if self.round < MAX_RETRIES {
            self.status.set(i, ImageStatus::Failed);
            AttemptReport::WillRetry
        } else {
            self.status.set(i, ImageStatus::Lost);
            AttemptReport::GaveUp
        }
    }

    /// Goes on to the next round, if an image waits for it, and gives the pause
    /// to make before it. Called when all attempts of this round are through.
    pub fn next_round(&mut self) -> (pause_ms: Option<u64>)
        requires
            old(self).wf(),
        ensures
            final(self).wf(),
            if any_failed(old(self)@.status) {
                &&& final(self)@ == next_round_of(old(self)@)
                &&& pause_ms matches Some(ms) && ms == backoff(final(self)@.round)
            } else {
                &&& final(self)@ == old(self)@
                &&& pause_ms is None
            },
            downloaded_count(final(self)@.status) == downloaded_count(old(self)@.status),
    {
        let ghost before = self@;
        let n: usize = self.status.len();
        let mut next: Vec<ImageStatus> = Vec::new();
        let mut any = false;
        let mut i: usize = 0;
        while i < n
            invariant
                i <= n,
                n == self.status.len(),
                self.status@ == before.status,
                next@ =~= before.status.take(i as int).map_values(
                    |s: ImageStatus| status_in_next_round(s),
                ),
                any == any_failed(before.status.take(i as int)),
                downloaded_count(next@) == downloaded_count(before.status.take(i as int)),
            decreases n - i,
        {
            let ghost so_far = next@;
            let status = self.status[i];
            proof {
                let short = before.status.take(i as int);
                let longer = before.status.take(i + 1);
                assert(longer.drop_last() =~= short);
                assert(longer =~= short.push(status));
                if any_failed(short) {
                    let k = choose|k: int| 0 <= k < short.len() && short[k] == ImageStatus::Failed;
                    assert(longer[k] == ImageStatus::Failed);
                }
                if status is Failed {
                    assert(longer[i as int] == ImageStatus::Failed);
                }
                if any_failed(longer) {
                    let k = choose|k: int|
                        0 <= k < longer.len() && longer[k] == ImageStatus::Failed;
                    if k < i {
                        assert(short[k] == ImageStatus::Failed);
                    }
                }
            }
            match status {
                ImageStatus::Failed => {
                    any = true;
                    next.push(ImageStatus::Queued);
                },
                ImageStatus::Queued => {
                    next.push(ImageStatus::Lost);
                },
                ImageStatus::Downloaded => {
                    next.push(ImageStatus::Downloaded);
                },
                ImageStatus::Lost => {
                    next.push(ImageStatus::Lost);
                },
            }
            assert(next@.drop_last() =~= so_far);
            i = i + 1;
        }
        assert(before.status.take(i as int) =~= before.status);
        if !any {
            return None;
        }
        self.status = next;
        self.round = self.round + 1;
        proof {
            assert forall|k: int| 0 <= k < next@.len() implies next@[k] != ImageStatus::Failed by {
            }
            assert(backoff(1) == RETRY_BASE_DELAY_MS as nat);
        }
        Some(backoff_ms(self.round))
    }
}

/// There are no more images on disk than images.
proof fn lemma_count_bound(status: Seq<ImageStatus>)
    ensures
        downloaded_count(status) <= status.len(),
    decreases status.len(),
{
    if status.len() > 0 {
        lemma_count_bound(status.drop_last());
    }
}

/// A change to one image that was not on disk counts at most that one.
proof fn lemma_count_update(status: Seq<ImageStatus>, i: int, new: ImageStatus)
    requires
        0 <= i < status.len(),
        !(status[i] is Downloaded),
    ensures
        downloaded_count(status.update(i, new)) == downloaded_count(status) + if new is Downloaded {
            1nat
        } else {
            0
        },
    decreases status.len(),
{
    let short = status.drop_last();
    let changed = status.update(i, new);
    if i == status.len() - 1 {
        assert(changed.drop_last() =~= short);
    } else {
        lemma_count_update(short, i, new);
        assert(changed.drop_last() =~= short.update(i, new));
    }
}

/// What can happen to the images of an article.
pub enum RunEvent {
    /// An attempt at an image came to an end.
    Attempt { image: int, ok: bool },
    /// The next round began.
    NextRound,
}

/// The event can happen: only an image that is queued is tried, and a round
/// begins only when an image waits for it.
pub open spec fn can_happen(before: RunModel, event: RunEvent) -> bool {
    match event {
        RunEvent::Attempt { image, ok } => 0 <= image < before.status.len()
            && before.status[image] is Queued,
        RunEvent::NextRound => any_failed(before.status),
    }
}

/// Where the images stand after the event.
pub open spec fn after_event(before: RunModel, event: RunEvent) -> RunModel {
    match event {
        RunEvent::Attempt { image, ok } => after_attempt(before, image, ok),
        RunEvent::NextRound => next_round_of(before),
    }
}

/// The events can happen one after the other.
pub open spec fn can_run(before: RunModel, events: Seq<RunEvent>) -> bool
    decreases events.len(),
{
    events.len() == 0 || {
        &&& can_happen(before, events[0])
        &&& can_run(after_event(before, events[0]), events.drop_first())
    }
}

/// Where the images stand after the events.
pub open spec fn after_events(before: RunModel, events: Seq<RunEvent>) -> RunModel
    decreases events.len(),
{
    if events.len() == 0 {
        before
    } else {
        after_events(after_event(before, events[0]), events.drop_first())
    }
}

/// The number of attempts at an image among the events.
pub open spec fn attempts_at(events: Seq<RunEvent>, i: int) -> nat
    decreases events.len(),
{
    if events.len() == 0 {
        0
    } else {
        attempts_at(events.drop_first(), i) + match events[0] {
            RunEvent::Attempt { image, ok } if image == i => 1nat,
            _ => 0,
        }
    }
}

/// The number of attempts that an image can still have.
pub open spec fn attempts_left(model: RunModel, i: int) -> int {
    match model.status[i] {
        ImageStatus::Queued => MAX_RETRIES - model.round + 1,
        ImageStatus::Failed => MAX_RETRIES - model.round,
        _ => 0,
    }
}

/// Each event keeps the rounds in order.
proof fn lemma_event_keeps_order(before: RunModel, event: RunEvent)
    requires
        orderly(before),
        can_happen(before, event),
    ensures
        orderly(after_event(before, event)),
{
    let after = after_event(before, event);
    if any_failed(after.status) {
        let k = choose|k: int| 0 <= k < after.status.len() && after.status[k] is Failed;
        assert(before.status.contains(before.status[k]));
    }
}

/// The rounds stay in order whatever happens: no image ever waits for a round
/// that will not come.
pub proof fn law_run_stays_orderly(before: RunModel, events: Seq<RunEvent>)
    requires
        orderly(before),
        can_run(before, events),
    ensures
        orderly(after_events(before, events)),
        after_events(before, events).tasks == before.tasks,
    decreases events.len(),
{
    if events.len() > 0 {
        lemma_event_keeps_order(before, events[0]);
        law_run_stays_orderly(after_event(before, events[0]), events.drop_first());
    }
}

/// However a run goes on, an image has no more attempts than it has left.
proof fn lemma_attempts(before: RunModel, events: Seq<RunEvent>, i: int)
    requires
        orderly(before),
        can_run(before, events),
        0 <= i < before.status.len(),
    ensures
        attempts_at(events, i) <= attempts_left(before, i),
    decreases events.len(),
{
    if events.len() > 0 {
        let after = after_event(before, events[0]);
        lemma_event_keeps_order(before, events[0]);
        lemma_attempts(after, events.drop_first(), i);
    } else if before.status[i] is Failed {
        assert(before.status.contains(before.status[i]));
    }
}

/// A failed image is retried at most once: however a run goes, no image is tried
/// more often than once and once again for each retry.
pub proof fn law_attempts_are_bounded(tasks: Seq<ImageModel>, events: Seq<RunEvent>, i: int)
    requires
        can_run(run_start(tasks), events),
        0 <= i < tasks.len(),
    ensures
        attempts_at(events, i) <= MAX_RETRIES + 1,
        attempts_at(events, i) <= 2,
{
    let start = run_start(tasks);
    assert(!any_failed(start.status));
    lemma_attempts(start, events, i);
}

/// An image that is on disk stays there, and is not tried again.
pub proof fn law_downloaded_once(before: RunModel, events: Seq<RunEvent>, i: int)
    requires
        can_run(before, events),
        0 <= i < before.status.len(),
        before.status[i] is Downloaded,
    ensures
        after_events(before, events).status[i] is Downloaded,
        attempts_at(events, i) == 0,
    decreases events.len(),
{
    if events.len() > 0 {
        law_downloaded_once(after_event(before, events[0]), events.drop_first(), i);
    }
}

/// A retry comes after all other images: when a round begins, exactly the images
/// that failed in the one before are to be tried, and every other image has come
/// to its end.
pub proof fn law_retry_comes_after_all_others(before: RunModel, i: int)
    requires
        0 <= i < before.status.len(),
    ensures
        next_round_of(before).status[i] is Queued <==> before.status[i] is Failed,
        !(next_round_of(before).status[i] is Queued) ==> next_round_of(before).status[i]
            is Downloaded || next_round_of(before).status[i] is Lost,
        before.status[i] is Downloaded ==> next_round_of(before).status[i] is Downloaded,
{
}

/// A failed image is retried: its first failure does not end it.
pub proof fn law_first_failure_is_retried(tasks: Seq<ImageModel>, i: int)
    requires
        0 <= i < tasks.len(),
    ensures
        after_attempt(run_start(tasks), i, false).status[i] is Failed,
        any_failed(after_attempt(run_start(tasks), i, false).status),
        next_round_of(after_attempt(run_start(tasks), i, false)).status[i] is Queued,
        next_round_of(after_attempt(run_start(tasks), i, false)).round == 1,
{
    let after = after_attempt(run_start(tasks), i, false);
    assert(after.status[i] == ImageStatus::Failed);
}

/// A run that is over, with nothing queued and nothing waiting, has each image on
/// disk or given up.
pub proof fn law_run_ends_with_all_settled(model: RunModel, i: int)
    requires
        queued(model.status).len() == 0,
        !any_failed(model.status),
        0 <= i < model.status.len(),
    ensures
        model.status[i] is Downloaded || model.status[i] is Lost,
{
    lemma_queued(model.status);
    if model.status[i] is Failed {
        assert(model.status.contains(model.status[i]));
    }
    if model.status[i] is Queued {
        assert(queued(model.status).contains(i));
    }
}

/// The number of images given up.
pub open spec fn lost_count(status: Seq<ImageStatus>) -> nat
    decreases status.len(),
{
    if status.len() == 0 {
        0
    } else {
        lost_count(status.drop_last()) + if status.last() is Lost {
            1nat
        } else {
            0
        }
    }
}

/// Where each image is on disk or given up, the two counts make up the whole.
proof fn lemma_settled_counts(status: Seq<ImageStatus>)
    requires
        forall|i: int|
            0 <= i < status.len() ==> (#[trigger] status[i]) is Downloaded || status[i] is Lost,
    ensures
        downloaded_count(status) + lost_count(status) == status.len(),
    decreases status.len(),
{
    if status.len() > 0 {
        let short = status.drop_last();
        assert forall|i: int| 0 <= i < short.len() implies (#[trigger] short[i]) is Downloaded
            || short[i] is Lost by {
            assert(short[i] == status[i]);
        }
        lemma_settled_counts(short);
        assert(status[status.len() - 1] == status.last());
    }
}

/// No image of an article gets out of sight: once a run over what was not on disk
/// is over, the images skipped, downloaded and given up are as many as were
/// planned.
pub proof fn law_every_image_is_accounted_for(
    plans: Seq<Option<ImageModel>>,
    on_disk: Seq<bool>,
    model: RunModel,
)
    requires
        plans.len() <= on_disk.len(),
        model.tasks == scanned(plans, on_disk).tasks,
        orderly(model),
        queued(model.status).len() == 0,
        !any_failed(model.status),
    ensures
        scanned(plans, on_disk).already_existed + downloaded_count(model.status) + lost_count(
            model.status,
        ) == planned(plans).len(),
{
    law_existing_images_are_skipped(plans, on_disk);
    assert forall|i: int| 0 <= i < model.status.len() implies (#[trigger] model.status[i])
        is Downloaded || model.status[i] is Lost by {
        law_run_ends_with_all_settled(model, i);
    }
    lemma_settled_counts(model.status);
}

/// The images to be tried are those that are queued, each once.
pub proof fn lemma_queued(status: Seq<ImageStatus>)
    ensures
        forall|i: int|
            queued(status).contains(i) <==> 0 <= i < status.len() && status[i] is Queued,
        queued(status).no_duplicates(),
    decreases status.len(),
{
    if status.len() > 0 {
        let short = status.drop_last();
        let before = queued(short);
        let all = queued(status);
        lemma_queued(short);
        assert forall|i: int| all.contains(i) <==> 0 <= i < status.len() && status[i]
            is Queued by {
            if before.contains(i) {
                let k = choose|k: int| 0 <= k < before.len() && before[k] == i;
                assert(all[k] == i);
                assert(short[i] == status[i]);
            }
            if all.contains(i) {
                let k = choose|k: int| 0 <= k < all.len() && all[k] == i;
                if k < before.len() {
                    assert(before.contains(before[k]));
                }
            }
            if 0 <= i < status.len() && status[i] is Queued {
                if i < short.len() {
                    assert(short[i] is Queued);
                    assert(before.contains(i));
                } else {
                    assert(all.last() == i);
                }
            }
        }
        assert forall|a: int, b: int| 0 <= a < b < all.len() implies all[a] != all[b] by {
            assert(before.contains(before[a]));
        }
    }
}

/// Each further retry waits twice as long as the one before.
pub proof fn law_backoff_doubles(attempt: nat)
    requires
        attempt >= 1,
    ensures
        backoff(0) == 0,
        backoff(1) == RETRY_BASE_DELAY_MS,
        backoff(attempt + 1) == 2 * backoff(attempt),
{
}

} // verus!
