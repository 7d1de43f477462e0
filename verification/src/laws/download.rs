//! What becomes of the images of an article, attempt by attempt.

use vstd::prelude::*;

use crate::article::{ImageModel, ImagePlan};
use crate::download::{
    after_event, after_events, backoff_ms, can_happen, can_run, downloaded_count, lemma_queued,
    queued, run_start, AttemptReport, DownloadRun, ImageStatus,
    RunEvent, RunModel, MAX_RETRIES, RETRY_BASE_DELAY_MS,
};

verus! {

/// The number of images on disk.
pub open spec fn on_disk(status: Seq<ImageStatus>) -> nat {
    status.filter(|s: ImageStatus| s is Downloaded).len()
}

/// The count of the images on disk is their number.
pub proof fn law_downloaded_count(status: Seq<ImageStatus>)
    ensures
        downloaded_count(status) == on_disk(status),
    decreases status.len(),
{
    reveal(Seq::filter);
    if status.len() > 0 {
        law_downloaded_count(status.drop_last());
    }
}

/// A run begins with every image to be tried, in the first round.
pub proof fn law_run_begins(tasks: Vec<ImagePlan>, run: DownloadRun)
    requires
        call_ensures(DownloadRun::new, (tasks,), run),
    ensures
        run@.round == 0,
        run@.tasks.len() == tasks@.len(),
        run@.status.len() == tasks@.len(),
        forall|i: int| 0 <= i < tasks@.len() ==> #[trigger] run@.status[i] is Queued,
        forall|i: int| 0 <= i < tasks@.len() ==> #[trigger] run@.tasks[i] == tasks@[i]@,
{
}

/// An attempt settles its image and no other. One that succeeded puts it on disk.
/// One that failed leaves it to be tried again while there is a round to come, and
/// gives it up in the last round, wherever the other images stand. The report says
/// which of these it was.
pub proof fn law_attempted(run: &mut DownloadRun, i: usize, ok: bool, report: AttemptReport)
    requires
        call_ensures(DownloadRun::attempted, (run, i, ok), report),
        i < old(run)@.status.len(),
    ensures
        ok ==> final(run)@.status[i as int] is Downloaded,
        !ok && old(run)@.round < MAX_RETRIES ==> final(run)@.status[i as int] is Failed,
        !ok && old(run)@.round >= MAX_RETRIES ==> final(run)@.status[i as int] is Lost,
        report is Downloaded <==> final(run)@.status[i as int] is Downloaded,
        report is WillRetry <==> final(run)@.status[i as int] is Failed,
        report is GaveUp <==> final(run)@.status[i as int] is Lost,
        final(run)@.status.len() == old(run)@.status.len(),
        forall|k: int|
            0 <= k < old(run)@.status.len() && k != i ==> #[trigger] final(run)@.status[k]
                == old(run)@.status[k],
        final(run)@.tasks == old(run)@.tasks,
        final(run)@.round == old(run)@.round,
{
}

/// An image is counted exactly when it comes to the disk, and the report tells the
/// count.
pub proof fn law_attempt_counts(run: &mut DownloadRun, i: usize, ok: bool, report: AttemptReport)
    requires
        call_ensures(DownloadRun::attempted, (run, i, ok), report),
        old(run)@.status.len() <= u32::MAX,
        i < old(run)@.status.len(),
    ensures
        ok ==> on_disk(final(run)@.status) == on_disk(old(run)@.status) + 1,
        !ok ==> on_disk(final(run)@.status) == on_disk(old(run)@.status),
        ok ==> (report matches AttemptReport::Downloaded { count } && count == on_disk(
            final(run)@.status,
        )),
{
    law_downloaded_count(old(run)@.status);
    law_downloaded_count(final(run)@.status);
    final(run)@.status.lemma_filter_len(|s: ImageStatus| s is Downloaded);
}

/// The next round begins exactly where an image failed in this one. In it the
/// failed images are to be tried, an image whose attempt never came to an end is
/// given up, and the others stay where they are. Where no image failed, nothing
/// changes.
pub proof fn law_next_round(run: &mut DownloadRun, pause_ms: Option<u64>)
    requires
        call_ensures(DownloadRun::next_round, (run,), pause_ms),
    ensures
        pause_ms is Some <==> exists|i: int|
            0 <= i < old(run)@.status.len() && #[trigger] old(run)@.status[i] is Failed,
        final(run)@.tasks == old(run)@.tasks,
        final(run)@.status.len() == old(run)@.status.len(),
        pause_ms is None ==> final(run)@.status == old(run)@.status,
        pause_ms is None ==> final(run)@.round == old(run)@.round,
        pause_ms is Some ==> final(run)@.round == old(run)@.round + 1,
        pause_ms is Some ==> forall|i: int|
            0 <= i < old(run)@.status.len() ==> {
                let after = #[trigger] final(run)@.status[i];
                match old(run)@.status[i] {
                    ImageStatus::Failed => after is Queued,
                    ImageStatus::Queued => after is Lost,
                    ImageStatus::Downloaded => after is Downloaded,
                    ImageStatus::Lost => after is Lost,
                }
            },
        pause_ms matches Some(ms) ==> old(run)@.round == 0 ==> ms == RETRY_BASE_DELAY_MS,
        on_disk(final(run)@.status) == on_disk(old(run)@.status),
{
    law_downloaded_count(old(run)@.status);
    law_downloaded_count(final(run)@.status);
    let status = old(run)@.status;
    if status.contains(ImageStatus::Failed) {
        let i = choose|i: int| 0 <= i < status.len() && status[i] == ImageStatus::Failed;
        assert(status[i] is Failed);
    }
    if exists|i: int| 0 <= i < status.len() && #[trigger] status[i] is Failed {
        let i = choose|i: int| 0 <= i < status.len() && #[trigger] status[i] is Failed;
        assert(status[i] == ImageStatus::Failed);
    }
}

/// The batch of a round is made of the images that are to be tried in it, all of
/// them, in order.
pub proof fn law_batch(run: DownloadRun, batch: Vec<usize>)
    requires
        call_ensures(DownloadRun::batch, (&run,), batch),
    ensures
        forall|i: usize| #[trigger]
            batch@.contains(i) <==> i < run@.status.len() && run@.status[i as int] is Queued,
        forall|a: int, b: int|
            0 <= a < b < batch@.len() ==> #[trigger] batch@[a] < #[trigger] batch@[b],
{
    let status = run@.status;
    let f = |i: usize| i as int;
    let model = batch@.map_values(f);
    lemma_queued(status);
    lemma_queued_in_order(status);
    assert forall|i: usize| #[trigger] batch@.contains(i) <==> i < status.len() && status[i as int]
        is Queued by {
        if batch@.contains(i) {
            let k = choose|k: int| 0 <= k < batch@.len() && batch@[k] == i;
            assert(model[k] == i as int);
            assert(queued(status).contains(i as int));
        }
        if i < status.len() && status[i as int] is Queued {
            assert(queued(status).contains(i as int));
            let k = choose|k: int| 0 <= k < model.len() && model[k] == i as int;
            assert(batch@[k] == i);
        }
    }
    assert forall|a: int, b: int| 0 <= a < b < batch@.len() implies #[trigger] batch@[a]
        < #[trigger] batch@[b] by {
        assert(model[a] == batch@[a] as int);
        assert(model[b] == batch@[b] as int);
        assert(queued(status)[a] < queued(status)[b]);
    }
}

/// The queued images come in order.
proof fn lemma_queued_in_order(status: Seq<ImageStatus>)
    ensures
        forall|a: int, b: int|
            0 <= a < b < queued(status).len() ==> #[trigger] queued(status)[a]
                < #[trigger] queued(status)[b],
    decreases status.len(),
{
    if status.len() > 0 {
        let short = status.drop_last();
        lemma_queued_in_order(short);
        lemma_queued(short);
        let all = queued(status);
        assert forall|a: int, b: int| 0 <= a < b < all.len() implies #[trigger] all[a]
            < #[trigger] all[b] by {
            assert(all[a] == queued(short)[a]);
            assert(queued(short).contains(queued(short)[a]));
            if b < queued(short).len() {
                assert(all[b] == queued(short)[b]);
            }
        }
    }
}

/// An image is told to be queued exactly where it is to be tried in this round.
pub proof fn law_is_queued(run: DownloadRun, i: usize, yes: bool)
    requires
        call_ensures(DownloadRun::is_queued, (&run, i), yes),
    ensures
        yes <==> i < run@.status.len() && run@.status[i as int] is Queued,
{
}

/// What a run tells of itself is what it holds.
pub proof fn law_run_tells(run: DownloadRun, i: usize, n: usize, plan: &ImagePlan, count: u32)
    requires
        call_ensures(DownloadRun::len, (&run,), n),
        call_ensures(DownloadRun::task, (&run, i), plan),
        call_ensures(DownloadRun::downloaded, (&run,), count),
    ensures
        n == run@.tasks.len(),
        plan@ == run@.tasks[i as int],
        count == on_disk(run@.status),
{
    law_downloaded_count(run@.status);
}

/// A failed image is tried again: after a failed attempt that is not the last, and
/// whatever came of the other images, a next round comes, and the image is in its
/// batch.
pub proof fn law_failed_image_is_tried_again(
    first: &mut DownloadRun,
    i: usize,
    report: AttemptReport,
    second: &mut DownloadRun,
    pause_ms: Option<u64>,
    batch: Vec<usize>,
)
    requires
        i < old(first)@.status.len(),
        old(first)@.round < MAX_RETRIES,
        call_ensures(DownloadRun::attempted, (first, i, false), report),
        *old(second) == *final(first),
        call_ensures(DownloadRun::next_round, (second,), pause_ms),
        call_ensures(DownloadRun::batch, (final(second),), batch),
    ensures
        report is WillRetry,
        pause_ms is Some,
        batch@.contains(i),
{
    law_attempted(first, i, false, report);
    law_next_round(second, pause_ms);
    law_batch(*final(second), batch);
    assert(old(second)@.status[i as int] is Failed);
    assert(final(second)@.status[i as int] is Queued);
}

/// There is no pause before the first attempt, one second before the first retry,
/// and twice the pause before each further one.
pub proof fn law_backoff(attempt: u32, ms: u64, next_ms: u64)
    requires
        attempt < u32::MAX,
        call_ensures(backoff_ms, (attempt,), ms),
        call_ensures(backoff_ms, ((attempt + 1) as u32,), next_ms),
    ensures
        attempt == 0 ==> ms == 0 && next_ms == 1000,
        attempt > 0 ==> next_ms == 2 * ms,
{
}

/// The number of failed attempts at an image among the events.
pub open spec fn failures_at(events: Seq<RunEvent>, i: int) -> nat
    decreases events.len(),
{
    if events.len() == 0 {
        0
    } else {
        failures_at(events.drop_last(), i) + if events.last() == (RunEvent::Attempt {
            image: i,
            ok: false,
        }) {
            1nat
        } else {
            0
        }
    }
}

/// A round began while an attempt at the image had not come to its end.
pub open spec fn broken_off(start: RunModel, events: Seq<RunEvent>, i: int) -> bool {
    exists|k: int|
        0 <= k < events.len() && #[trigger] events[k] is NextRound && after_events(
            start,
            events.take(k),
        ).status[i] is Queued
}

/// The last event happens to what the others made of the run.
proof fn lemma_last_event(start: RunModel, events: Seq<RunEvent>)
    requires
        events.len() > 0,
        can_run(start, events),
    ensures
        can_run(start, events.drop_last()),
        can_happen(after_events(start, events.drop_last()), events.last()),
        after_events(start, events) == after_event(
            after_events(start, events.drop_last()),
            events.last(),
        ),
    decreases events.len(),
{
    let rest = events.drop_first();
    let after = after_event(start, events[0]);
    if events.len() == 1 {
        assert(events.drop_last() =~= Seq::empty());
        assert(after_events(after, rest) == after);
    } else {
        lemma_last_event(after, rest);
        assert(rest.drop_last() =~= events.drop_last().drop_first());
        assert(events.drop_last()[0] == events[0]);
    }
}

/// How often an image failed can be told from where it stands.
proof fn lemma_failures(tasks: Seq<ImageModel>, events: Seq<RunEvent>, i: int)
    requires
        can_run(run_start(tasks), events),
        0 <= i < tasks.len(),
    ensures
        ({
            let model = after_events(run_start(tasks), events);
            &&& model.status.len() == tasks.len()
            &&& model.status[i] is Queued ==> failures_at(events, i) == model.round
            &&& model.status[i] is Failed ==> failures_at(events, i) == model.round + 1
                && model.round < MAX_RETRIES
            &&& model.status[i] is Lost ==> failures_at(events, i) > MAX_RETRIES || broken_off(
                run_start(tasks),
                events,
                i,
            )
        }),
    decreases events.len(),
{
    let start = run_start(tasks);
    if events.len() > 0 {
        let short = events.drop_last();
        lemma_last_event(start, events);
        lemma_failures(tasks, short, i);
        let before = after_events(start, short);
        let after = after_events(start, events);
        if broken_off(start, short, i) {
            let k = choose|k: int|
                0 <= k < short.len() && #[trigger] short[k] is NextRound && after_events(
                    start,
                    short.take(k),
                ).status[i] is Queued;
            assert(events[k] == short[k]);
            assert(events.take(k) =~= short.take(k));
            assert(broken_off(start, events, i));
        }
        match events.last() {
            RunEvent::Attempt { image, ok } => {},
            RunEvent::NextRound => {
                if before.status[i] is Queued {
                    let k = events.len() - 1;
                    assert(events[k] is NextRound);
                    assert(events.take(k) =~= short);
                    assert(broken_off(start, events, i));
                }
            },
        }
    }
}

/// An image is given up only after every attempt that it has failed, or when an
/// attempt at it never came to an end.
pub proof fn law_lost_only_after_all_attempts(
    tasks: Seq<ImageModel>,
    events: Seq<RunEvent>,
    i: int,
)
    requires
        can_run(run_start(tasks), events),
        0 <= i < tasks.len(),
        after_events(run_start(tasks), events).status[i] is Lost,
    ensures
        failures_at(events, i) >= MAX_RETRIES + 1 || broken_off(run_start(tasks), events, i),
{
    lemma_failures(tasks, events, i);
}

/// In whatever state a run is, an event does to the images what the calls do:
/// an attempt settles its image by its own outcome and the round alone, and no
/// other image; a round queues what failed and gives up what never came to an end.
pub proof fn law_event(before: RunModel, event: RunEvent, i: int)
    requires
        can_happen(before, event),
        0 <= i < before.status.len(),
    ensures
        ({
            let after = after_event(before, event);
            match event {
                RunEvent::Attempt { image, ok } => {
                    &&& after.round == before.round
                    &&& image != i ==> after.status[i] == before.status[i]
                    &&& image == i && ok ==> after.status[i] is Downloaded
                    &&& image == i && !ok ==> (after.status[i] is Failed <==> before.round
                        < MAX_RETRIES)
                    &&& image == i && !ok ==> (after.status[i] is Lost <==> before.round
                        >= MAX_RETRIES)
                },
                RunEvent::NextRound => {
                    &&& after.round == before.round + 1
                    &&& after.status[i] is Queued <==> before.status[i] is Failed
                    &&& after.status[i] is Downloaded <==> before.status[i] is Downloaded
                    &&& after.status[i] is Lost <==> before.status[i] is Lost || before.status[i]
                        is Queued
                },
            }
        }),
{
}

} // verus!
