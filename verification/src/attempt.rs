//! Whole update attempts: what an attempt asks of its caller over a sequence
//! of events, and what holds of every such sequence.
use vstd::prelude::*;
use crate::update::{
    accepts, begin, fits, react, step, UpdateAction, UpdateEvent, UpdateFailure, UpdateState,
};

verus! {

/// An attempt that is in `state` and then receives `events` one after the
/// other: the state that it reaches, and what it asked for after each event.
pub open spec fn course(state: UpdateState, events: Seq<UpdateEvent>) -> (
    UpdateState,
    Seq<UpdateAction>,
)
    decreases events.len(),
{
    if events.len() == 0 {
        (state, Seq::empty())
    } else {
        let before = course(state, events.drop_last());
        let last = react(before.0, events.last());
        (last.0, before.1.push(last.1))
    }
}

/// The byte count stays within `usize` all the way when an attempt in `state`
/// receives `events`.
pub open spec fn admissible(state: UpdateState, events: Seq<UpdateEvent>) -> bool
    decreases events.len(),
{
    events.len() == 0 || (admissible(state, events.drop_last()) && fits(
        course(state, events.drop_last()).0,
        events.last(),
    ))
}

/// The bytes that `events` bring: the sizes of the chunks among them, added up.
pub open spec fn bytes(events: Seq<UpdateEvent>) -> int
    decreases events.len(),
{
    if events.len() == 0 {
        0
    } else {
        bytes(events.drop_last()) + (match events.last() {
            UpdateEvent::Chunk { chunk_length, .. } => chunk_length as int,
            _ => 0,
        })
    }
}

/// The events of an update that succeeds: the check finds an update, the
/// download arrives in `chunks`, the download is complete, and the
/// installation returns with success.
pub open spec fn successful_update(chunks: Seq<UpdateEvent>) -> Seq<UpdateEvent> {
    seq![UpdateEvent::UpdateAvailable] + chunks + seq![
        UpdateEvent::DownloadFinished,
        UpdateEvent::Installed,
    ]
}

/// Runs a fresh attempt over recorded events, without touching the outside
/// world: returns the state reached and what the attempt asked for after each
/// event. Returns `None` where the byte count would leave `usize`.
pub fn replay(events: &Vec<UpdateEvent>) -> (outcome: Option<(UpdateState, Vec<UpdateAction>)>)
    ensures
        outcome is Some <==> admissible(UpdateState::Checking, events@),
        outcome matches Some((state, actions)) ==> {
            &&& state == course(UpdateState::Checking, events@).0
            &&& actions@ == course(UpdateState::Checking, events@).1
        },
{
    let (mut state, _) = begin();
    let mut actions: Vec<UpdateAction> = Vec::new();
    let mut i: usize = 0;
    while i < events.len()
        invariant
            i <= events.len(),
            admissible(UpdateState::Checking, events@.take(i as int)),
            state == course(UpdateState::Checking, events@.take(i as int)).0,
            actions@ == course(UpdateState::Checking, events@.take(i as int)).1,
        decreases events.len() - i,
    {
        let event = events[i];
        proof {
            assert(events@.take(i + 1).drop_last() == events@.take(i as int));
            assert(events@.take(i + 1).last() == event);
        }
        if !accepts(state, event) {
            proof {
                if admissible(UpdateState::Checking, events@) {
                    lemma_admissible_prefix(UpdateState::Checking, events@, i + 1);
                }
            }
            return None;
        }
        let (next, action) = step(state, event);
        state = next;
        actions.push(action);
        i += 1;
    }
    proof {
        assert(events@.take(i as int) == events@);
    }
    Some((state, actions))
}

/// An attempt asks for one thing after each event.
pub proof fn lemma_course_len(state: UpdateState, events: Seq<UpdateEvent>)
    ensures
        course(state, events).1.len() == events.len(),
    decreases events.len(),
{
    if events.len() > 0 {
        lemma_course_len(state, events.drop_last());
    }
}

/// An attempt that receives one event does what the transition says.
pub proof fn lemma_course_single(state: UpdateState, event: UpdateEvent)
    ensures
        course(state, seq![event]).0 == react(state, event).0,
        course(state, seq![event]).1 == seq![react(state, event).1],
        admissible(state, seq![event]) <==> fits(state, event),
{
    let one = seq![event];
    assert(one.drop_last() == Seq::<UpdateEvent>::empty());
    assert(one.last() == event);
    assert(course(state, one.drop_last()).1 == Seq::<UpdateAction>::empty());
    assert(admissible(state, one.drop_last()));
}

/// What an attempt asks for after its `k`-th event is decided by that event
/// and by the state that the events before it led to.
pub proof fn lemma_course_at(state: UpdateState, events: Seq<UpdateEvent>, k: int)
    requires
        0 <= k < events.len(),
    ensures
        course(state, events).1.len() == events.len(),
        course(state, events).1[k] == react(course(state, events.take(k)).0, events[k]).1,
        course(state, events.take(k + 1)).0 == react(course(state, events.take(k)).0, events[k]).0,
    decreases events.len(),
{
    lemma_course_len(state, events);
    lemma_course_len(state, events.drop_last());
    if k == events.len() - 1 {
        assert(events.take(k) == events.drop_last());
        assert(events.take(k + 1) == events);
    } else {
        lemma_course_at(state, events.drop_last(), k);
        assert(events.drop_last().take(k) == events.take(k));
        assert(events.drop_last().take(k + 1) == events.take(k + 1));
    }
}

/// An attempt can be cut anywhere: receiving `first` and then `rest` is
/// receiving `first`, and then receiving `rest` in the state reached.
pub proof fn lemma_course_concat(state: UpdateState, first: Seq<UpdateEvent>, rest: Seq<UpdateEvent>)
    ensures
        course(state, first + rest).0 == course(course(state, first).0, rest).0,
        course(state, first + rest).1 == course(state, first).1 + course(course(state, first).0, rest).1,
    decreases rest.len(),
{
    if rest.len() == 0 {
        assert(first + rest == first);
        assert(course(state, first).1 + Seq::<UpdateAction>::empty() == course(state, first).1);
    } else {
        assert((first + rest).drop_last() == first + rest.drop_last());
        assert((first + rest).last() == rest.last());
        lemma_course_concat(state, first, rest.drop_last());
        let middle = course(state, first).0;
        let before = course(middle, rest.drop_last());
        let last = react(before.0, rest.last());
        assert(course(state, first + rest).1 == (course(state, first).1 + before.1).push(last.1));
        assert((course(state, first).1 + before.1).push(last.1) == course(state, first).1
            + before.1.push(last.1));
    }
}

/// Where a sequence of events is admissible, so is each of its beginnings.
pub proof fn lemma_admissible_prefix(state: UpdateState, events: Seq<UpdateEvent>, n: int)
    requires
        0 <= n <= events.len(),
        admissible(state, events),
    ensures
        admissible(state, events.take(n)),
    decreases events.len(),
{
    if n < events.len() {
        assert(events.drop_last().take(n) == events.take(n));
        lemma_admissible_prefix(state, events.drop_last(), n);
    } else {
        assert(events.take(n) == events);
    }
}

/// The byte count stays within `usize` over `first` and then `rest` exactly
/// when it does over `first`, and then over `rest` from the state reached.
pub proof fn lemma_admissible_concat(
    state: UpdateState,
    first: Seq<UpdateEvent>,
    rest: Seq<UpdateEvent>,
)
    ensures
        admissible(state, first + rest) <==> admissible(state, first) && admissible(
            course(state, first).0,
            rest,
        ),
    decreases rest.len(),
{
    if rest.len() == 0 {
        assert(first + rest == first);
    } else {
        assert((first + rest).drop_last() == first + rest.drop_last());
        assert((first + rest).last() == rest.last());
        lemma_admissible_concat(state, first, rest.drop_last());
        lemma_course_concat(state, first, rest.drop_last());
    }
}

/// An attempt that has ended stays as it is and asks for nothing, whatever
/// is reported to it afterwards: nothing is retried.
pub proof fn lemma_ended_attempt_asks_nothing(state: UpdateState, events: Seq<UpdateEvent>)
    requires
        state.ended(),
    ensures
        course(state, events).0 == state,
        course(state, events).1.len() == events.len(),
        forall|i: int| 0 <= i < events.len() ==> course(state, events).1[i] == UpdateAction::Nothing,
    decreases events.len(),
{
    if events.len() > 0 {
        lemma_ended_attempt_asks_nothing(state, events.drop_last());
    }
}

/// Where the check answers that there is no update, the attempt ends in
/// success at once, and neither then nor later asks for a download or a
/// restart, whatever else is reported to it.
pub proof fn lemma_no_update_no_download_no_restart(later: Seq<UpdateEvent>)
    ensures
        ({
            let (state, actions) = course(UpdateState::Checking, seq![UpdateEvent::NoUpdate] + later);
            &&& state == UpdateState::UpToDate
            &&& actions.len() == 1 + later.len()
            &&& actions[0] == UpdateAction::Finish
            &&& forall|i: int| 1 <= i < actions.len() ==> actions[i] == UpdateAction::Nothing
            &&& forall|i: int|
                0 <= i < actions.len() ==> actions[i] != UpdateAction::DownloadAndInstall
                    && actions[i] != UpdateAction::Restart
        }),
{
    let first = seq![UpdateEvent::NoUpdate];
    lemma_course_single(UpdateState::Checking, UpdateEvent::NoUpdate);
    lemma_course_concat(UpdateState::Checking, first, later);
    lemma_ended_attempt_asks_nothing(UpdateState::UpToDate, later);
}

/// Whatever an attempt asks for, it asks because of the event that just
/// arrived: a download only when the pending check found an update, a restart
/// only when the installation returned with success, a progress report only
/// for a chunk, success only when the check found nothing, and failure only
/// when the check or the installation failed. After an event it never asks
/// for the check: that stands at the beginning alone.
pub proof fn lemma_asked_for_a_reason(state: UpdateState, events: Seq<UpdateEvent>, k: int)
    requires
        0 <= k < events.len(),
    ensures
        ({
            let before = course(state, events.take(k)).0;
            let action = course(state, events).1[k];
            &&& action != UpdateAction::Check
            &&& action == UpdateAction::DownloadAndInstall ==> before == UpdateState::Checking
                && events[k] == UpdateEvent::UpdateAvailable
            &&& action == UpdateAction::Finish ==> before == UpdateState::Checking && events[k]
                == UpdateEvent::NoUpdate
            &&& action == UpdateAction::Fail(UpdateFailure::Check) ==> before
                == UpdateState::Checking && events[k] == UpdateEvent::CheckFailed
            &&& action is ReportProgress ==> before is Downloading && events[k] is Chunk
            &&& action == UpdateAction::ReportDownloadFinished ==> before is Downloading
                && events[k] == UpdateEvent::DownloadFinished
            &&& action == UpdateAction::Restart ==> before is Downloading && events[k]
                == UpdateEvent::Installed
            &&& action == UpdateAction::Fail(UpdateFailure::Install) ==> before is Downloading
                && events[k] == UpdateEvent::InstallFailed
        }),
{
    lemma_course_at(state, events, k);
}

/// Once an attempt has asked for the restart, or has told its caller to
/// return, with success or with failure, it asks for nothing more.
pub proof fn lemma_nothing_after_the_end(
    state: UpdateState,
    events: Seq<UpdateEvent>,
    i: int,
    j: int,
)
    requires
        0 <= i < j < events.len(),
        ({
            let action = course(state, events).1[i];
            action == UpdateAction::Restart || action == UpdateAction::Finish || action is Fail
        }),
    ensures
        course(state, events).1[j] == UpdateAction::Nothing,
{
    lemma_course_at(state, events, i);
    lemma_course_at(state, events, j);
    let first = events.take(i + 1);
    let rest = events.subrange(i + 1, j);
    assert(first + rest == events.take(j));
    lemma_course_concat(state, first, rest);
    lemma_ended_attempt_asks_nothing(course(state, first).0, rest);
}

/// An attempt whose check has answered never waits for the check again.
proof fn lemma_never_back_to_checking(state: UpdateState, events: Seq<UpdateEvent>)
    requires
        state != UpdateState::Checking,
    ensures
        course(state, events).0 != UpdateState::Checking,
    decreases events.len(),
{
    if events.len() > 0 {
        lemma_never_back_to_checking(state, events.drop_last());
    }
}

/// An attempt asks for the download at most once, and for the restart at
/// most once, whatever is reported to it.
pub proof fn lemma_asked_at_most_once(
    state: UpdateState,
    events: Seq<UpdateEvent>,
    i: int,
    j: int,
)
    requires
        0 <= i < j < events.len(),
    ensures
        !(course(state, events).1[i] == UpdateAction::DownloadAndInstall
            && course(state, events).1[j] == UpdateAction::DownloadAndInstall),
        !(course(state, events).1[i] == UpdateAction::Restart
            && course(state, events).1[j] == UpdateAction::Restart),
{
    lemma_course_at(state, events, i);
    lemma_course_at(state, events, j);
    let first = events.take(i + 1);
    let rest = events.subrange(i + 1, j);
    assert(first + rest == events.take(j));
    lemma_course_concat(state, first, rest);
    if course(state, events).1[i] == UpdateAction::DownloadAndInstall {
        lemma_never_back_to_checking(course(state, first).0, rest);
    }
    if course(state, events).1[i] == UpdateAction::Restart {
        lemma_nothing_after_the_end(state, events, i, j);
    }
}

/// A lower bound on every byte count that an attempt in `state` may still
/// report.
spec fn floor(state: UpdateState) -> int {
    match state {
        UpdateState::Checking => 0,
        UpdateState::Downloading { downloaded } => downloaded as int,
        _ => usize::MAX as int,
    }
}

/// Along events that keep the byte count within `usize`, that bound never
/// sinks.
proof fn lemma_floor_never_sinks(state: UpdateState, events: Seq<UpdateEvent>)
    requires
        admissible(state, events),
    ensures
        floor(state) <= floor(course(state, events).0),
    decreases events.len(),
{
    if events.len() > 0 {
        lemma_floor_never_sinks(state, events.drop_last());
    }
}

/// After a progress report the attempt is downloading, with the count that
/// it has just reported.
proof fn lemma_report_shows_state(state: UpdateState, events: Seq<UpdateEvent>, k: int)
    requires
        admissible(state, events),
        0 <= k < events.len(),
        course(state, events).1[k] is ReportProgress,
    ensures
        course(state, events.take(k + 1)).0 == (UpdateState::Downloading {
            downloaded: course(state, events).1[k]->downloaded,
        }),
        admissible(state, events.take(k + 1)),
{
    lemma_course_at(state, events, k);
    lemma_admissible_prefix(state, events, k + 1);
    assert(events.take(k + 1).drop_last() == events.take(k));
}

/// The byte counts that an attempt reports never decrease: of two progress
/// reports, the later one carries at least the count of the earlier one.
pub proof fn lemma_progress_never_decreases(
    state: UpdateState,
    events: Seq<UpdateEvent>,
    i: int,
    j: int,
)
    requires
        admissible(state, events),
        0 <= i <= j < events.len(),
        course(state, events).1[i] is ReportProgress,
        course(state, events).1[j] is ReportProgress,
    ensures
        course(state, events).1[i]->downloaded <= course(state, events).1[j]->downloaded,
{
    if i < j {
        lemma_report_shows_state(state, events, i);
        lemma_report_shows_state(state, events, j);
        let first = events.take(i + 1);
        let rest = events.subrange(i + 1, j + 1);
        assert(first + rest == events.take(j + 1));
        lemma_course_concat(state, first, rest);
        lemma_admissible_concat(state, first, rest);
        lemma_floor_never_sinks(course(state, first).0, rest);
    }
}

/// A longer beginning of a sequence of events brings at least as many bytes
/// as a shorter one, and none brings fewer than zero.
pub proof fn lemma_bytes_grow(events: Seq<UpdateEvent>, i: int, j: int)
    requires
        0 <= i <= j <= events.len(),
    ensures
        0 <= bytes(events.take(i)) <= bytes(events.take(j)),
    decreases j,
{
    if j == 0 {
        assert(events.take(i) == events.take(j));
    } else if i < j {
        lemma_bytes_grow(events, i, j - 1);
        assert(events.take(j).drop_last() == events.take(j - 1));
    } else {
        lemma_bytes_grow(events, i - 1, j - 1);
        assert(events.take(j).drop_last() == events.take(j - 1));
    }
}

/// A download that has received `start` bytes and then receives `chunks`:
/// each chunk is answered by a progress report that carries `start` and the
/// sizes of all chunks so far, added up, together with that chunk's own
/// figure for the size of the whole; and the download goes on with that count.
pub proof fn lemma_download_counts_bytes(start: usize, chunks: Seq<UpdateEvent>)
    requires
        forall|i: int| 0 <= i < chunks.len() ==> chunks[i] is Chunk,
        start + bytes(chunks) <= usize::MAX,
    ensures
        ({
            let (state, actions) = course(UpdateState::Downloading { downloaded: start }, chunks);
            &&& admissible(UpdateState::Downloading { downloaded: start }, chunks)
            &&& state == (UpdateState::Downloading {
                downloaded: (start + bytes(chunks)) as usize,
            })
            &&& actions.len() == chunks.len()
            &&& forall|i: int|
                0 <= i < chunks.len() ==> actions[i] == (UpdateAction::ReportProgress {
                    downloaded: (start + bytes(chunks.take(i + 1))) as usize,
                    content_length: chunks[i]->content_length,
                })
        }),
    decreases chunks.len(),
{
    if chunks.len() > 0 {
        let shorter = chunks.drop_last();
        assert(chunks.take(chunks.len() as int) == chunks);
        assert(shorter == chunks.take(chunks.len() - 1));
        lemma_bytes_grow(chunks, chunks.len() - 1, chunks.len() as int);
        lemma_download_counts_bytes(start, shorter);
        let (state, actions) = course(UpdateState::Downloading { downloaded: start }, chunks);
        assert forall|i: int| 0 <= i < chunks.len() implies actions[i] == (
        UpdateAction::ReportProgress {
            downloaded: (start + bytes(chunks.take(i + 1))) as usize,
            content_length: chunks[i]->content_length,
        }) by {
            if i < chunks.len() - 1 {
                assert(shorter.take(i + 1) == chunks.take(i + 1));
            }
        }
    }
}

/// An update that succeeds: the attempt asks for the download, then answers
/// each chunk with one progress report, whose count is the sum of the chunk
/// sizes so far and so never decreases, then reports the end of the download
/// once, and then asks for the restart once, as the last thing it does.
pub proof fn lemma_successful_update(chunks: Seq<UpdateEvent>)
    requires
        forall|i: int| 0 <= i < chunks.len() ==> chunks[i] is Chunk,
        bytes(chunks) <= usize::MAX,
    ensures
        ({
            let n = chunks.len() as int;
            let (state, actions) = course(UpdateState::Checking, successful_update(chunks));
            &&& admissible(UpdateState::Checking, successful_update(chunks))
            &&& state == UpdateState::Restarting
            &&& actions.len() == n + 3
            &&& actions[0] == UpdateAction::DownloadAndInstall
            &&& forall|i: int|
                0 <= i < n ==> actions[i + 1] == (UpdateAction::ReportProgress {
                    downloaded: bytes(chunks.take(i + 1)) as usize,
                    content_length: chunks[i]->content_length,
                })
            &&& forall|i: int, j: int|
                #![trigger chunks.take(i), chunks.take(j)]
                0 <= i <= j <= n ==> 0 <= bytes(chunks.take(i)) <= bytes(chunks.take(j))
                    <= usize::MAX
            &&& actions[n + 1] == UpdateAction::ReportDownloadFinished
            &&& actions[n + 2] == UpdateAction::Restart
        }),
{
    let n = chunks.len() as int;
    let head = seq![UpdateEvent::UpdateAvailable];
    let finished = seq![UpdateEvent::DownloadFinished];
    let installed = seq![UpdateEvent::Installed];

    lemma_bytes_grow(chunks, 0, n);
    assert(chunks.take(n) == chunks);
    let counted = (UpdateState::Downloading { downloaded: bytes(chunks) as usize });

    lemma_course_single(UpdateState::Checking, UpdateEvent::UpdateAvailable);
    lemma_download_counts_bytes(0, chunks);
    lemma_course_single(counted, UpdateEvent::DownloadFinished);
    lemma_course_single(counted, UpdateEvent::Installed);

    assert(successful_update(chunks) == ((head + chunks) + finished) + installed);
    lemma_course_concat(UpdateState::Checking, head, chunks);
    lemma_admissible_concat(UpdateState::Checking, head, chunks);
    lemma_course_concat(UpdateState::Checking, head + chunks, finished);
    lemma_admissible_concat(UpdateState::Checking, head + chunks, finished);
    lemma_course_concat(UpdateState::Checking, (head + chunks) + finished, installed);
    lemma_admissible_concat(UpdateState::Checking, (head + chunks) + finished, installed);

    assert forall|i: int, j: int|
        #![trigger chunks.take(i), chunks.take(j)]
        0 <= i <= j <= n implies 0 <= bytes(chunks.take(i)) <= bytes(chunks.take(j))
        <= usize::MAX by {
        lemma_bytes_grow(chunks, i, j);
        lemma_bytes_grow(chunks, j, n);
        assert(chunks.take(n) == chunks);
    }
}

} // verus!
