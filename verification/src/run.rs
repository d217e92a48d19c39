//! Processing the events of one request: each event may ask for a video's count to be
//! looked up and recorded; the first failing event stops the run; a run that did not stop
//! ends in one upload of everything it recorded.

use vstd::prelude::*;
use vstd::seq_lib::group_to_multiset_ensures;

use crate::error::Error;
use crate::event::{video_id_outcome, Event, WatchedParams};
use crate::handlers::{processing_error, EventRoute};
use crate::recsys::{is_upload_of, plan_view_count_upload, RecsysUpload};
use crate::view_counts::ViewCounts;

verus! {

/// The state of a run over the events of one request.
pub struct ViewCountRun {
    counts: ViewCounts,
    failed: bool,
}

/// The message of the error that a stopped run ends in.
pub open spec fn run_failure_message(route: EventRoute) -> Seq<char> {
    match route {
        EventRoute::Single => "Failed to process event"@,
        EventRoute::Bulk => "Failed to process bulk events"@,
    }
}

impl ViewCountRun {
    /// The counts recorded so far, in the order their videos were first recorded.
    pub closed spec fn recorded(&self) -> Seq<(Seq<char>, u64)> {
        self.counts.entries()
    }

    /// The counts recorded so far, by video.
    pub closed spec fn recorded_map(&self) -> Map<Seq<char>, u64> {
        self.counts@
    }

    /// Whether an event has failed, which stops the run.
    pub closed spec fn stopped(&self) -> bool {
        self.failed
    }

    /// A run before its first event.
    pub fn new() -> (r: Self)
        ensures
            r.recorded() == Seq::<(Seq<char>, u64)>::empty(),
            r.recorded_map() == Map::<Seq<char>, u64>::empty(),
            !r.stopped(),
    {
        ViewCountRun { counts: ViewCounts::new(), failed: false }
    }

    /// Whether the run has stopped.
    pub fn has_failed(&self) -> (r: bool)
        ensures
            r == self.stopped(),
    {
        self.failed
    }

    /// Takes the next event, with what reading its parameters gave (only read for a
    /// `video_duration_watched` event): the video whose count is to be looked up, if any.
    /// A failing event stops the run; a stopped run takes no more events.
    pub fn next_lookup(&mut self, event: &Event, params: WatchedParams) -> (r: Option<String>)
        ensures
            final(self).recorded() == old(self).recorded(),
            final(self).recorded_map() == old(self).recorded_map(),
            old(self).stopped() ==> final(self).stopped() && r is None,
            !old(self).stopped() ==> match video_id_outcome(event.event.event@, params) {
                Err(_) => final(self).stopped() && r is None,
                Ok(None) => !final(self).stopped() && r is None,
                Ok(Some(id)) => !final(self).stopped() && (r matches Some(v) && v@ == id),
            },
    {
        if self.failed {
            return None;
        }
        match event.view_count_video_id(params) {
            Ok(found) => found,
            Err(_) => {
                self.failed = true;
                None
            },
        }
    }

    /// Records the count looked up for `video_id` (a failed lookup counts as zero); a
    /// stopped run records nothing.
    pub fn record(&mut self, video_id: String, looked_up: Option<u64>)
        ensures
            final(self).stopped() == old(self).stopped(),
            old(self).stopped() ==> final(self).recorded() == old(self).recorded(),
            !old(self).stopped() ==> final(self).recorded_map() == old(self).recorded_map().insert(
                video_id@,
                match looked_up {
                    Some(n) => n,
                    None => 0,
                },
            ),
            !old(self).stopped() && old(self).recorded_map().dom().contains(video_id@)
                ==> final(self).recorded() == old(self).recorded().map_values(
                |e: (Seq<char>, u64)|
                    if e.0 == video_id@ {
                        (
                            e.0,
                            match looked_up {
                                Some(n) => n,
                                None => 0,
                            },
                        )
                    } else {
                        e
                    },
            ),
            !old(self).stopped() && !old(self).recorded_map().dom().contains(video_id@)
                ==> final(self).recorded() == old(self).recorded().push(
                (
                    video_id@,
                    match looked_up {
                        Some(n) => n,
                        None => 0,
                    },
                ),
            ),
    {
        if !self.failed {
            Event::record_view_count(&mut self.counts, video_id, looked_up);
        }
    }

    /// How the run ends: a stopped run in the error of its route and no upload; otherwise
    /// one upload of everything recorded (none when nothing was), signed with `secret` at
    /// `now` for the endpoint path `path`.
    pub fn finish(&self, route: EventRoute, path: &str, secret: &str, now: i64) -> (r: Result<
        Option<RecsysUpload>,
        Error,
    >)
        ensures
            self.stopped() ==> (r matches Err(Error::Unknown(m)) && m@ == run_failure_message(
                route,
            )),
            !self.stopped() ==> (r matches Ok(p) && (p is None <==> self.recorded().len() == 0)
                && (p matches Some(u) ==> is_upload_of(u, self.recorded(), path@, secret@, now))),
    {
        if self.failed {
            return Err(processing_error(route));
        }
        Ok(plan_view_count_upload(&self.counts, path, secret, now))
    }
}

/// An event as a run sees it: its name and what reading its parameters gave.
pub type RunEvent = (Seq<char>, WatchedParams);

/// The count recorded for a lookup that gave `found`; a failed lookup counts as zero.
pub open spec fn counted(found: Option<u64>) -> u64 {
    match found {
        Some(n) => n,
        None => 0,
    }
}

/// Whether the event fails the run.
pub open spec fn fails(e: RunEvent) -> bool {
    video_id_outcome(e.0, e.1) is Err
}

/// Whether the event asks for the count of video `id`.
pub open spec fn asks_for(e: RunEvent, id: Seq<char>) -> bool {
    video_id_outcome(e.0, e.1) == Ok::<Option<Seq<char>>, Seq<char>>(Some(id))
}

/// One event taken by a run in state (recorded counts, stopped), with the store answering
/// lookups with `store`: what `next_lookup` followed by `record` of the looked-up count do.
pub open spec fn run_step(
    state: (Map<Seq<char>, u64>, bool),
    e: RunEvent,
    store: spec_fn(Seq<char>) -> Option<u64>,
) -> (Map<Seq<char>, u64>, bool) {
    if state.1 {
        state
    } else {
        match video_id_outcome(e.0, e.1) {
            Err(_) => (state.0, true),
            Ok(None) => state,
            Ok(Some(id)) => (state.0.insert(id, counted(store(id))), false),
        }
    }
}

/// A whole run over `events`, from a fresh run.
pub open spec fn run_over(events: Seq<RunEvent>, store: spec_fn(Seq<char>) -> Option<u64>) -> (
    Map<Seq<char>, u64>,
    bool,
)
    decreases events.len(),
{
    if events.len() == 0 {
        (Map::empty(), false)
    } else {
        run_step(run_over(events.drop_last(), store), events.last(), store)
    }
}

/// The counts that a run without failures records: each video that some event asks for,
/// with what the store gives for it.
pub open spec fn asked_counts(events: Seq<RunEvent>, store: spec_fn(Seq<char>) -> Option<u64>) -> Map<
    Seq<char>,
    u64,
> {
    Map::new(
        |id: Seq<char>| exists|i: int| 0 <= i < events.len() && asks_for(#[trigger] events[i], id),
        |id: Seq<char>| counted(store(id)),
    )
}

/// A run stops exactly when one of its events fails; one that does not stop records the
/// count of every video asked for.
pub proof fn lemma_run_over(events: Seq<RunEvent>, store: spec_fn(Seq<char>) -> Option<u64>)
    ensures
        run_over(events, store).1 == exists|i: int|
            0 <= i < events.len() && fails(#[trigger] events[i]),
        !run_over(events, store).1 ==> run_over(events, store).0 == asked_counts(events, store),
    decreases events.len(),
{
    if events.len() == 0 {
        assert(asked_counts(events, store) =~= Map::<Seq<char>, u64>::empty());
    } else {
        let init = events.drop_last();
        lemma_run_over(init, store);
        let last = events.last();
        assert(events[events.len() - 1] == last);
        assert forall|i: int| 0 <= i < init.len() implies #[trigger] init[i] == events[i] by {}
        if run_over(init, store).1 {
            let i = choose|i: int| 0 <= i < init.len() && fails(#[trigger] init[i]);
            assert(fails(events[i]));
        } else {
            if !fails(last) {
                assert(!(exists|i: int| 0 <= i < events.len() && fails(#[trigger] events[i]))) by {
                    assert forall|i: int| 0 <= i < events.len() implies !fails(#[trigger] events[i]) by {
                        if i < init.len() {
                            assert(init[i] == events[i]);
                        }
                    }
                }
                assert(run_over(events, store).0 =~= asked_counts(events, store)) by {
                    assert forall|id: Seq<char>| #[trigger] asked_counts(events, store).dom().contains(id)
                        == run_over(events, store).0.dom().contains(id) by {
                        if asked_counts(events, store).dom().contains(id) {
                            let i = choose|i: int| 0 <= i < events.len() && asks_for(#[trigger] events[i], id);
                            if i < init.len() {
                                assert(init[i] == events[i]);
                                assert(asked_counts(init, store).dom().contains(id));
                            }
                        }
                        if run_over(events, store).0.dom().contains(id) {
                            if asked_counts(init, store).dom().contains(id) {
                                let i = choose|i: int| 0 <= i < init.len() && asks_for(#[trigger] init[i], id);
                                assert(events[i] == init[i]);
                            } else {
                                assert(asks_for(events[events.len() - 1], id));
                            }
                        }
                    }
                }
            }
        }
    }
}

/// The order of a request's events does not matter: a run over a permutation of the same
/// events, against the same store, stops exactly when the first one does, and when it does
/// not stop it records the same counts, which its upload then carries.
pub proof fn law_run_ignores_event_order(
    events1: Seq<RunEvent>,
    events2: Seq<RunEvent>,
    store: spec_fn(Seq<char>) -> Option<u64>,
)
    requires
        events1.to_multiset() == events2.to_multiset(),
    ensures
        run_over(events1, store).1 == run_over(events2, store).1,
        !run_over(events1, store).1 ==> run_over(events1, store).0 == run_over(events2, store).0,
{
    broadcast use group_to_multiset_ensures;

    lemma_run_over(events1, store);
    lemma_run_over(events2, store);
    assert forall|e: RunEvent| events1.contains(e) == events2.contains(e) by {
        assert(events1.contains(e) == (events1.to_multiset().count(e) > 0));
        assert(events2.contains(e) == (events2.to_multiset().count(e) > 0));
    }
    if exists|i: int| 0 <= i < events1.len() && fails(#[trigger] events1[i]) {
        let i = choose|i: int| 0 <= i < events1.len() && fails(#[trigger] events1[i]);
        assert(events1.contains(events1[i]));
        let j = choose|j: int| 0 <= j < events2.len() && events2[j] == events1[i];
        assert(fails(events2[j]));
    }
    if exists|i: int| 0 <= i < events2.len() && fails(#[trigger] events2[i]) {
        let i = choose|i: int| 0 <= i < events2.len() && fails(#[trigger] events2[i]);
        assert(events2.contains(events2[i]));
        let j = choose|j: int| 0 <= j < events1.len() && events1[j] == events2[i];
        assert(fails(events1[j]));
    }
    assert(asked_counts(events1, store) =~= asked_counts(events2, store)) by {
        assert forall|id: Seq<char>| #[trigger] asked_counts(events1, store).dom().contains(id)
            == asked_counts(events2, store).dom().contains(id) by {
            if asked_counts(events1, store).dom().contains(id) {
                let i = choose|i: int| 0 <= i < events1.len() && asks_for(#[trigger] events1[i], id);
                assert(events1.contains(events1[i]));
                let j = choose|j: int| 0 <= j < events2.len() && events2[j] == events1[i];
                assert(asks_for(events2[j], id));
            }
            if asked_counts(events2, store).dom().contains(id) {
                let i = choose|i: int| 0 <= i < events2.len() && asks_for(#[trigger] events2[i], id);
                assert(events2.contains(events2[i]));
                let j = choose|j: int| 0 <= j < events1.len() && events1[j] == events2[i];
                assert(asks_for(events1[j], id));
            }
        }
    }
}

} // verus!
