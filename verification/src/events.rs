//! Requests of the event endpoints and the warehouse events made from them.

use vstd::prelude::*;

use crate::event::{video_id_outcome, Event, WareHouseEvent, WatchedParams, VIDEO_DURATION_WATCHED};
use crate::text::{
    law_snake_case_again_matches_same_lowercase, snake_case, str_eq, to_snake_case,
    unicode_uppercase,
};

verus! {

/// A single event as posted: its name and its parameters as JSON text.
#[derive(Clone, Debug)]
pub struct EventRequest {
    pub event: String,
    pub params: String,
}

/// An analytics event of a bulk request: its tag and its parameters as JSON text.
#[derive(Clone, Debug)]
pub struct AnalyticsEvent {
    pub tag: String,
    pub params: String,
}

/// A bulk request whose identity has been checked.
#[derive(Clone)]
pub struct VerifiedEventBulkRequest {
    pub events: Vec<AnalyticsEvent>,
}

/// The event that `/api/v1/events` processes for a request: name and parameters as posted.
pub fn event_from_request(payload: EventRequest) -> (r: Event)
    ensures
        r.event.event == payload.event,
        r.event.params == payload.params,
{
    Event::new(WareHouseEvent { event: payload.event, params: payload.params })
}

/// The event that `/api/v2/events` processes for a request: the name is converted from
/// PascalCase to snake_case, the parameters are kept.
pub fn event_from_request_v2(payload: EventRequest) -> (r: Event)
    ensures
        r.event.event@ == snake_case(payload.event@),
        r.event.params == payload.params,
{
    let event_name = to_snake_case(payload.event.as_str());
    Event::new(WareHouseEvent { event: event_name, params: payload.params })
}

/// The events that a verified bulk request is processed as, in request order: each
/// named by its tag, with its parameters.
pub fn bulk_events(request: VerifiedEventBulkRequest) -> (r: Vec<Event>)
    ensures
        r@.len() == request.events@.len(),
        forall|i: int|
            0 <= i < r@.len() ==> (#[trigger] r@[i]).event.event == request.events@[i].tag
                && r@[i].event.params == request.events@[i].params,
{
    let mut out: Vec<Event> = Vec::new();
    let events = request.events;
    let mut i: usize = 0;
    while i < events.len()
        invariant
            i <= events@.len(),
            events@ == request.events@,
            out@.len() == i,
            forall|j: int|
                0 <= j < i ==> (#[trigger] out@[j]).event.event == events@[j].tag
                    && out@[j].event.params == events@[j].params,
        decreases events@.len() - i,
    {
        let e = &events[i];
        out.push(
            Event::new(WareHouseEvent { event: e.tag.clone(), params: e.params.clone() }),
        );
        i = i + 1;
    }
    out
}

/// Event name used when a v2 payload has no textual `event` field.
pub open spec fn unknown_event_name() -> Seq<char> {
    "unknown"@
}

/// Event whose payloads get the requester's `user_id` when they lack one.
pub open spec fn video_started_name() -> Seq<char> {
    "video_started"@
}

/// What the processing of a v2 bulk payload reads of it.
pub struct V2PayloadShape {
    /// The payload's `event` field, when it is a string.
    pub event_field: Option<String>,
    /// Whether the payload is a JSON object.
    pub is_object: bool,
    /// Whether the payload has a `user_id` field.
    pub has_user_id: bool,
}

/// How a v2 bulk payload is turned into a warehouse event.
pub struct V2EventPlan {
    /// The event's name.
    pub event_name: String,
    /// A `user_id` field to add to the payload, if any.
    pub insert_user_id: Option<String>,
    /// Whether the payload's `event` field is removed before it becomes the parameters.
    pub remove_event_field: bool,
}

/// The plan for one v2 payload: the name is the snake_case form of the `event` field
/// (`unknown` without one); a `video_started` object lacking `user_id` gets the
/// requester's; objects lose their `event` field.
pub fn plan_v2_event(shape: &V2PayloadShape, user_id: &str) -> (r: V2EventPlan)
    ensures
        r.event_name@ == match shape.event_field {
            Some(e) => snake_case(e@),
            None => unknown_event_name(),
        },
        match r.insert_user_id {
            Some(u) => u@ == user_id@ && r.event_name@ == video_started_name() && shape.is_object
                && !shape.has_user_id,
            None => !(r.event_name@ == video_started_name() && shape.is_object
                && !shape.has_user_id),
        },
        r.remove_event_field == shape.is_object,
{
    let event_name = match &shape.event_field {
        Some(e) => to_snake_case(e.as_str()),
        None => String::from_str("unknown"),
    };
    let insert_user_id = if str_eq(event_name.as_str(), "video_started") && shape.is_object
        && !shape.has_user_id {
        Some(String::from_str(user_id))
    } else {
        None
    };
    V2EventPlan { event_name, insert_user_id, remove_event_field: shape.is_object }
}

/// Sending a v2 payload's event name already in its snake_case form changes nothing that
/// processing decides: the converted name is `video_started` (which gets a `user_id`), or
/// `video_duration_watched` (which feeds the view counts), exactly when it was before.
pub proof fn law_v2_snake_case_renaming_keeps_decisions(e: Seq<char>)
    ensures
        (snake_case(snake_case(e)) == video_started_name()) == (snake_case(e)
            == video_started_name()),
        (snake_case(snake_case(e)) == VIDEO_DURATION_WATCHED@) == (snake_case(e)
            == VIDEO_DURATION_WATCHED@),
{
    reveal_strlit("video_started");
    reveal_strlit("video_duration_watched");
    let a = video_started_name();
    assert forall|i: int| 0 <= i < a.len() implies !unicode_uppercase(#[trigger] a[i]) by {
        assert(a[i] == '_' || ('a' <= a[i] && a[i] <= 'z'));
    }
    law_snake_case_again_matches_same_lowercase(e, a);
    let b = VIDEO_DURATION_WATCHED@;
    assert forall|i: int| 0 <= i < b.len() implies !unicode_uppercase(#[trigger] b[i]) by {
        assert(b[i] == '_' || ('a' <= b[i] && b[i] <= 'z'));
    }
    law_snake_case_again_matches_same_lowercase(e, b);
}

/// A v2 payload without a textual `event` field is processed as event `unknown`, which
/// asks for no lookup and causes no failure, whatever its parameters.
pub proof fn law_unknown_event_asks_nothing(params: WatchedParams)
    ensures
        video_id_outcome(unknown_event_name(), params) == Ok::<Option<Seq<char>>, Seq<char>>(None),
{
    reveal_strlit("unknown");
    reveal_strlit("video_duration_watched");
    assert(unknown_event_name().len() != VIDEO_DURATION_WATCHED@.len());
}

} // verus!
