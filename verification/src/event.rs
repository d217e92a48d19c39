//! Warehouse events and how one of them feeds the view counts.

use vstd::prelude::*;

use crate::error::Error;
use crate::text::str_eq;
use crate::view_counts::ViewCounts;

verus! {

/// Name of the event that reports watched video time.
pub const VIDEO_DURATION_WATCHED: &'static str = "video_duration_watched";

/// An event as stored in the warehouse: its name and its parameters as JSON text.
#[derive(Debug, Clone)]
pub struct WareHouseEvent {
    pub event: String,
    pub params: String,
}

#[derive(Debug)]
pub struct Event {
    pub event: WareHouseEvent,
}

/// What reading the parameters of a `video_duration_watched` event gave.
pub enum WatchedParams {
    /// The parameters were not a valid payload; the parser's report.
    Malformed(String),
    /// The payload's `video_id`, if it has one.
    Parsed { video_id: Option<String> },
}

/// Message for parameters that could not be read.
pub open spec fn malformed_params_message(detail: Seq<char>) -> Seq<char> {
    "Failed to parse video_duration_watched params for rewards: "@ + detail
}

/// Message for a payload without a video id.
pub open spec fn missing_video_id_message() -> Seq<char> {
    "video_id is missing in video_duration_watched event"@
}

/// What an event named `event_name` asks of the view counts, given what reading its
/// parameters gave: nothing, a lookup of a video, or a failure with its message.
pub open spec fn video_id_outcome(event_name: Seq<char>, params: WatchedParams) -> Result<
    Option<Seq<char>>,
    Seq<char>,
> {
    if event_name != VIDEO_DURATION_WATCHED@ {
        Ok(None)
    } else {
        match params {
            WatchedParams::Malformed(detail) => Err(malformed_params_message(detail@)),
            WatchedParams::Parsed { video_id: None } => Err(missing_video_id_message()),
            WatchedParams::Parsed { video_id: Some(id) } => Ok(Some(id@)),
        }
    }
}

impl Event {
    pub fn new(event: WareHouseEvent) -> (r: Self)
        ensures
            r.event == event,
    {
        Self { event }
    }

    /// Whether this event feeds the view counts: only `video_duration_watched` does.
    pub fn counts_views(&self) -> (r: bool)
        ensures
            r == (self.event.event@ == VIDEO_DURATION_WATCHED@),
    {
        str_eq(self.event.event.as_str(), VIDEO_DURATION_WATCHED)
    }

    /// The video whose count is to be looked up for this event, given what reading its
    /// parameters gave: none for other events, an error for unreadable parameters or a
    /// missing video id.
    pub fn view_count_video_id(&self, params: WatchedParams) -> (r: Result<Option<String>, Error>)
        ensures
            self.event.event@ != VIDEO_DURATION_WATCHED@ ==> r == Ok::<Option<String>, Error>(None),
            self.event.event@ == VIDEO_DURATION_WATCHED@ ==> match params {
                WatchedParams::Malformed(detail) => r matches Err(Error::Unknown(m)) && m@
                    == malformed_params_message(detail@),
                WatchedParams::Parsed { video_id: None } => r matches Err(Error::Unknown(m)) && m@
                    == missing_video_id_message(),
                WatchedParams::Parsed { video_id: Some(id) } => r == Ok::<Option<String>, Error>(
                    Some(id),
                ),
            },
            match video_id_outcome(self.event.event@, params) {
                Ok(None) => r == Ok::<Option<String>, Error>(None),
                Ok(Some(id)) => r matches Ok(Some(v)) && v@ == id,
                Err(m) => r matches Err(Error::Unknown(e)) && e@ == m,
            },
    {
        if !self.counts_views() {
            return Ok(None);
        }
        match params {
            WatchedParams::Malformed(detail) => {
                let mut m = String::from_str("Failed to parse video_duration_watched params for rewards: ");
                m.append(detail.as_str());
                Err(Error::Unknown(m))
            },
            WatchedParams::Parsed { video_id: None } => Err(
                Error::Unknown(String::from_str("video_id is missing in video_duration_watched event")),
            ),
            WatchedParams::Parsed { video_id: Some(id) } => Ok(Some(id)),
        }
    }

    /// Records the count looked up for `video_id`; a failed lookup counts as zero.
    pub fn record_view_count(counts: &mut ViewCounts, video_id: String, looked_up: Option<u64>)
        ensures
            final(counts)@ == old(counts)@.insert(
                video_id@,
                match looked_up {
                    Some(n) => n,
                    None => 0,
                },
            ),
            old(counts)@.dom().contains(video_id@) ==> final(counts).entries() == old(
                counts,
            ).entries().map_values(|e: (Seq<char>, u64)| if e.0 == video_id@ {
                (
                    e.0,
                    match looked_up {
                        Some(n) => n,
                        None => 0,
                    },
                )
            } else {
                e
            }),
            !old(counts)@.dom().contains(video_id@) ==> final(counts).entries() == old(
                counts,
            ).entries().push(
                (
                    video_id@,
                    match looked_up {
                        Some(n) => n,
                        None => 0,
                    },
                ),
            ),
    {
        let n = match looked_up {
            Some(n) => n,
            None => 0,
        };
        counts.insert(video_id, n);
    }
}

} // verus!
