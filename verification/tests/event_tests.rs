use yral_multi_service::error::Error;
use yral_multi_service::event::{Event, WareHouseEvent, WatchedParams};
use yral_multi_service::events::{
    bulk_events, event_from_request, event_from_request_v2, plan_v2_event, AnalyticsEvent,
    EventRequest, V2PayloadShape, VerifiedEventBulkRequest,
};
use yral_multi_service::view_counts::ViewCounts;

fn ev(name: &str) -> Event {
    Event::new(WareHouseEvent { event: name.to_string(), params: "{}".to_string() })
}

#[test]
fn only_watch_events_count_views() {
    assert!(ev("video_duration_watched").counts_views());
    assert!(!ev("video_started").counts_views());
    assert_eq!(
        ev("like_video").view_count_video_id(WatchedParams::Malformed("x".into())),
        Ok(None)
    );
}

#[test]
fn watch_event_outcomes() {
    let e = ev("video_duration_watched");
    assert_eq!(
        e.view_count_video_id(WatchedParams::Parsed { video_id: Some("v".into()) }),
        Ok(Some("v".to_string()))
    );
    assert_eq!(
        e.view_count_video_id(WatchedParams::Parsed { video_id: None }),
        Err(Error::Unknown("video_id is missing in video_duration_watched event".into()))
    );
    assert_eq!(
        e.view_count_video_id(WatchedParams::Malformed("Error(\"eof\", line: 1, column: 0)".into())),
        Err(Error::Unknown(
            "Failed to parse video_duration_watched params for rewards: Error(\"eof\", line: 1, column: 0)"
                .into()
        ))
    );
}

#[test]
fn failed_lookup_counts_as_zero() {
    let mut c = ViewCounts::new();
    Event::record_view_count(&mut c, "v".into(), None);
    assert_eq!(c.get("v"), Some(0));
    Event::record_view_count(&mut c, "v".into(), Some(8));
    assert_eq!(c.get("v"), Some(8));
}

#[test]
fn requests_become_events() {
    let req = EventRequest { event: "VideoDurationWatched".into(), params: "{\"a\":1}".into() };
    let v1 = event_from_request(req.clone());
    assert_eq!(v1.event.event, "VideoDurationWatched");
    let v2 = event_from_request_v2(req);
    assert_eq!(v2.event.event, "video_duration_watched");
    assert_eq!(v2.event.params, "{\"a\":1}");
}

#[test]
fn bulk_request_keeps_order() {
    let req = VerifiedEventBulkRequest {
        events: vec![
            AnalyticsEvent { tag: "a".into(), params: "1".into() },
            AnalyticsEvent { tag: "b".into(), params: "2".into() },
        ],
    };
    let evs = bulk_events(req);
    assert_eq!(evs.len(), 2);
    assert_eq!(evs[0].event.event, "a");
    assert_eq!(evs[1].event.params, "2");
}

#[test]
fn v2_payload_plans() {
    let p = plan_v2_event(
        &V2PayloadShape { event_field: Some("VideoStarted".into()), is_object: true, has_user_id: false },
        "u1",
    );
    assert_eq!(p.event_name, "video_started");
    assert_eq!(p.insert_user_id, Some("u1".to_string()));
    assert!(p.remove_event_field);

    let p = plan_v2_event(
        &V2PayloadShape { event_field: Some("video_started".into()), is_object: true, has_user_id: true },
        "u1",
    );
    assert_eq!(p.insert_user_id, None);

    let p = plan_v2_event(
        &V2PayloadShape { event_field: None, is_object: false, has_user_id: false },
        "u1",
    );
    assert_eq!(p.event_name, "unknown");
    assert_eq!(p.insert_user_id, None);
    assert!(!p.remove_event_field);
}
