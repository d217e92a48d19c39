use yral_multi_service::error::Error;
use yral_multi_service::event::{Event, WareHouseEvent, WatchedParams};
use yral_multi_service::handlers::EventRoute;
use yral_multi_service::run::ViewCountRun;

fn ev(name: &str) -> Event {
    Event::new(WareHouseEvent { event: name.to_string(), params: "{}".to_string() })
}

fn watched(id: &str) -> WatchedParams {
    WatchedParams::Parsed { video_id: Some(id.to_string()) }
}

#[test]
fn run_uploads_all_recorded_counts_once() {
    let mut run = ViewCountRun::new();
    let id = run.next_lookup(&ev("video_duration_watched"), watched("a")).unwrap();
    run.record(id, Some(4));
    assert_eq!(run.next_lookup(&ev("like_video"), watched("z")), None);
    let id = run.next_lookup(&ev("video_duration_watched"), watched("b")).unwrap();
    run.record(id, None);
    let id = run.next_lookup(&ev("video_duration_watched"), watched("a")).unwrap();
    run.record(id, Some(6));
    assert!(!run.has_failed());
    let upload = run.finish(EventRoute::Bulk, "/p", "s", 10).unwrap().unwrap();
    assert_eq!(
        upload.body,
        "[{\"total_count_all\":6,\"video_id\":\"a\"},{\"total_count_all\":0,\"video_id\":\"b\"}]"
    );
    assert_eq!(upload.timestamp, "10");
}

#[test]
fn run_with_nothing_recorded_uploads_nothing() {
    let mut run = ViewCountRun::new();
    assert_eq!(run.next_lookup(&ev("video_started"), watched("a")), None);
    assert!(run.finish(EventRoute::Single, "/p", "s", 1).unwrap().is_none());
}

#[test]
fn failing_event_stops_run_without_upload() {
    let mut run = ViewCountRun::new();
    let id = run.next_lookup(&ev("video_duration_watched"), watched("a")).unwrap();
    run.record(id, Some(1));
    assert_eq!(
        run.next_lookup(&ev("video_duration_watched"), WatchedParams::Parsed { video_id: None }),
        None
    );
    assert!(run.has_failed());
    assert_eq!(run.next_lookup(&ev("video_duration_watched"), watched("c")), None);
    assert_eq!(
        run.finish(EventRoute::Bulk, "/p", "s", 1).err(),
        Some(Error::Unknown("Failed to process bulk events".into()))
    );
    let mut single = ViewCountRun::new();
    single.next_lookup(&ev("video_duration_watched"), WatchedParams::Malformed("x".into()));
    assert_eq!(
        single.finish(EventRoute::Single, "/p", "s", 1).err(),
        Some(Error::Unknown("Failed to process event".into()))
    );
}

#[test]
fn unknown_event_asks_nothing() {
    let mut run = ViewCountRun::new();
    assert_eq!(run.next_lookup(&ev("unknown"), WatchedParams::Malformed("x".into())), None);
    assert!(!run.has_failed());
}

#[test]
fn snake_case_renaming_keeps_decisions() {
    use_name("VideoDurationWatched");
    use_name("aÉ");
}

fn use_name(e: &str) {
    let once = yral_multi_service::text::to_snake_case(e);
    let twice = yral_multi_service::text::to_snake_case(&once);
    assert_eq!(once == "video_duration_watched", twice == "video_duration_watched");
    assert_eq!(once == "video_started", twice == "video_started");
}

#[test]
fn run_outcome_ignores_event_order() {
    let events = [("video_duration_watched", "a"), ("like_video", "x"), ("video_duration_watched", "b")];
    let store = |id: &str| if id == "a" { Some(3) } else { None };
    let mut uploads = Vec::new();
    for order in [[0usize, 1, 2], [2, 1, 0], [1, 2, 0]] {
        let mut run = ViewCountRun::new();
        for k in order {
            let (name, id) = events[k];
            if let Some(v) = run.next_lookup(&ev(name), watched(id)) {
                let found = store(&v);
                run.record(v, found);
            }
        }
        let upload = run.finish(EventRoute::Bulk, "/p", "s", 1).unwrap().unwrap();
        let mut items: Vec<String> = upload.body.trim_matches(|c| c == '[' || c == ']')
            .split("},{").map(|s| s.trim_matches(|c| c == '{' || c == '}').to_string()).collect();
        items.sort();
        uploads.push(items);
    }
    assert_eq!(uploads[0], uploads[1]);
    assert_eq!(uploads[0], uploads[2]);
}

#[test]
fn snake_case_of_concatenation_splits() {
    let cases = [("Video", "DurationWatched"), ("a", "b"), ("aB", "Cd"), ("x", "")];
    for (a, b) in cases {
        let joint = if b.chars().next().map_or(false, |c| c.is_uppercase()) { "_" } else { "" };
        let whole = yral_multi_service::text::to_snake_case(&format!("{a}{b}"));
        let parts = yral_multi_service::text::to_snake_case(a) + joint
            + &yral_multi_service::text::to_snake_case(b);
        assert_eq!(whole, parts);
    }
}
