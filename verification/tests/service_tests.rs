use yral_multi_service::client::device_registration_url;
use yral_multi_service::error::Error;
use yral_multi_service::handlers::{
    auth_failure_response, bearer_token, event_response, health_check_message,
    health_check_token, influencer_message_response, processing_error, AuthFailure,
    AuthenticatedEndpoint, EventRoute,
};
use yral_multi_service::notification::{is_notification_event, NotificationClient};
use yral_multi_service::state::{init_yral_metadata_client, AppConfig, AppState};

#[test]
fn notification_events() {
    for e in ["video_upload_successful", "like_video", "video_approved", "video_disapproved",
        "tournament_started", "tournament_ended_winner", "reward_earned", "follow_user",
        "new_ai_influencer_message"] {
        assert!(is_notification_event(e));
    }
    assert!(!is_notification_event("video_started"));
    assert!(!is_notification_event("Like_video"));
}

#[test]
fn notification_request_targets_user() {
    let client = NotificationClient::new("key".into());
    let req = client.notification_request(&[4]);
    assert_eq!(req.url, "https://multi-service.naitik.yral.com/api/v1/notifications/2vxsx-fae/send");
    assert_eq!(req.bearer, "key");
    let req = client.notification_request(&[]);
    assert_eq!(req.url, "https://multi-service.naitik.yral.com/api/v1/notifications/aaaaa-aa/send");
}

#[test]
fn bearer_token_cases() {
    assert_eq!(bearer_token(None), Err(AuthFailure::MissingHeader));
    assert_eq!(bearer_token(Some(b"Bearer \xff")), Err(AuthFailure::InvalidEncoding));
    assert_eq!(bearer_token(Some(b"Bearer tok")), Ok("tok".to_string()));
    assert_eq!(bearer_token(Some(b"tok")), Ok("tok".to_string()));
    assert_eq!(bearer_token(Some(b"Bearer Bearer tok")), Ok("tok".to_string()));
}

#[test]
fn handler_responses() {
    for ep in [AuthenticatedEndpoint::SingleEvent, AuthenticatedEndpoint::InfluencerMessage] {
        let r = auth_failure_response(ep, AuthFailure::MissingHeader);
        assert_eq!((r.status, r.message.as_str()), (401, "Missing Authorization header"));
        let r = auth_failure_response(ep, AuthFailure::InvalidEncoding);
        assert_eq!((r.status, r.message.as_str()), (401, "Invalid Authorization header encoding"));
        let r = auth_failure_response(ep, AuthFailure::InvalidToken);
        assert_eq!((r.status, r.message.as_str()), (401, "Invalid authentication token"));
    }
    let ep = AuthenticatedEndpoint::BulkEvents;
    let r = auth_failure_response(ep, AuthFailure::MissingHeader);
    assert_eq!((r.status, r.message.as_str()), (403, "Missing Authorization header"));
    let r = auth_failure_response(ep, AuthFailure::InvalidEncoding);
    assert_eq!((r.status, r.message.as_str()), (400, "Invalid Authorization header encoding"));
    let r = auth_failure_response(ep, AuthFailure::InvalidToken);
    assert_eq!((r.status, r.message.as_str()), (403, "Invalid authentication token"));
    let r = event_response(EventRoute::Single, true);
    assert_eq!((r.status, r.message.as_str()), (200, "Event processed"));
    let r = event_response(EventRoute::Bulk, true);
    assert_eq!((r.status, r.message.as_str()), (200, "Events processed"));
    let r = event_response(EventRoute::Single, false);
    assert_eq!((r.status, r.message.as_str()), (500, "Failed to process event"));
    let r = event_response(EventRoute::Bulk, false);
    assert_eq!((r.status, r.message.as_str()), (500, "Failed to process bulk events"));
    let r = influencer_message_response();
    assert_eq!((r.status, r.message.as_str()), (200, "AI Influencer Chat Notification Processed"));
    assert_eq!(processing_error(EventRoute::Bulk), Error::Unknown("Failed to process bulk events".into()));
    assert_eq!(processing_error(EventRoute::Single), Error::Unknown("Failed to process event".into()));
}

#[test]
fn health_check_cases() {
    assert_eq!(health_check_token(None), Err(Error::AuthTokenMissing));
    assert_eq!(health_check_token(Some(b"\x01")), Err(Error::AuthTokenInvalid));
    assert_eq!(health_check_token(Some(b"Bearer t")), Ok("t".to_string()));
    assert_eq!(health_check_message(), "Authenticated health check passed");
}

#[test]
fn state_from_config() {
    let conf = AppConfig { yral_metadata_token: "tok".into() };
    let client = init_yral_metadata_client(&conf);
    assert_eq!(client.base_url, "https://metadata.yral.com/");
    assert_eq!(client.jwt_token, Some("tok".to_string()));
    let state = AppState::new(&conf, "api".into());
    assert_eq!(state.yral_metadata_client.jwt_token, Some("tok".to_string()));
    let req = state.notification_client.notification_request(&[4]);
    assert_eq!(req.bearer, "api");
}

#[test]
fn canister_from_metadata_answer() {
    assert_eq!(AppState::individual_canister_from_metadata(Ok(Some(vec![1, 2]))), Ok(vec![1, 2]));
    assert_eq!(
        AppState::individual_canister_from_metadata(Ok(None)),
        Err(Error::Unknown("user metadata does not exist in yral_metadata_service".into()))
    );
    assert_eq!(
        AppState::individual_canister_from_metadata(Err("boom".into())),
        Err(Error::Unknown("boom".into()))
    );
}

#[test]
fn device_registration_url_resolves_under_base() {
    assert_eq!(
        device_registration_url("https://multi-service.naitik.yral.com", &[4]),
        Ok("https://multi-service.naitik.yral.com/api/v1/notifications/2vxsx-fae".to_string())
    );
    assert_eq!(
        device_registration_url("https://h.example/base/", &[]),
        Ok("https://h.example/base/api/v1/notifications/aaaaa-aa".to_string())
    );
    assert!(device_registration_url("not a url", &[4]).is_err());
}
