//! Push notifications: which events notify, and the request that delivers one.

use vstd::prelude::*;

use crate::text::str_eq;

verus! {

/// The multi-service API that delivers notifications.
pub const MULTI_SERVICE_DEFAULT_API_URL: &'static str = "https://multi-service.naitik.yral.com";

/// Events that send a push notification.
pub open spec fn is_notification_event_name(name: Seq<char>) -> bool {
    ||| name == "video_upload_successful"@
    ||| name == "like_video"@
    ||| name == "video_approved"@
    ||| name == "video_disapproved"@
    ||| name == "tournament_started"@
    ||| name == "tournament_ended_winner"@
    ||| name == "reward_earned"@
    ||| name == "follow_user"@
    ||| name == "new_ai_influencer_message"@
}

/// The notifying events are exactly nine: video upload success, like, video approval and
/// disapproval, tournament start and win, reward, follow, and AI-influencer message. The
/// events that feed the view counts or start a video notify nobody.
pub proof fn law_notification_events(name: Seq<char>)
    ensures
        is_notification_event_name(name) <==> (name == "video_upload_successful"@ || name
            == "like_video"@ || name == "video_approved"@ || name == "video_disapproved"@ || name
            == "tournament_started"@ || name == "tournament_ended_winner"@ || name
            == "reward_earned"@ || name == "follow_user"@ || name
            == "new_ai_influencer_message"@),
        !is_notification_event_name("video_duration_watched"@),
        !is_notification_event_name("video_started"@),
{
    reveal_strlit("video_upload_successful");
    reveal_strlit("like_video");
    reveal_strlit("video_approved");
    reveal_strlit("video_disapproved");
    reveal_strlit("tournament_started");
    reveal_strlit("tournament_ended_winner");
    reveal_strlit("reward_earned");
    reveal_strlit("follow_user");
    reveal_strlit("new_ai_influencer_message");
    reveal_strlit("video_duration_watched");
    reveal_strlit("video_started");
    let w = "video_duration_watched"@;
    assert(w.len() == 22);
    assert(w != "video_upload_successful"@ && w != "like_video"@ && w != "video_approved"@);
    assert(w != "video_disapproved"@ && w != "tournament_started"@);
    assert(w[0] != "tournament_ended_winner"@[0]);
    assert(w != "reward_earned"@ && w != "follow_user"@ && w != "new_ai_influencer_message"@);
    let v = "video_started"@;
    assert(v.len() == 13);
    assert(v != "video_upload_successful"@);
    assert(v != "like_video"@);
    assert(v != "video_approved"@);
    assert(v[6] != "video_disapproved"@[6]);
    assert(v != "tournament_started"@ && v != "tournament_ended_winner"@);
    assert(v[0] != "reward_earned"@[0]);
    assert(v != "follow_user"@ && v != "new_ai_influencer_message"@);
}

/// Whether an event of this type sends a push notification.
pub fn is_notification_event(event_type: &str) -> (r: bool)
    ensures
        r == is_notification_event_name(event_type@),
{
    str_eq(event_type, "video_upload_successful") || str_eq(event_type, "like_video") || str_eq(
        event_type,
        "video_approved",
    ) || str_eq(event_type, "video_disapproved") || str_eq(event_type, "tournament_started")
        || str_eq(event_type, "tournament_ended_winner") || str_eq(event_type, "reward_earned")
        || str_eq(event_type, "follow_user") || str_eq(event_type, "new_ai_influencer_message")
}

/// Textual form of the principal with these bytes, as candid's `Principal::to_text` gives it.
pub uninterp spec fn principal_text(bytes: Seq<u8>) -> Seq<char>;

/// Calls `candid::Principal::from_slice` and `Principal::to_text`. Claimed: the text is
/// `principal_text(bytes)`. `from_slice` panics on more than 29 bytes, hence the bound.
#[verifier::external_body]
pub(crate) fn principal_to_text(bytes: &[u8]) -> (r: String)
    requires
        bytes@.len() <= 29,
    ensures
        r@ == principal_text(bytes@),
{
    candid::Principal::from_slice(bytes).to_text()
}

/// Client of the notification endpoint of the multi-service API.
#[derive(Clone)]
pub struct NotificationClient {
    api_key: String,
}

/// A notification delivery: `POST` to `url` with bearer token `bearer`.
pub struct NotificationRequest {
    pub url: String,
    pub bearer: String,
}

/// The endpoint that delivers a notification to the user with this principal text.
pub open spec fn notification_url(user_text: Seq<char>) -> Seq<char> {
    MULTI_SERVICE_DEFAULT_API_URL@ + "/api/v1/notifications/"@ + user_text + "/send"@
}

impl NotificationClient {
    /// The API key that authorises deliveries.
    pub closed spec fn api_key(&self) -> Seq<char> {
        self.api_key@
    }

    pub fn new(api_key: String) -> (r: Self)
        ensures
            r.api_key() == api_key@,
    {
        Self { api_key }
    }

    /// The request that delivers a notification to the user whose principal has these bytes.
    pub fn notification_request(&self, user_principal: &[u8]) -> (r: NotificationRequest)
        requires
            user_principal@.len() <= 29,
        ensures
            r.url@ == notification_url(principal_text(user_principal@)),
            r.bearer@ == self.api_key(),
    {
        let user_text = principal_to_text(user_principal);
        let mut url = String::from_str(MULTI_SERVICE_DEFAULT_API_URL);
        url.append("/api/v1/notifications/");
        url.append(user_text.as_str());
        url.append("/send");
        NotificationRequest { url, bearer: self.api_key.clone() }
    }
}

} // verus!
