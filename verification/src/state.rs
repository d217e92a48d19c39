//! The configuration-derived part of the service state.

use vstd::prelude::*;

use crate::error::Error;
use crate::notification::NotificationClient;

verus! {

/// The metadata service.
pub const YRAL_METADATA_URL: &'static str = "https://metadata.yral.com/";

/// Settings that the service state is built from.
#[derive(Clone, Debug)]
pub struct AppConfig {
    /// Token that authorises calls to the metadata service.
    pub yral_metadata_token: String,
}

/// Client of the metadata service; `AUTH` tells whether it carries a token.
#[derive(Clone, Debug)]
pub struct MetadataClient<const AUTH: bool> {
    /// Base URL of the service, as text.
    pub base_url: String,
    /// Token sent with authenticated calls.
    pub jwt_token: Option<String>,
}

impl<const A: bool> MetadataClient<A> {
    pub fn with_base_url(base_url: String) -> (r: Self)
        ensures
            r.base_url == base_url,
            r.jwt_token is None,
    {
        Self { base_url, jwt_token: None }
    }
}

impl MetadataClient<true> {
    pub fn with_jwt_token(self, jwt_token: String) -> (r: Self)
        ensures
            r.base_url == self.base_url,
            r.jwt_token == Some(jwt_token),
    {
        Self { jwt_token: Some(jwt_token), ..self }
    }
}

/// The metadata client of the service: the metadata service's URL and the configured token.
pub fn init_yral_metadata_client(conf: &AppConfig) -> (r: MetadataClient<true>)
    ensures
        r.base_url@ == YRAL_METADATA_URL@,
        r.jwt_token == Some(conf.yral_metadata_token),
{
    MetadataClient::<true>::with_base_url(String::from_str(YRAL_METADATA_URL)).with_jwt_token(
        conf.yral_metadata_token.clone(),
    )
}

/// The parts of the service state that configuration alone determines.
#[derive(Clone)]
pub struct AppState {
    pub notification_client: NotificationClient,
    pub yral_metadata_client: MetadataClient<true>,
}

impl AppState {
    /// State for `app_config`, delivering notifications with `notification_api_key`.
    pub fn new(app_config: &AppConfig, notification_api_key: String) -> (r: Self)
        ensures
            r.notification_client.api_key() == notification_api_key@,
            r.yral_metadata_client.base_url@ == YRAL_METADATA_URL@,
            r.yral_metadata_client.jwt_token == Some(app_config.yral_metadata_token),
    {
        AppState {
            notification_client: NotificationClient::new(notification_api_key),
            yral_metadata_client: init_yral_metadata_client(app_config),
        }
    }

    /// The canister of a user, from what the metadata service answered: its error message,
    /// or the user's metadata (its canister's principal bytes) if the user is known.
    pub fn individual_canister_from_metadata(
        answer: Result<Option<Vec<u8>>, String>,
    ) -> (r: Result<Vec<u8>, Error>)
        ensures
            match answer {
                Err(e) => r == Err::<Vec<u8>, Error>(Error::Unknown(e)),
                Ok(Some(canister)) => r == Ok::<Vec<u8>, Error>(canister),
                Ok(None) => r matches Err(Error::Unknown(m)) && m@
                    == "user metadata does not exist in yral_metadata_service"@,
            },
    {
        match answer {
            Err(e) => Err(Error::Unknown(e)),
            Ok(Some(canister)) => Ok(canister),
            Ok(None) => Err(
                Error::Unknown(String::from_str("user metadata does not exist in yral_metadata_service")),
            ),
        }
    }
}

} // verus!
