//! What can go wrong while relaying, and how each failure is reported.
use vstd::prelude::*;
use crate::ids::{id_text, AppOrProxyId};
use crate::text::concat;

verus! {

/// A failure of the relay; the texts are those of the underlying error.
#[derive(Debug)]
pub enum BeamConnectError {
    ProxyTimeoutError,
    ProxyRejectedAuthorization,
    ProxyReqwestError(String),
    ProxyOtherError(String),
    HyperBuildError(String),
    SerdeError(String),
    IdNotAuthorizedToAccessUrl(AppOrProxyId, String),
    CommunicationWithTargetFailed(String),
    FailedToReadTargetsReply(String),
    ResponseNotValidUtf8String(String),
    ReplyInvalid(String),
    ConfigurationError(String),
    NoLocalMapping(String),
}

/// The message that reports `e`.
pub open spec fn error_message(e: BeamConnectError) -> Seq<char> {
    match e {
        BeamConnectError::ProxyTimeoutError => "Regular proxy timeout"@,
        BeamConnectError::ProxyRejectedAuthorization => "Proxy rejected our authorization"@,
        BeamConnectError::ProxyReqwestError(s) => "Unable to communicate with Proxy: "@ + s@,
        BeamConnectError::ProxyOtherError(s) => "Unable to communicate with Proxy: "@ + s@,
        BeamConnectError::HyperBuildError(s) => "Constructing HTTP request failed: "@ + s@,
        BeamConnectError::SerdeError(s) => "Error in (de-)serialization from/to JSON: "@ + s@,
        BeamConnectError::IdNotAuthorizedToAccessUrl(id, url) => "AppId "@ + id_text(id@)
            + " is not authorized to access URL "@ + url@,
        BeamConnectError::CommunicationWithTargetFailed(s) => "Unable to communicate with target host: "@
            + s@,
        BeamConnectError::FailedToReadTargetsReply(s) => "Unable to fetch reply from target host: "@
            + s@,
        BeamConnectError::ResponseNotValidUtf8String(s) => "Response was not valid UTF-8: "@ + s@,
        BeamConnectError::ReplyInvalid(s) => "Reply invalid: "@ + s@,
        BeamConnectError::ConfigurationError(s) => "Configuration error: "@ + s@,
        BeamConnectError::NoLocalMapping(s) => "No local target for URL "@ + s@,
    }
}

impl BeamConnectError {
    /// The message that reports this failure.
    pub fn message(&self) -> (r: String)
        ensures
            r@ == error_message(*self),
    {
        match self {
            BeamConnectError::ProxyTimeoutError => "Regular proxy timeout".to_owned(),
            BeamConnectError::ProxyRejectedAuthorization => "Proxy rejected our authorization".to_owned(),
            BeamConnectError::ProxyReqwestError(s) => concat("Unable to communicate with Proxy: ", s.as_str()),
            BeamConnectError::ProxyOtherError(s) => concat("Unable to communicate with Proxy: ", s.as_str()),
            BeamConnectError::HyperBuildError(s) => concat("Constructing HTTP request failed: ", s.as_str()),
            BeamConnectError::SerdeError(s) => concat(
                "Error in (de-)serialization from/to JSON: ",
                s.as_str(),
            ),
            BeamConnectError::IdNotAuthorizedToAccessUrl(id, url) => {
                let mut m = concat("AppId ", id.as_str());
                m.append(" is not authorized to access URL ");
                m.append(url.as_str());
                m
            },
            BeamConnectError::CommunicationWithTargetFailed(s) => concat(
                "Unable to communicate with target host: ",
                s.as_str(),
            ),
            BeamConnectError::FailedToReadTargetsReply(s) => concat(
                "Unable to fetch reply from target host: ",
                s.as_str(),
            ),
            BeamConnectError::ResponseNotValidUtf8String(s) => concat(
                "Response was not valid UTF-8: ",
                s.as_str(),
            ),
            BeamConnectError::ReplyInvalid(s) => concat("Reply invalid: ", s.as_str()),
            BeamConnectError::ConfigurationError(s) => concat("Configuration error: ", s.as_str()),
            BeamConnectError::NoLocalMapping(s) => concat("No local target for URL ", s.as_str()),
        }
    }
}

} // verus!
