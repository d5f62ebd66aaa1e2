use vstd::prelude::*;

use crate::errors::DeliveryError;

verus! {

/// The content of one push notification, immutable after the job is created.
/// The surrounding I/O layer serialises it for the gateway; the library only
/// stores and copies it.
pub struct NotifyRequest {
    pub title: String,
    pub body: String,
    pub sound: Option<String>,
    pub group: Option<String>,
    pub level: Option<String>,
    pub icon: Option<String>,
    pub url: Option<String>,
    pub copy: Option<String>,
    pub auto_copy: Option<bool>,
    pub badge: Option<i32>,
}

impl Clone for NotifyRequest {
    fn clone(&self) -> (r: Self)
        ensures
            r == *self,
    {
        NotifyRequest {
            title: self.title.clone(),
            body: self.body.clone(),
            sound: clone_opt_string(&self.sound),
            group: clone_opt_string(&self.group),
            level: clone_opt_string(&self.level),
            icon: clone_opt_string(&self.icon),
            url: clone_opt_string(&self.url),
            copy: clone_opt_string(&self.copy),
            auto_copy: self.auto_copy,
            badge: self.badge,
        }
    }
}

/// Copies an optional string, preserving its value exactly.
pub(crate) fn clone_opt_string(s: &Option<String>) -> (r: Option<String>)
    ensures
        r == *s,
{
    match s {
        Some(v) => Some(v.clone()),
        None => None,
    }
}

/// The gateway's answer to a delivery attempt.
pub struct BarkResponse {
    pub code: i32,
    pub message: String,
    pub timestamp: Option<i64>,
}

/// The application code with which the gateway reports success.
pub const BARK_SUCCESS_CODE: i32 = 200;

/// Judges a delivery attempt from what the transport reported: whether the
/// HTTP exchange succeeded and, if it did, which application code the parsed
/// gateway answer carried.  The I/O layer performs the exchange and the
/// parsing; this decides.
pub fn evaluate_delivery(http_success: bool, code: i32) -> (r: Result<(), DeliveryError>)
    ensures
        r is Ok <==> (http_success && code == BARK_SUCCESS_CODE),
        !http_success ==> r == Result::<(), DeliveryError>::Err(DeliveryError::HttpFailure),
        (http_success && code != BARK_SUCCESS_CODE) ==> r == Result::<(), DeliveryError>::Err(
            DeliveryError::GatewayRejected,
        ),
{
    if !http_success {
        Err(DeliveryError::HttpFailure)
    } else if code != BARK_SUCCESS_CODE {
        Err(DeliveryError::GatewayRejected)
    } else {
        Ok(())
    }
}

} // verus!
