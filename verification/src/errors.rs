use vstd::prelude::*;

verus! {

/// Errors surfaced synchronously by the scheduling API.
///
/// `InvalidCron` and `PastTimestamp` are validation failures: the request is
/// rejected before any registry mutation.  `NotFound` is a lookup failure on
/// removal.  None of them is fatal to the process.
#[derive(Clone, Copy, Debug, PartialEq, Eq, Structural)]
pub enum SchedulerError {
    /// The cron expression does not split into exactly 6 whitespace-separated fields.
    InvalidCron,
    /// The one-time target instant is not strictly in the future.
    PastTimestamp,
    /// No job with the given identifier is present in the registry.
    NotFound,
}

impl SchedulerError {
    /// Whether this error belongs to the validation family
    /// (as opposed to a lookup failure).
    pub fn is_validation(&self) -> (r: bool)
        ensures
            r <==> (*self == SchedulerError::InvalidCron || *self == SchedulerError::PastTimestamp),
    {
        match self {
            SchedulerError::InvalidCron => true,
            SchedulerError::PastTimestamp => true,
            SchedulerError::NotFound => false,
        }
    }
}

/// Error from evaluating the push gateway's answer to a delivery attempt.
/// It is logged at the firing site and never surfaced to a scheduling caller.
#[derive(Clone, Copy, Debug, PartialEq, Eq, Structural)]
pub enum DeliveryError {
    /// The HTTP exchange itself failed (non-success status).
    HttpFailure,
    /// The gateway answered but reported a non-success application code.
    GatewayRejected,
}

/// Error from validating the application configuration.
#[derive(Clone, Copy, Debug, PartialEq, Eq, Structural)]
pub enum ConfigError {
    /// The device key is empty; the service cannot address a device.
    MissingDeviceKey,
}

} // verus!
