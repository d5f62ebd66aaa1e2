use vstd::prelude::*;

verus! {

/// The uniform envelope the HTTP layer wraps every answer in.
pub struct ApiResponse<T> {
    pub success: bool,
    pub data: Option<T>,
    pub error: Option<String>,
}

/// Answer to an immediate-delivery request: the gateway's code and message.
pub struct NotifyResponse {
    pub code: i32,
    pub message: String,
}

/// Answer to a scheduling request: the identifier of the job just created.
pub struct JobCreatedResponse {
    pub job_id: u64,
}

impl<T> ApiResponse<T> {
    /// A successful envelope carrying `data` and no error.
    pub fn success(data: T) -> (r: Self)
        ensures
            r.success,
            r.data == Some(data),
            r.error is None,
    {
        ApiResponse { success: true, data: Some(data), error: None }
    }

    /// A failed envelope carrying an error message and no data.
    pub fn error(msg: String) -> (r: Self)
        ensures
            !r.success,
            r.data is None,
            r.error == Some(msg),
    {
        ApiResponse { success: false, data: None, error: Some(msg) }
    }
}

} // verus!
