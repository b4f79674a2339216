//! The service-wide API error type and its JSON error envelope.
//!
//! Every error response carries a stable code, a human message, and the
//! request id it answers, so that clients and operators can correlate.

use vstd::prelude::*;
use crate::request::RequestId;

verus! {

/// Standard error response envelope.
#[derive(Debug)]
pub struct ErrorEnvelope {
    pub error: ErrorBody,
}

#[derive(Debug)]
pub struct ErrorBody {
    pub code: &'static str,
    pub message: String,
    pub request_id: String,
    pub details: Option<String>,
}

/// Service-wide API error: HTTP status plus the envelope fields.
#[derive(Debug)]
pub struct ApiError {
    pub status: u16,
    pub code: &'static str,
    pub message: String,
    pub request_id: String,
    pub details: Option<String>,
}

/// `e` is exactly the error with this status, code, message and request id,
/// with no details.
pub open spec fn is_error(
    e: ApiError,
    status: int,
    code: Seq<char>,
    msg: Seq<char>,
    rid: Seq<char>,
) -> bool {
    e.status == status && e.code@ == code && e.message@ == msg && e.request_id@ == rid
        && e.details is None
}

pub open spec fn is_validation_error(e: ApiError, msg: Seq<char>, rid: Seq<char>) -> bool {
    is_error(e, 400, "VALIDATION_ERROR"@, msg, rid)
}

pub open spec fn is_conflict_error(e: ApiError, msg: Seq<char>, rid: Seq<char>) -> bool {
    is_error(e, 409, "CONFLICT"@, msg, rid)
}

pub open spec fn is_not_found_error(e: ApiError, rid: Seq<char>) -> bool {
    is_error(e, 404, "NOT_FOUND"@, "Route not found"@, rid)
}

pub open spec fn is_internal_error(e: ApiError, rid: Seq<char>) -> bool {
    is_error(e, 500, "INTERNAL_ERROR"@, "Internal server error"@, rid)
}

impl ApiError {
    /// 400 with the stable code for failed domain validation.
    pub fn validation(req_id: &RequestId, message: String) -> (r: ApiError)
        ensures
            is_validation_error(r, message@, req_id.0@),
    {
        ApiError {
            status: 400,
            code: "VALIDATION_ERROR",
            message,
            request_id: req_id.0.clone(),
            details: None,
        }
    }

    /// 404 for an unknown route or entity.
    pub fn not_found(req_id: &RequestId) -> (r: ApiError)
        ensures
            is_not_found_error(r, req_id.0@),
    {
        ApiError {
            status: 404,
            code: "NOT_FOUND",
            message: "Route not found".to_owned(),
            request_id: req_id.0.clone(),
            details: None,
        }
    }

    /// 500 with a message that leaks no detail.
    pub fn internal(req_id: &RequestId) -> (r: ApiError)
        ensures
            is_internal_error(r, req_id.0@),
    {
        ApiError {
            status: 500,
            code: "INTERNAL_ERROR",
            message: "Internal server error".to_owned(),
            request_id: req_id.0.clone(),
            details: None,
        }
    }

    /// 409 for unique-constraint or idempotency conflicts.
    pub fn conflict(req_id: &RequestId, message: &str) -> (r: ApiError)
        ensures
            is_conflict_error(r, message@, req_id.0@),
    {
        ApiError {
            status: 409,
            code: "CONFLICT",
            message: message.to_owned(),
            request_id: req_id.0.clone(),
            details: None,
        }
    }

    /// Converts a bare status code into a generic API error, preserving the
    /// request id.
    pub fn from_status(req_id: &RequestId, status: u16) -> (r: ApiError)
        ensures
            status == 400 ==> is_error(r, 400, "BAD_REQUEST"@, "Bad request"@, req_id.0@),
            status == 404 ==> is_not_found_error(r, req_id.0@),
            status == 500 ==> is_internal_error(r, req_id.0@),
            status != 400 && status != 404 && status != 500 ==> is_error(
                r,
                status as int,
                "ERROR"@,
                "Request failed"@,
                req_id.0@,
            ),
    {
        if status == 400 {
            ApiError {
                status,
                code: "BAD_REQUEST",
                message: "Bad request".to_owned(),
                request_id: req_id.0.clone(),
                details: None,
            }
        } else if status == 404 {
            Self::not_found(req_id)
        } else if status == 500 {
            Self::internal(req_id)
        } else {
            ApiError {
                status,
                code: "ERROR",
                message: "Request failed".to_owned(),
                request_id: req_id.0.clone(),
                details: None,
            }
        }
    }

    /// The response shape of the error: its status and the JSON envelope
    /// carrying code, message and request id.
    pub fn to_envelope(self) -> (r: (u16, ErrorEnvelope))
        ensures
            r.0 == self.status,
            r.1.error.code@ == self.code@,
            r.1.error.message@ == self.message@,
            r.1.error.request_id@ == self.request_id@,
            r.1.error.details == self.details,
    {
        (
            self.status,
            ErrorEnvelope {
                error: ErrorBody {
                    code: self.code,
                    message: self.message,
                    request_id: self.request_id,
                    details: self.details,
                },
            },
        )
    }
}

} // verus!
