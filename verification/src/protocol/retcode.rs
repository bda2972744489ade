//! The extended set of return codes, grouped by category: general errors (1xxx),
//! authentication (2xxx), business logic (3xxx), data (4xxx) and system (5xxx).

use vstd::prelude::*;

verus! {

/// Extended return codes.
#[derive(Debug, Clone, Copy, PartialEq, Eq, Structural)]
pub enum RetCode {
    Success,
    InvalidRequest,
    InvalidParameter,
    InternalError,
    Timeout,
    NetworkError,
    AuthRequired,
    AuthFailed,
    PermissionDenied,
    TokenExpired,
    ResourceNotFound,
    ResourceExists,
    ResourceLocked,
    QuotaExceeded,
    DataCorrupted,
    DataTooLarge,
    DataFormatError,
    ServiceUnavailable,
    MaintenanceMode,
    VersionMismatch,
    NoTargetAvailable,
}

/// The number that stands for each code.
pub open spec fn code_of(r: RetCode) -> u32 {
    match r {
        RetCode::Success => 0,
        RetCode::InvalidRequest => 1000,
        RetCode::InvalidParameter => 1001,
        RetCode::InternalError => 1002,
        RetCode::Timeout => 1003,
        RetCode::NetworkError => 1004,
        RetCode::AuthRequired => 2000,
        RetCode::AuthFailed => 2001,
        RetCode::PermissionDenied => 2002,
        RetCode::TokenExpired => 2003,
        RetCode::ResourceNotFound => 3000,
        RetCode::ResourceExists => 3001,
        RetCode::ResourceLocked => 3002,
        RetCode::QuotaExceeded => 3003,
        RetCode::DataCorrupted => 4000,
        RetCode::DataTooLarge => 4001,
        RetCode::DataFormatError => 4002,
        RetCode::ServiceUnavailable => 5000,
        RetCode::MaintenanceMode => 5001,
        RetCode::VersionMismatch => 5002,
        RetCode::NoTargetAvailable => 5003,
    }
}

/// The code that a number names, if any.
pub open spec fn retcode_of(value: u32) -> Option<RetCode> {
    if value == 0 { Some(RetCode::Success) }
    else if value == 1000 { Some(RetCode::InvalidRequest) }
    else if value == 1001 { Some(RetCode::InvalidParameter) }
    else if value == 1002 { Some(RetCode::InternalError) }
    else if value == 1003 { Some(RetCode::Timeout) }
    else if value == 1004 { Some(RetCode::NetworkError) }
    else if value == 2000 { Some(RetCode::AuthRequired) }
    else if value == 2001 { Some(RetCode::AuthFailed) }
    else if value == 2002 { Some(RetCode::PermissionDenied) }
    else if value == 2003 { Some(RetCode::TokenExpired) }
    else if value == 3000 { Some(RetCode::ResourceNotFound) }
    else if value == 3001 { Some(RetCode::ResourceExists) }
    else if value == 3002 { Some(RetCode::ResourceLocked) }
    else if value == 3003 { Some(RetCode::QuotaExceeded) }
    else if value == 4000 { Some(RetCode::DataCorrupted) }
    else if value == 4001 { Some(RetCode::DataTooLarge) }
    else if value == 4002 { Some(RetCode::DataFormatError) }
    else if value == 5000 { Some(RetCode::ServiceUnavailable) }
    else if value == 5001 { Some(RetCode::MaintenanceMode) }
    else if value == 5002 { Some(RetCode::VersionMismatch) }
    else if value == 5003 { Some(RetCode::NoTargetAvailable) }
    else { None }
}

/// The description text of each code.
pub open spec fn description_of(r: RetCode) -> Seq<char> {
    match r {
        RetCode::Success => "Success"@,
        RetCode::InvalidRequest => "Invalid request"@,
        RetCode::InvalidParameter => "Invalid parameter"@,
        RetCode::InternalError => "Internal error"@,
        RetCode::Timeout => "Request timeout"@,
        RetCode::NetworkError => "Network error"@,
        RetCode::AuthRequired => "Authentication required"@,
        RetCode::AuthFailed => "Authentication failed"@,
        RetCode::PermissionDenied => "Permission denied"@,
        RetCode::TokenExpired => "Token expired"@,
        RetCode::ResourceNotFound => "Resource not found"@,
        RetCode::ResourceExists => "Resource already exists"@,
        RetCode::ResourceLocked => "Resource is locked"@,
        RetCode::QuotaExceeded => "Quota exceeded"@,
        RetCode::DataCorrupted => "Data corrupted"@,
        RetCode::DataTooLarge => "Data too large"@,
        RetCode::DataFormatError => "Data format error"@,
        RetCode::ServiceUnavailable => "Service unavailable"@,
        RetCode::MaintenanceMode => "Service in maintenance mode"@,
        RetCode::VersionMismatch => "Version mismatch"@,
        RetCode::NoTargetAvailable => "No target available"@,
    }
}

impl RetCode {
    /// Decodes a number; `None` when it names no code.
    pub fn from_u32(value: u32) -> (r: Option<RetCode>)
        ensures
            r == retcode_of(value),
            r matches Some(c) ==> code_of(c) == value,
    {
        match value {
            0 => Some(RetCode::Success),
            1000 => Some(RetCode::InvalidRequest),
            1001 => Some(RetCode::InvalidParameter),
            1002 => Some(RetCode::InternalError),
            1003 => Some(RetCode::Timeout),
            1004 => Some(RetCode::NetworkError),
            2000 => Some(RetCode::AuthRequired),
            2001 => Some(RetCode::AuthFailed),
            2002 => Some(RetCode::PermissionDenied),
            2003 => Some(RetCode::TokenExpired),
            3000 => Some(RetCode::ResourceNotFound),
            3001 => Some(RetCode::ResourceExists),
            3002 => Some(RetCode::ResourceLocked),
            3003 => Some(RetCode::QuotaExceeded),
            4000 => Some(RetCode::DataCorrupted),
            4001 => Some(RetCode::DataTooLarge),
            4002 => Some(RetCode::DataFormatError),
            5000 => Some(RetCode::ServiceUnavailable),
            5001 => Some(RetCode::MaintenanceMode),
            5002 => Some(RetCode::VersionMismatch),
            5003 => Some(RetCode::NoTargetAvailable),
            _ => None,
        }
    }

    /// The number of the code.
    pub fn as_u32(self) -> (v: u32)
        ensures
            v == code_of(self),
    {
        match self {
            RetCode::Success => 0,
            RetCode::InvalidRequest => 1000,
            RetCode::InvalidParameter => 1001,
            RetCode::InternalError => 1002,
            RetCode::Timeout => 1003,
            RetCode::NetworkError => 1004,
            RetCode::AuthRequired => 2000,
            RetCode::AuthFailed => 2001,
            RetCode::PermissionDenied => 2002,
            RetCode::TokenExpired => 2003,
            RetCode::ResourceNotFound => 3000,
            RetCode::ResourceExists => 3001,
            RetCode::ResourceLocked => 3002,
            RetCode::QuotaExceeded => 3003,
            RetCode::DataCorrupted => 4000,
            RetCode::DataTooLarge => 4001,
            RetCode::DataFormatError => 4002,
            RetCode::ServiceUnavailable => 5000,
            RetCode::MaintenanceMode => 5001,
            RetCode::VersionMismatch => 5002,
            RetCode::NoTargetAvailable => 5003,
        }
    }

    pub fn is_success(self) -> (b: bool)
        ensures
            b <==> self == RetCode::Success,
    {
        match self {
            RetCode::Success => true,
            _ => false,
        }
    }

    /// A human-readable description of the code.
    pub fn description(&self) -> (s: &'static str)
        ensures
            s@ == description_of(*self),
    {
        match self {
            RetCode::Success => "Success",
            RetCode::InvalidRequest => "Invalid request",
            RetCode::InvalidParameter => "Invalid parameter",
            RetCode::InternalError => "Internal error",
            RetCode::Timeout => "Request timeout",
            RetCode::NetworkError => "Network error",
            RetCode::AuthRequired => "Authentication required",
            RetCode::AuthFailed => "Authentication failed",
            RetCode::PermissionDenied => "Permission denied",
            RetCode::TokenExpired => "Token expired",
            RetCode::ResourceNotFound => "Resource not found",
            RetCode::ResourceExists => "Resource already exists",
            RetCode::ResourceLocked => "Resource is locked",
            RetCode::QuotaExceeded => "Quota exceeded",
            RetCode::DataCorrupted => "Data corrupted",
            RetCode::DataTooLarge => "Data too large",
            RetCode::DataFormatError => "Data format error",
            RetCode::ServiceUnavailable => "Service unavailable",
            RetCode::MaintenanceMode => "Service in maintenance mode",
            RetCode::VersionMismatch => "Version mismatch",
            RetCode::NoTargetAvailable => "No target available",
        }
    }
}

/// Every code is recovered from its number.
pub proof fn lemma_code_roundtrip(r: RetCode)
    ensures
        retcode_of(code_of(r)) == Some(r),
{
}

} // verus!
