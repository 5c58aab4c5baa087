use vstd::prelude::*;
use crate::error::AppError;
use crate::error::AppResult;

verus! {

/// Status code of an API response.
#[derive(Debug, Clone, Copy, PartialEq, Eq, Structural)]
pub enum ApiStatusCode {
    Success,
    ErrSystem,
    ErrConfig,
    ErrDatabase,
    ErrPermission,
    ErrParams,
    ErrParamsMissing,
    ErrParamsInvalid,
    ErrUserNotFound,
    ErrUserUnauthorized,
    ErrFileNotFound,
    ErrFileRead,
    ErrFileWrite,
    ErrNetwork,
    ErrNetworkTimeout,
    ErrNetworkUnreachable,
}

impl ApiStatusCode {
    /// The numeric value of the status code: success is 0, system errors
    /// are the 1000 block, parameter errors 1100, business errors 1200,
    /// file errors 1300 and network errors 1400.
    pub open spec fn spec_code(self) -> int {
        match self {
            ApiStatusCode::Success => 0,
            ApiStatusCode::ErrSystem => 1000,
            ApiStatusCode::ErrConfig => 1001,
            ApiStatusCode::ErrDatabase => 1002,
            ApiStatusCode::ErrPermission => 1003,
            ApiStatusCode::ErrParams => 1100,
            ApiStatusCode::ErrParamsMissing => 1101,
            ApiStatusCode::ErrParamsInvalid => 1102,
            ApiStatusCode::ErrUserNotFound => 1200,
            ApiStatusCode::ErrUserUnauthorized => 1201,
            ApiStatusCode::ErrFileNotFound => 1300,
            ApiStatusCode::ErrFileRead => 1301,
            ApiStatusCode::ErrFileWrite => 1302,
            ApiStatusCode::ErrNetwork => 1400,
            ApiStatusCode::ErrNetworkTimeout => 1401,
            ApiStatusCode::ErrNetworkUnreachable => 1402,
        }
    }

    /// The numeric value of the status code.
    pub fn code(&self) -> (c: i32)
        ensures
            c == self.spec_code(),
    {
        match self {
            ApiStatusCode::Success => 0,
            ApiStatusCode::ErrSystem => 1000,
            ApiStatusCode::ErrConfig => 1001,
            ApiStatusCode::ErrDatabase => 1002,
            ApiStatusCode::ErrPermission => 1003,
            ApiStatusCode::ErrParams => 1100,
            ApiStatusCode::ErrParamsMissing => 1101,
            ApiStatusCode::ErrParamsInvalid => 1102,
            ApiStatusCode::ErrUserNotFound => 1200,
            ApiStatusCode::ErrUserUnauthorized => 1201,
            ApiStatusCode::ErrFileNotFound => 1300,
            ApiStatusCode::ErrFileRead => 1301,
            ApiStatusCode::ErrFileWrite => 1302,
            ApiStatusCode::ErrNetwork => 1400,
            ApiStatusCode::ErrNetworkTimeout => 1401,
            ApiStatusCode::ErrNetworkUnreachable => 1402,
        }
    }

    /// Whether the code means success.
    pub fn is_success(&self) -> (r: bool)
        ensures
            r == (*self == ApiStatusCode::Success),
    {
        *self == ApiStatusCode::Success
    }
}

/// The message of a plain success response, as the host displays it.
pub open spec fn success_message() -> Seq<char> {
    "操作成功"@
}

/// Uniform API response envelope: a numeric code, the payload on success,
/// and a human-readable message.
#[derive(Debug)]
pub struct ApiResponse<T> {
    pub code: i32,
    pub data: Option<T>,
    pub message: String,
}

impl<T> ApiResponse<T> {
    /// A success response carrying `data`.
    pub fn success(data: T) -> (r: Self)
        ensures
            r.code == 0,
            r.data == Some(data),
            r.message@ == success_message(),
    {
        ApiResponse { code: 0, data: Some(data), message: "操作成功".to_owned() }
    }

    /// A success response with a caller-supplied message.
    pub fn success_with_message(data: T, message: String) -> (r: Self)
        ensures
            r.code == 0,
            r.data == Some(data),
            r.message@ == message@,
    {
        ApiResponse { code: 0, data: Some(data), message }
    }

    /// An error response without payload.
    pub fn error(status_code: ApiStatusCode, message: String) -> (r: ApiResponse<T>)
        ensures
            r.code == status_code.spec_code(),
            r.data is None,
            r.message@ == message@,
    {
        ApiResponse { code: status_code.code(), data: None, message }
    }

    /// The response an operation's result maps to: its payload on success,
    /// a system-error response carrying the error's message otherwise.
    pub fn from_app_result(result: AppResult<T>) -> (r: Self)
        ensures
            result matches Ok(data) ==> r.code == 0 && r.data == Some(data) && r.message@
                == success_message(),
            result matches Err(e) ==> r.code == ApiStatusCode::ErrSystem.spec_code() && r.data
                is None && r.message@ == e.spec_message(),
    {
        match result {
            Ok(data) => Self::success(data),
            Err(e) => {
                let message = e.message().clone();
                Self::error(ApiStatusCode::ErrSystem, message)
            }
        }
    }
}

} // verus!
