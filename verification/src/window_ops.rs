use vstd::prelude::*;
use crate::error::AppError;

verus! {

/// An operation the host performs on a window.
#[derive(Debug, Clone, Copy, PartialEq, Eq, Structural)]
pub enum WindowOperation {
    Close,
    Minimize,
    Maximize,
    Restore,
    ToggleAlwaysOnTop,
}

/// Message used when a numeric operation code is out of range.
pub open spec fn invalid_operation_message() -> Seq<char> {
    "invalid window operation"@
}

impl WindowOperation {
    /// The numeric code of the operation, as exchanged with the host.
    pub open spec fn spec_code(self) -> int {
        match self {
            WindowOperation::Close => 0,
            WindowOperation::Minimize => 1,
            WindowOperation::Maximize => 2,
            WindowOperation::Restore => 3,
            WindowOperation::ToggleAlwaysOnTop => 4,
        }
    }

    /// Decodes a numeric operation code; accepts exactly 0 through 4.
    pub fn try_from(value: i32) -> (r: Result<WindowOperation, AppError>)
        ensures
            r is Ok <==> 0 <= value <= 4,
            r matches Ok(op) ==> op.spec_code() == value,
            r matches Err(e) ==> e matches AppError::Validation(m) && m@
                == invalid_operation_message(),
    {
        match value {
            0 => Ok(WindowOperation::Close),
            1 => Ok(WindowOperation::Minimize),
            2 => Ok(WindowOperation::Maximize),
            3 => Ok(WindowOperation::Restore),
            4 => Ok(WindowOperation::ToggleAlwaysOnTop),
            _ => Err(AppError::Validation("invalid window operation".to_owned())),
        }
    }

    /// The numeric code of the operation.
    pub fn code(&self) -> (c: i32)
        ensures
            c == self.spec_code(),
    {
        match self {
            WindowOperation::Close => 0,
            WindowOperation::Minimize => 1,
            WindowOperation::Maximize => 2,
            WindowOperation::Restore => 3,
            WindowOperation::ToggleAlwaysOnTop => 4,
        }
    }
}

} // verus!
