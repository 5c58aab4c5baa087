use vstd::prelude::*;

verus! {

/// Failure while importing a local image as an icon.
#[derive(Debug, PartialEq, Eq)]
pub enum IconError {
    HomeDirError(String),
    ImageError(String),
    IoError(String),
    InvalidAppType,
}

impl IconError {
    /// The message describing the failure.
    pub open spec fn spec_message(&self) -> Seq<char> {
        match self {
            IconError::HomeDirError(m) => m@,
            IconError::ImageError(m) => m@,
            IconError::IoError(m) => m@,
            IconError::InvalidAppType => "invalid application type"@,
        }
    }

    /// The message describing the failure.
    pub fn message(&self) -> (m: String)
        ensures
            m@ == self.spec_message(),
    {
        match self {
            IconError::HomeDirError(m) => m.clone(),
            IconError::ImageError(m) => m.clone(),
            IconError::IoError(m) => m.clone(),
            IconError::InvalidAppType => "invalid application type".to_owned(),
        }
    }
}

} // verus!
