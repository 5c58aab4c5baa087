use vstd::prelude::*;

verus! {

/// Failure while fetching a site's icon over the network.
#[derive(Debug, PartialEq, Eq)]
pub enum IconError {
    UrlError(String),
    RequestError(String),
    ImageError(String),
    NotFoundError,
}

impl IconError {
    /// The message describing the failure.
    pub open spec fn spec_message(&self) -> Seq<char> {
        match self {
            IconError::UrlError(m) => m@,
            IconError::RequestError(m) => m@,
            IconError::ImageError(m) => m@,
            IconError::NotFoundError => "icon not found"@,
        }
    }

    /// The message describing the failure.
    pub fn message(&self) -> (m: String)
        ensures
            m@ == self.spec_message(),
    {
        match self {
            IconError::UrlError(m) => m.clone(),
            IconError::RequestError(m) => m.clone(),
            IconError::ImageError(m) => m.clone(),
            IconError::NotFoundError => "icon not found".to_owned(),
        }
    }
}

} // verus!
