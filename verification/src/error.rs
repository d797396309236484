//! Why an image was not saved.

use vstd::prelude::*;
use vstd::string::StringExecFns;

verus! {

/// The failures of saving one image. Each is local to its entry: the
/// entries after it are still tried.
#[derive(Debug, PartialEq, Eq)]
pub enum SaveError {
    /// The image could not be fetched.
    Fetch { detail: String },
    /// The bytes are not an image that can be decoded.
    Decode { detail: String },
    /// The destination exists already; it is left as it is.
    AlreadyExists { path: String },
    /// The canvas could not be encoded.
    Encode { detail: String },
    /// The destination could not be written.
    Storage { detail: String },
}

/// A save failure as a value.
pub enum SaveErrorView {
    Fetch { detail: Seq<char> },
    Decode { detail: Seq<char> },
    AlreadyExists { path: Seq<char> },
    Encode { detail: Seq<char> },
    Storage { detail: Seq<char> },
}

impl View for SaveError {
    type V = SaveErrorView;

    open spec fn view(&self) -> SaveErrorView {
        match self {
            SaveError::Fetch { detail } => SaveErrorView::Fetch { detail: detail@ },
            SaveError::Decode { detail } => SaveErrorView::Decode { detail: detail@ },
            SaveError::AlreadyExists { path } => SaveErrorView::AlreadyExists { path: path@ },
            SaveError::Encode { detail } => SaveErrorView::Encode { detail: detail@ },
            SaveError::Storage { detail } => SaveErrorView::Storage { detail: detail@ },
        }
    }
}

impl SaveErrorView {
    /// The name of the failure.
    pub open spec fn label(self) -> Seq<char> {
        match self {
            SaveErrorView::Fetch { .. } => "FetchError"@,
            SaveErrorView::Decode { .. } => "DecodeError"@,
            SaveErrorView::AlreadyExists { .. } => "AlreadyExistsError"@,
            SaveErrorView::Encode { .. } => "EncodeError"@,
            SaveErrorView::Storage { .. } => "StorageError"@,
        }
    }

    /// What the failure carries: a message, or the path that exists.
    pub open spec fn detail(self) -> Seq<char> {
        match self {
            SaveErrorView::Fetch { detail } => detail,
            SaveErrorView::Decode { detail } => detail,
            SaveErrorView::AlreadyExists { path } => path,
            SaveErrorView::Encode { detail } => detail,
            SaveErrorView::Storage { detail } => detail,
        }
    }

    /// The failure in one line: its name, a colon, what it carries.
    pub open spec fn text(self) -> Seq<char> {
        self.label() + ": "@ + self.detail()
    }
}

impl SaveError {
    /// The name of the failure.
    pub fn label(&self) -> (r: &'static str)
        ensures
            r@ == self@.label(),
    {
        match self {
            SaveError::Fetch { .. } => "FetchError",
            SaveError::Decode { .. } => "DecodeError",
            SaveError::AlreadyExists { .. } => "AlreadyExistsError",
            SaveError::Encode { .. } => "EncodeError",
            SaveError::Storage { .. } => "StorageError",
        }
    }

    /// What the failure carries: a message, or the path that exists.
    pub fn detail(&self) -> (r: &str)
        ensures
            r@ == self@.detail(),
    {
        match self {
            SaveError::Fetch { detail } => detail.as_str(),
            SaveError::Decode { detail } => detail.as_str(),
            SaveError::AlreadyExists { path } => path.as_str(),
            SaveError::Encode { detail } => detail.as_str(),
            SaveError::Storage { detail } => detail.as_str(),
        }
    }

    /// The failure in one line.
    pub fn to_text(&self) -> (r: String)
        ensures
            r@ == self@.text(),
    {
        let mut out = String::from_str(self.label());
        out.append(": ");
        out.append(self.detail());
        out
    }
}

} // verus!
