//! Saving one image: what to store once the image is fetched, and what the
//! attempt to store it amounts to.

use vstd::prelude::*;
use crate::error::{SaveError, SaveErrorView};
use crate::link::{destination_path, file_name_of, path_below};
use crate::raster::{is_thumbnail_outcome, make_thumbnail, thumbnail_view};

verus! {

/// The file to create: its path and its bytes.
#[derive(Debug, PartialEq, Eq)]
pub struct StoreRequest {
    pub path: String,
    pub bytes: Vec<u8>,
}

/// A store request as a value.
pub struct StoreRequestView {
    pub path: Seq<char>,
    pub bytes: Seq<u8>,
}

impl View for StoreRequest {
    type V = StoreRequestView;

    open spec fn view(&self) -> StoreRequestView {
        StoreRequestView { path: self.path@, bytes: self.bytes@ }
    }
}

/// How the attempt to create a file went.
#[derive(Debug, PartialEq, Eq)]
pub enum StoreOutcome {
    /// The file was created and `bytes` bytes were written to it.
    Written { bytes: u64 },
    /// A file stands at the path already; it was not touched.
    Exists,
    /// The file could not be created or written.
    Failed { detail: String },
}

/// A storage answer as a value.
pub enum StoreOutcomeView {
    Written { bytes: u64 },
    Exists,
    Failed { detail: Seq<char> },
}

impl View for StoreOutcome {
    type V = StoreOutcomeView;

    open spec fn view(&self) -> StoreOutcomeView {
        match self {
            StoreOutcome::Written { bytes } => StoreOutcomeView::Written { bytes: *bytes },
            StoreOutcome::Exists => StoreOutcomeView::Exists,
            StoreOutcome::Failed { detail } => StoreOutcomeView::Failed { detail: detail@ },
        }
    }
}

/// What is to be stored for the image at `url` once its thumbnail is made
/// or has failed: the thumbnail, under the last segment of `url` below
/// `dir`. Without a thumbnail nothing is stored.
pub open spec fn request_from(
    url: Seq<char>,
    dir: Seq<char>,
    thumbnail: Result<Seq<u8>, SaveErrorView>,
) -> Result<StoreRequestView, SaveErrorView> {
    match thumbnail {
        Ok(bytes) => Ok(StoreRequestView { path: path_below(dir, file_name_of(url)), bytes }),
        Err(e) => Err(e),
    }
}

/// `out` is what is to be stored for the image at `url` once the fetch has
/// brought `fetched`. A failed fetch stores nothing. A body is stored as
/// some thumbnail that can be made of it; which one is the decoder's and
/// the resize filter's to say.
pub open spec fn is_request_for(
    url: Seq<char>,
    dir: Seq<char>,
    fetched: Result<Seq<u8>, Seq<char>>,
    out: Result<StoreRequestView, SaveErrorView>,
) -> bool {
    match fetched {
        Err(detail) => out == Err::<StoreRequestView, SaveErrorView>(
            SaveErrorView::Fetch { detail },
        ),
        Ok(body) => exists|thumbnail: Result<Seq<u8>, SaveErrorView>|
            is_thumbnail_outcome(thumbnail) && out == #[trigger] request_from(url, dir, thumbnail),
    }
}

/// What the save amounts to once the storage has answered. A file that
/// exists already fails the save; it is never written over.
pub open spec fn saved(path: Seq<char>, outcome: StoreOutcomeView) -> Result<u64, SaveErrorView> {
    match outcome {
        StoreOutcomeView::Written { bytes } => Ok(bytes),
        StoreOutcomeView::Exists => Err(SaveErrorView::AlreadyExists { path }),
        StoreOutcomeView::Failed { detail } => Err(SaveErrorView::Storage { detail }),
    }
}

/// The view of a request or of the reason why there is none.
pub open spec fn request_view(r: Result<StoreRequest, SaveError>) -> Result<
    StoreRequestView,
    SaveErrorView,
> {
    match r {
        Ok(request) => Ok(request@),
        Err(e) => Err(e@),
    }
}

/// The view of what a fetch brought.
pub open spec fn body_view(fetched: Result<Vec<u8>, String>) -> Result<Seq<u8>, Seq<char>> {
    match fetched {
        Ok(body) => Ok(body@),
        Err(detail) => Err(detail@),
    }
}

/// The view of a save's result.
pub open spec fn saved_view(r: Result<u64, SaveError>) -> Result<u64, SaveErrorView> {
    match r {
        Ok(n) => Ok(n),
        Err(e) => Err(e@),
    }
}

/// Decides what to store for the image at `url`, given its thumbnail or
/// the reason why there is none.
pub fn request_store(url: &str, dir: &str, thumbnail: Result<Vec<u8>, SaveError>) -> (r: Result<
    StoreRequest,
    SaveError,
>)
    ensures
        request_view(r) == request_from(url@, dir@, thumbnail_view(thumbnail)),
{
    match thumbnail {
        Ok(bytes) => Ok(StoreRequest { path: destination_path(dir, url), bytes }),
        Err(e) => Err(e),
    }
}

/// Decides what to store for the image at `url`, given what its fetch
/// brought.
pub fn prepare_store(url: &str, dir: &str, fetched: Result<Vec<u8>, String>) -> (r: Result<
    StoreRequest,
    SaveError,
>)
    ensures
        is_request_for(url@, dir@, body_view(fetched), request_view(r)),
        r matches Ok(request) ==> request.path@ == path_below(dir@, file_name_of(url@)),
        fetched is Err <==> r matches Err(SaveError::Fetch { .. }),
{
    match fetched {
        Err(detail) => Err(SaveError::Fetch { detail }),
        Ok(body) => {
            let thumbnail = make_thumbnail(body.as_slice());
            let ghost made = thumbnail_view(thumbnail);
            let r = request_store(url, dir, thumbnail);
            assert(request_view(r) == request_from(url@, dir@, made));
            r
        },
    }
}

/// Concludes the save from the storage's answer.
pub fn conclude_store(path: String, outcome: StoreOutcome) -> (r: Result<u64, SaveError>)
    ensures
        saved_view(r) == saved(path@, outcome@),
{
    match outcome {
        StoreOutcome::Written { bytes } => Ok(bytes),
        StoreOutcome::Exists => Err(SaveError::AlreadyExists { path }),
        StoreOutcome::Failed { detail } => Err(SaveError::Storage { detail }),
    }
}

/// A destination that exists already fails the save with `AlreadyExists`,
/// whatever was to be written.
pub proof fn lemma_existing_file_fails_save(path: Seq<char>)
    ensures
        saved(path, StoreOutcomeView::Exists) == Err::<u64, SaveErrorView>(
            SaveErrorView::AlreadyExists { path },
        ),
{
}

} // verus!
