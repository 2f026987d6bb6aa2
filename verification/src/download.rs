//! What the answers of an image service mean to a downloader.
//!
//! The downloader asks the service for the address of an image and then
//! fetches the image from there. Sending requests and writing files is the
//! host's work; which answer is a success, and what error stands for each
//! failure, is decided here.

use crate::decimal::{append_decimal, decimal};
use vstd::prelude::*;

verus! {

/// What the service says when asked for an image.
#[derive(Debug)]
pub struct DogImage {
    /// The address of the image.
    pub message: String,
    /// The service's word on how the request went.
    pub status: String,
}

/// Why a download did not come about.
#[derive(Debug)]
pub enum DownloadError {
    /// The service answered, but not with what was asked for.
    ApiError(String),
    /// The service could not be reached, or its answer not be read.
    NetworkError(String),
    /// The image could not be stored.
    FileError(String),
}

/// A [`DownloadError`] with its message as a sequence of characters.
pub enum DownloadErrorView {
    ApiError(Seq<char>),
    NetworkError(Seq<char>),
    FileError(Seq<char>),
}

impl View for DownloadError {
    type V = DownloadErrorView;

    open spec fn view(&self) -> DownloadErrorView {
        match self {
            DownloadError::ApiError(message) => DownloadErrorView::ApiError(message@),
            DownloadError::NetworkError(message) => DownloadErrorView::NetworkError(message@),
            DownloadError::FileError(message) => DownloadErrorView::FileError(message@),
        }
    }
}

/// What a request was made for.
#[derive(Clone, Copy, Debug, PartialEq, Eq, Structural)]
pub enum Purpose {
    /// To learn the address of an image.
    Lookup,
    /// To fetch the image itself.
    Download,
}

/// The status with which a request has succeeded.
pub const HTTP_OK: u16 = 200;

/// How the message of the error for an unwanted status begins.
pub open spec fn status_prefix(purpose: Purpose) -> Seq<char> {
    match purpose {
        Purpose::Lookup => "HTTP error: "@,
        Purpose::Download => "Failed to download image: HTTP "@,
    }
}

/// What the outcome of a request means: nothing is wrong where the service
/// answered with status 200; another status is an error of the service,
/// and no answer at all an error of the network.
pub open spec fn verdict_on(purpose: Purpose, outcome: Result<u16, Seq<char>>) -> Result<
    (),
    DownloadErrorView,
> {
    match outcome {
        Ok(status) => if status == HTTP_OK {
            Ok(())
        } else {
            Err(DownloadErrorView::ApiError(status_prefix(purpose) + decimal(status as nat)))
        },
        Err(why) => Err(DownloadErrorView::NetworkError("Request failed: "@ + why)),
    }
}

/// `prefix` with `why` behind it.
fn explain(prefix: &str, why: &str) -> (message: String)
    ensures
        message@ == prefix@ + why@,
{
    let mut message = prefix.to_owned();
    message.append(why);
    message
}

/// `outcome` with the reason of a failure as a sequence of characters.
pub open spec fn outcome_view(outcome: Result<u16, String>) -> Result<u16, Seq<char>> {
    match outcome {
        Ok(status) => Ok(status),
        Err(why) => Err(why@),
    }
}

/// `verdict` with the error as mathematical values.
pub open spec fn verdict_view(verdict: Result<(), DownloadError>) -> Result<
    (),
    DownloadErrorView,
> {
    match verdict {
        Ok(_) => Ok(()),
        Err(error) => Err(error@),
    }
}

/// Judges the outcome of a request made for `purpose`: the status that the
/// service answered with, or why no answer came.
pub fn check_response(purpose: Purpose, outcome: Result<u16, String>) -> (verdict: Result<
    (),
    DownloadError,
>)
    ensures
        verdict_view(verdict) == verdict_on(purpose, outcome_view(outcome)),
{
    match outcome {
        Ok(status) => {
            if status == HTTP_OK {
                Ok(())
            } else {
                let mut message = match purpose {
                    Purpose::Lookup => "HTTP error: ".to_owned(),
                    Purpose::Download => "Failed to download image: HTTP ".to_owned(),
                };
                append_decimal(&mut message, status as u64);
                Err(DownloadError::ApiError(message))
            }
        },
        Err(why) => Err(DownloadError::NetworkError(explain("Request failed: ", why.as_str()))),
    }
}

/// The error for an answer of the service that could not be understood.
pub fn parse_failed(why: &str) -> (error: DownloadError)
    ensures
        error@ == DownloadErrorView::ApiError("JSON parse failed: "@ + why@),
{
    DownloadError::ApiError(explain("JSON parse failed: ", why))
}

/// The error for an image whose bytes could not be read from the network.
pub fn read_failed(why: &str) -> (error: DownloadError)
    ensures
        error@ == DownloadErrorView::NetworkError("Read failed: "@ + why@),
{
    DownloadError::NetworkError(explain("Read failed: ", why))
}

/// The error for a file that could not be created.
pub fn create_failed(why: &str) -> (error: DownloadError)
    ensures
        error@ == DownloadErrorView::FileError("File create failed: "@ + why@),
{
    DownloadError::FileError(explain("File create failed: ", why))
}

/// The error for a file that could not be written.
pub fn write_failed(why: &str) -> (error: DownloadError)
    ensures
        error@ == DownloadErrorView::FileError("Write failed: "@ + why@),
{
    DownloadError::FileError(explain("Write failed: ", why))
}

} // verus!
