//! Why a page of the service could not be read.

use crate::json::{PathFault, PathFaultView};
use vstd::prelude::*;

verus! {

/// A fault met while reading a page.
#[derive(Debug)]
pub enum ParsePageError {
    /// No element matches the selector, or it lacks the attribute wanted.
    NoHtmlElement(&'static str),
    /// The page holds no data block.
    PageDataNotFound,
    /// The data block is not JSON.
    PageDataNotJSON(serde_json::Error),
    /// The value at a path is missing or has another shape than expected.
    InvalidJSON(&'static str, PathFault),
    /// A download page with another number of digital items than one.
    UnexpectedDownloadDigitalItemCount(usize),
    /// A key of the sequence list that the item cache does not hold.
    MissingItem(String),
    /// An item for whose sale the table of addresses holds none.
    MissingRedownloadUrl(String),
}

/// The mathematical value of a fault.
pub enum PageFault {
    NoHtmlElement(Seq<char>),
    PageDataNotFound,
    PageDataNotJSON,
    InvalidJSON(Seq<char>, PathFaultView),
    UnexpectedDownloadDigitalItemCount(usize),
    MissingItem(Seq<char>),
    MissingRedownloadUrl(Seq<char>),
}

impl View for ParsePageError {
    type V = PageFault;

    open spec fn view(&self) -> PageFault {
        match self {
            ParsePageError::NoHtmlElement(selector) => PageFault::NoHtmlElement(selector@),
            ParsePageError::PageDataNotFound => PageFault::PageDataNotFound,
            ParsePageError::PageDataNotJSON(_) => PageFault::PageDataNotJSON,
            ParsePageError::InvalidJSON(path, fault) => PageFault::InvalidJSON(path@, fault@),
            ParsePageError::UnexpectedDownloadDigitalItemCount(count) => {
                PageFault::UnexpectedDownloadDigitalItemCount(*count)
            },
            ParsePageError::MissingItem(key) => PageFault::MissingItem(key@),
            ParsePageError::MissingRedownloadUrl(key) => PageFault::MissingRedownloadUrl(key@),
        }
    }
}

} // verus!
