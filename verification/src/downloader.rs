//! What the headers of a media response say about the download: the name
//! of the file and its length.

use crate::decimal::{parse_unsigned, unsigned_value};
use crate::text::text_from_utf8;
use vstd::prelude::*;
use vstd::slice::slice_to_vec;
use vstd::utf8::{decode_utf8, valid_utf8};

verus! {

/// The pattern of the file name in a content disposition.
pub const DISPOSITION_PATTERN: &'static str = "filename\\s*=\\s*\"([^\"]+)\"";

/// `reqwest::Error`: why a request failed. Nothing is known of it; the
/// library never makes one, it only hands it on.
#[verifier::external_type_specification]
#[verifier::external_body]
pub struct ExRequestError(reqwest::Error);

/// Why a media response could not be used.
#[derive(Debug)]
pub enum GetMediaError {
    /// The request failed.
    RequestError(reqwest::Error),
    /// The response has no content disposition; its headers.
    NoContentDisposition(String),
    /// The content disposition names no file.
    InvalidContentDisposition(Vec<u8>),
    /// The response has no content length.
    NoContentLength,
    /// The content length is no number.
    InvalidContentLength(Vec<u8>),
    /// The name of the file is no text: its bytes, and where they stop being
    /// text.
    InvalidFilename(Vec<u8>, std::str::Utf8Error),
}

/// The mathematical value of such a fault.
pub enum MediaFault {
    RequestError,
    NoContentDisposition(Seq<char>),
    InvalidContentDisposition(Seq<u8>),
    NoContentLength,
    InvalidContentLength(Seq<u8>),
    InvalidFilename(Seq<u8>),
}

impl View for GetMediaError {
    type V = MediaFault;

    open spec fn view(&self) -> MediaFault {
        match self {
            GetMediaError::RequestError(_) => MediaFault::RequestError,
            GetMediaError::NoContentDisposition(headers) => MediaFault::NoContentDisposition(
                headers@,
            ),
            GetMediaError::InvalidContentDisposition(value) => {
                MediaFault::InvalidContentDisposition(value@)
            },
            GetMediaError::NoContentLength => MediaFault::NoContentLength,
            GetMediaError::InvalidContentLength(value) => MediaFault::InvalidContentLength(value@),
            GetMediaError::InvalidFilename(name, _) => MediaFault::InvalidFilename(name@),
        }
    }
}

/// What a media response declares.
#[derive(Clone, Debug, PartialEq, Eq)]
pub struct MediaInfo {
    pub filename: String,
    pub content_length: u64,
}

/// The mathematical value of such a declaration.
pub struct MediaInfoView {
    pub filename: Seq<char>,
    pub content_length: u64,
}

impl View for MediaInfo {
    type V = MediaInfoView;

    open spec fn view(&self) -> MediaInfoView {
        MediaInfoView { filename: self.filename@, content_length: self.content_length }
    }
}

/// What the first group of a pattern holds at the leftmost match of the
/// pattern in some bytes. `None` where the pattern cannot be read, matches
/// nowhere, or matches without its first group.
pub uninterp spec fn first_group(pattern: Seq<char>, haystack: Seq<u8>) -> Option<Seq<u8>>;

/// `regex::bytes::Regex::new`, `regex::bytes::Regex::captures` and
/// `regex::bytes::Captures::get`: the bytes of the first group at the
/// leftmost match.
#[verifier::external_body]
fn capture_first_group(pattern: &str, haystack: &[u8]) -> (group: Option<Vec<u8>>)
    ensures
        match group {
            Some(bytes) => first_group(pattern@, haystack@) == Some(bytes@),
            None => first_group(pattern@, haystack@) is None,
        },
{
    let found = regex::bytes::Regex::new(pattern).ok()?.captures(haystack)?;
    found.get(1).map(|group| group.as_bytes().to_vec())
}

/// What a response declares, given the name that was found in its content
/// disposition.
pub open spec fn declared(
    disposition: Option<Seq<u8>>,
    name: Option<Seq<u8>>,
    length: Option<Seq<u8>>,
    headers: Seq<char>,
) -> Result<MediaInfoView, MediaFault> {
    if disposition is None {
        Err(MediaFault::NoContentDisposition(headers))
    } else if name is None {
        Err(MediaFault::InvalidContentDisposition(disposition->0))
    } else if !valid_utf8(name->0) {
        Err(MediaFault::InvalidFilename(name->0))
    } else if length is None {
        Err(MediaFault::NoContentLength)
    } else if unsigned_value(length->0) is None {
        Err(MediaFault::InvalidContentLength(length->0))
    } else {
        Ok(
            MediaInfoView {
                filename: decode_utf8(name->0),
                content_length: unsigned_value(length->0)->0,
            },
        )
    }
}

/// What a response declares.
pub open spec fn media_info(
    disposition: Option<Seq<u8>>,
    length: Option<Seq<u8>>,
    headers: Seq<char>,
) -> Result<MediaInfoView, MediaFault> {
    declared(
        disposition,
        match disposition {
            Some(value) => first_group(DISPOSITION_PATTERN@, value),
            None => None,
        },
        length,
        headers,
    )
}

/// The bytes of a header as a mathematical value.
pub open spec fn header_bytes(header: Option<&[u8]>) -> Option<Seq<u8>> {
    match header {
        Some(value) => Some(value@),
        None => None,
    }
}

/// The bytes of a name as a mathematical value.
pub open spec fn name_bytes(name: Option<Vec<u8>>) -> Option<Seq<u8>> {
    match name {
        Some(value) => Some(value@),
        None => None,
    }
}

/// Reads what a response declares from its content length and from the name
/// that was found in its content disposition. The headers as a text are what
/// the fault holds where there is no content disposition.
pub fn declared_media(
    disposition: Option<&[u8]>,
    name: Option<Vec<u8>>,
    length: Option<&[u8]>,
    headers: &str,
) -> (r: Result<MediaInfo, GetMediaError>)
    ensures
        match r {
            Ok(info) => declared(
                header_bytes(disposition),
                name_bytes(name),
                header_bytes(length),
                headers@,
            ) == Ok::<MediaInfoView, MediaFault>(info@),
            Err(fault) => declared(
                header_bytes(disposition),
                name_bytes(name),
                header_bytes(length),
                headers@,
            ) == Err::<MediaInfoView, MediaFault>(fault@),
        },
{
    let disposition = match disposition {
        Some(value) => value,
        None => {
            return Err(GetMediaError::NoContentDisposition(headers.to_owned()));
        },
    };
    let name = match name {
        Some(name) => name,
        None => {
            return Err(GetMediaError::InvalidContentDisposition(slice_to_vec(disposition)));
        },
    };
    let kept = slice_to_vec(name.as_slice());
    let filename = match text_from_utf8(name) {
        Ok(filename) => filename,
        Err(fault) => {
            return Err(GetMediaError::InvalidFilename(kept, fault));
        },
    };
    let length = match length {
        Some(value) => value,
        None => {
            return Err(GetMediaError::NoContentLength);
        },
    };
    match parse_unsigned(length) {
        Some(content_length) => Ok(MediaInfo { filename, content_length }),
        None => Err(GetMediaError::InvalidContentLength(slice_to_vec(length))),
    }
}

/// Reads what a response declares from its content disposition and its
/// content length.
pub fn read_media_headers(disposition: Option<&[u8]>, length: Option<&[u8]>, headers: &str) -> (r:
    Result<MediaInfo, GetMediaError>)
    ensures
        match r {
            Ok(info) => media_info(header_bytes(disposition), header_bytes(length), headers@)
                == Ok::<MediaInfoView, MediaFault>(info@),
            Err(fault) => media_info(header_bytes(disposition), header_bytes(length), headers@)
                == Err::<MediaInfoView, MediaFault>(fault@),
        },
{
    let name = match disposition {
        Some(value) => capture_first_group(DISPOSITION_PATTERN, value),
        None => None,
    };
    declared_media(disposition, name, length, headers)
}

} // verus!
