//! Shared value types: catalog items and audio encodings.

use vstd::prelude::*;

verus! {

/// An audio encoding that the service can deliver.
#[derive(Clone, Copy, Debug, PartialEq, Eq, Structural)]
pub enum Encoding {
    Aac,
    Aiff,
    Alac,
    Flac,
    MP3320,
    MP3V0,
    Ogg,
    Wav,
}

/// The name under which the service lists an encoding.
pub open spec fn wire_name(encoding: Encoding) -> Seq<char> {
    match encoding {
        Encoding::Aac => "aac-hi"@,
        Encoding::Aiff => "aiff-lossless"@,
        Encoding::Alac => "alac"@,
        Encoding::Flac => "flac"@,
        Encoding::MP3320 => "mp3-320"@,
        Encoding::MP3V0 => "mp3-v0"@,
        Encoding::Ogg => "vorbis"@,
        Encoding::Wav => "wav"@,
    }
}

/// The name under which an encoding is shown to the user.
pub open spec fn display_name(encoding: Encoding) -> Seq<char> {
    match encoding {
        Encoding::Aac => "aac"@,
        Encoding::Aiff => "aiff"@,
        Encoding::Alac => "alac"@,
        Encoding::Flac => "flac"@,
        Encoding::MP3320 => "mp3_320"@,
        Encoding::MP3V0 => "mp3_v0"@,
        Encoding::Ogg => "ogg"@,
        Encoding::Wav => "wav"@,
    }
}

impl Encoding {
    /// The display name of the encoding.
    pub fn name(&self) -> (text: &'static str)
        ensures
            text@ == display_name(*self),
    {
        match self {
            Encoding::Aac => "aac",
            Encoding::Aiff => "aiff",
            Encoding::Alac => "alac",
            Encoding::Flac => "flac",
            Encoding::MP3320 => "mp3_320",
            Encoding::MP3V0 => "mp3_v0",
            Encoding::Ogg => "ogg",
            Encoding::Wav => "wav",
        }
    }
}

/// Whether a catalog item is a whole album or a single track.
#[derive(Clone, Copy, Debug, PartialEq, Eq, Structural)]
pub enum CollectionItemKind {
    Album,
    Track,
}

/// One purchased album or track.
#[derive(Clone, Debug, PartialEq, Eq)]
pub struct CollectionItem {
    pub itype: CollectionItemKind,
    pub title: String,
    pub artist: String,
    pub download_url: String,
}

/// The mathematical value of a catalog item.
pub struct CollectionItemView {
    pub itype: CollectionItemKind,
    pub title: Seq<char>,
    pub artist: Seq<char>,
    pub download_url: Seq<char>,
}

impl View for CollectionItem {
    type V = CollectionItemView;

    open spec fn view(&self) -> CollectionItemView {
        CollectionItemView {
            itype: self.itype,
            title: self.title@,
            artist: self.artist@,
            download_url: self.download_url@,
        }
    }
}

} // verus!
