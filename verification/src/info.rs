//! The metadata that travels with an open audio file.

use vstd::prelude::*;
use crate::format::Format;
use crate::mode::SFM;

verus! {

/// The sample rate that a new file gets when the caller names none.
pub const DEFAULT_SAMPLERATE: i32 = 44100;

/// The channel count that a new file gets when the caller names none.
pub const DEFAULT_CHANNELS: i32 = 1;

/// What the codec knows of a file: its length in frames, its sample rate,
/// its channel count, its packed format descriptor, and whether it can seek.
#[derive(Clone, Copy, Debug, PartialEq, Eq, Structural)]
pub struct SfInfo {
    pub frames: i64,
    pub samplerate: i32,
    pub channels: i32,
    pub format: i32,
    pub sections: i32,
    pub seekable: i32,
}

impl SfInfo {
    /// The metadata with nothing filled in, which the codec takes when it
    /// is to read everything from the file's header.
    pub open spec fn spec_blank() -> SfInfo {
        SfInfo { frames: 0, samplerate: 0, channels: 0, format: 0, sections: 0, seekable: 0 }
    }

    /// The metadata of a file that is to be written, with the default for
    /// each choice the caller leaves open.
    pub open spec fn spec_writing(
        samplerate: Option<i32>,
        channels: Option<i32>,
        format: Option<Format>,
    ) -> SfInfo {
        SfInfo {
            frames: 0,
            samplerate: match samplerate {
                Some(rate) => rate,
                None => DEFAULT_SAMPLERATE,
            },
            channels: match channels {
                Some(count) => count,
                None => DEFAULT_CHANNELS,
            },
            format: match format {
                Some(f) => f.spec_encode() as i32,
                None => Format::spec_standard().spec_encode() as i32,
            },
            sections: 1,
            seekable: 1,
        }
    }

    /// What is handed to the codec when a file is opened in `mode`.
    pub open spec fn spec_request(mode: SFM) -> SfInfo {
        match mode {
            SFM::READ => SfInfo::spec_blank(),
            SFM::WRITE | SFM::RDWR => SfInfo::spec_writing(None, None, None),
        }
    }

    /// The metadata with nothing filled in.
    pub fn blank() -> (info: SfInfo)
        ensures
            info == SfInfo::spec_blank(),
    {
        SfInfo { frames: 0, samplerate: 0, channels: 0, format: 0, sections: 0, seekable: 0 }
    }

    /// The metadata of a file that is to be written. A choice that is left
    /// open gets its default: 44100 Hz, one channel, 16 bit PCM in a WAV
    /// container.
    pub fn writing(samplerate: Option<i32>, channels: Option<i32>, format: Option<Format>) -> (info:
        SfInfo)
        ensures
            info == SfInfo::spec_writing(samplerate, channels, format),
    {
        let format: Format = match format {
            Some(f) => f,
            None => Format::standard(),
        };
        SfInfo {
            frames: 0,
            samplerate: match samplerate {
                Some(rate) => rate,
                None => DEFAULT_SAMPLERATE,
            },
            channels: match channels {
                Some(count) => count,
                None => DEFAULT_CHANNELS,
            },
            format: format.encode(),
            sections: 1,
            seekable: 1,
        }
    }

    /// What is handed to the codec when a file is opened in `mode`: for
    /// reading, blank metadata that the codec fills in from the header; for
    /// writing, the defaults.
    pub fn request(mode: SFM) -> (info: SfInfo)
        ensures
            info == SfInfo::spec_request(mode),
    {
        match mode {
            SFM::READ => SfInfo::blank(),
            SFM::WRITE | SFM::RDWR => SfInfo::writing(None, None, None),
        }
    }

    /// The format of the file, where its descriptor is the packed form of
    /// one.
    pub fn described(&self) -> (found: Option<Format>)
        ensures
            match found {
                Some(f) => f.spec_encode() == self.format,
                None => forall|f: Format| f.spec_encode() != self.format,
            },
    {
        Format::decode(self.format)
    }

    /// A file opened for writing is described in full: its descriptor
    /// unpacks to the format that was asked for, or to the default.
    pub proof fn lemma_writing_is_described(
        samplerate: Option<i32>,
        channels: Option<i32>,
        format: Option<Format>,
    )
        ensures
            SfInfo::spec_writing(samplerate, channels, format).format == (match format {
                Some(f) => f,
                None => Format::spec_standard(),
            }).spec_encode(),
    {
        match format {
            Some(f) => f.lemma_fields(),
            None => Format::spec_standard().lemma_fields(),
        }
    }
}

impl Default for SfInfo {
    fn default() -> (info: SfInfo)
        ensures
            info == SfInfo::spec_blank(),
    {
        SfInfo::blank()
    }
}

} // verus!
