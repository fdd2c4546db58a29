//! One open audio file, as the library sees it.
//!
//! The codec itself is outside: whoever drives it opens the native
//! session, asks it for samples and hands it samples. Every decision about
//! what came back is taken here: whether the file is open, when a stream
//! has ended and what it held, whether a write went through.

use vstd::prelude::*;
use crate::error::SoundError;
use crate::info::SfInfo;
use crate::mode::SFM;

verus! {

/// How many samples are asked of the codec in one request.
pub const CHUNK: usize = 64;

/// What contracts see of a [`File`].
pub struct FileView {
    pub path: Seq<char>,
    pub mode: SFM,
    pub info: SfInfo,
}

/// An open audio file: where it is, how it was opened, and its metadata,
/// which does not change once the file is open.
#[derive(Debug)]
pub struct File {
    path: String,
    mode: SFM,
    info: SfInfo,
}

impl View for File {
    type V = FileView;

    closed spec fn view(&self) -> FileView {
        FileView { path: self.path@, mode: self.mode, info: self.info }
    }
}

/// How many samples of a reply count, when the codec says that it read
/// `read` of the CHUNK it was asked for: as many as it says, but no fewer
/// than none and no more than were asked.
pub open spec fn taken(read: int) -> int {
    if read <= 0 {
        0
    } else if read >= CHUNK {
        CHUNK as int
    } else {
        read
    }
}

/// The buffer after one reply of the codec is taken in.
pub open spec fn after_reply<S>(acc: Seq<S>, buffer: Seq<S>, read: int) -> Seq<S> {
    acc + buffer.take(taken(read))
}

/// Whether a reply ends the stream: a short read does, and nothing else.
pub open spec fn ends_stream(read: int) -> bool {
    read < CHUNK
}

/// How many of `left` samples the codec reads when asked for a CHUNK.
pub open spec fn reply_len(left: nat) -> int {
    if left < CHUNK {
        left as int
    } else {
        CHUNK as int
    }
}

/// The buffer at the end of a pass over a stream that still holds `rest`,
/// when `acc` was read before: reply after reply is taken in until one
/// ends the stream.
pub open spec fn drained<S>(acc: Seq<S>, rest: Seq<S>) -> Seq<S>
    decreases rest.len(),
{
    let read = reply_len(rest.len());
    let next = after_reply(acc, rest, read);
    if ends_stream(read) {
        next
    } else {
        drained(next, rest.skip(CHUNK as int))
    }
}

/// How many requests a pass makes over a stream that still holds `left`
/// samples.
pub open spec fn rounds(left: nat) -> nat
    decreases left,
{
    if ends_stream(reply_len(left)) {
        1
    } else {
        1 + rounds((left - CHUNK) as nat)
    }
}

impl File {
    /// Takes in the codec's answer to opening `path` in `mode` with the
    /// metadata of [`SfInfo::request`]. Where the codec gave a session, its
    /// metadata comes in `reply` and the file is open. Where it gave none,
    /// `reply` holds its diagnostic and the result is an `OpenError` with
    /// that text.
    pub fn open(path: &str, mode: SFM, reply: Result<SfInfo, String>) -> (opened: Result<
        File,
        SoundError,
    >)
        ensures
            (match reply {
                Ok(info) => opened matches Ok(file) && file@ == (FileView {
                    path: path@,
                    mode,
                    info,
                }),
                Err(text) => opened matches Err(SoundError::OpenError { diagnostic })
                    && diagnostic@ == text@,
            }),
    {
        match reply {
            Ok(info) => Ok(File { path: path.to_owned(), mode, info }),
            Err(text) => Err(SoundError::OpenError { diagnostic: text }),
        }
    }

    /// The number of channels, from the metadata.
    pub fn channels(&self) -> (count: i32)
        ensures
            count == self@.info.channels,
    {
        return self.info.channels;
    }

    /// The sample rate, from the metadata.
    pub fn samplerate(&self) -> (rate: i32)
        ensures
            rate == self@.info.samplerate,
    {
        self.info.samplerate
    }

    /// The mode the file was opened in.
    pub fn mode(&self) -> (mode: SFM)
        ensures
            mode == self@.mode,
    {
        self.mode
    }

    /// The metadata.
    pub fn info(&self) -> (info: SfInfo)
        ensures
            info == self@.info,
    {
        self.info
    }

    /// Where the file is.
    pub fn path(&self) -> (path: &str)
        ensures
            path@ == self@.path,
    {
        self.path.as_str()
    }

    /// Fails with `ChannelMismatchError` unless the file is mono.
    pub fn require_mono(&self) -> (checked: Result<(), SoundError>)
        ensures
            self@.info.channels == 1 ==> checked is Ok,
            self@.info.channels != 1 ==> checked == Err::<(), SoundError>(
                SoundError::ChannelMismatchError,
            ),
    {
        if self.info.channels == 1 {
            Ok(())
        } else {
            Err(SoundError::ChannelMismatchError)
        }
    }

    /// Fails with `InvalidParameterError` unless both files have the same
    /// sample rate: two waveforms are only combined sample by sample, never
    /// resampled.
    pub fn require_same_rate(&self, other: &File) -> (checked: Result<(), SoundError>)
        ensures
            self@.info.samplerate == other@.info.samplerate ==> checked is Ok,
            self@.info.samplerate != other@.info.samplerate ==> checked == Err::<(), SoundError>(
                SoundError::InvalidParameterError,
            ),
    {
        if self.info.samplerate == other.info.samplerate {
            Ok(())
        } else {
            Err(SoundError::InvalidParameterError)
        }
    }

    /// One round of reading a stream to its end. The codec was asked for a
    /// CHUNK of samples, put them at the start of `buffer` and said that it
    /// read `read` of them. Those are added to `outvec`, and the result
    /// says whether the stream has ended: a short read is the end, and the
    /// only one. Until then the codec is asked again.
    pub fn read_everything<S: Copy>(&self, outvec: &mut Vec<S>, buffer: &[S; 64], read: i64) -> (done:
        bool)
        ensures
            final(outvec)@ == after_reply(old(outvec)@, buffer@, read as int),
            done == ends_stream(read as int),
    {
        let count: usize = if read <= 0 {
            0
        } else if read >= 64 {
            CHUNK
        } else {
            read as usize
        };
        let mut i: usize = 0;
        while i < count
            invariant
                i <= count <= CHUNK,
                outvec@ == old(outvec)@ + buffer@.take(i as int),
            decreases count - i,
        {
            outvec.push(buffer[i]);
            i += 1;
        }
        read < 64
    }

    /// Takes in the codec's answer to writing all of `data` in one call:
    /// `written` is the number of samples it says it took. Anything but all
    /// of them is a `WriteError`, which names this file. Nothing is written
    /// again: a partial write is final.
    pub fn write<S>(&self, data: &[S], written: i64) -> (outcome: Result<(), SoundError>)
        ensures
            written == data@.len() ==> outcome is Ok,
            written != data@.len() ==> (outcome matches Err(SoundError::WriteError { path })
                && path@ == self@.path),
    {
        if written >= 0 && written as u64 == data.len() as u64 {
            Ok(())
        } else {
            Err(SoundError::WriteError { path: self.path.clone() })
        }
    }
}

/// A pass reads a stream whole: whatever the stream still holds ends up in
/// the buffer, behind what was read before, sample for sample and in
/// order. So a buffer that was written out and is read back comes back as
/// it was, with the same number of samples, and an empty stream gives an
/// empty buffer.
pub proof fn lemma_pass_reads_all<S>(acc: Seq<S>, rest: Seq<S>)
    ensures
        drained(acc, rest) == acc + rest,
    decreases rest.len(),
{
    let read = reply_len(rest.len());
    let next = after_reply(acc, rest, read);
    if ends_stream(read) {
        assert(rest.take(read) == rest);
    } else {
        lemma_pass_reads_all(next, rest.skip(CHUNK as int));
        assert(acc + rest.take(CHUNK as int) + rest.skip(CHUNK as int) == acc + rest);
    }
}

/// A pass over a stream of `left` samples ends, after one request more
/// than there are whole CHUNKs in it: the last request finds less than a
/// CHUNK left, and what it reads ends the stream. Where the length is a
/// multiple of CHUNK it finds nothing left and reads nothing, which is a
/// short read like any other.
pub proof fn lemma_pass_ends(left: nat)
    ensures
        rounds(left) == left / (CHUNK as nat) + 1,
        ends_stream(reply_len(left % (CHUNK as nat))),
        left % (CHUNK as nat) == 0 ==> reply_len(left % (CHUNK as nat)) == 0,
    decreases left,
{
    if !ends_stream(reply_len(left)) {
        lemma_pass_ends((left - CHUNK) as nat);
    }
}

/// A pass over an empty stream makes one request and leaves the buffer
/// empty.
pub proof fn lemma_empty_stream<S>()
    ensures
        drained(Seq::<S>::empty(), Seq::<S>::empty()) == Seq::<S>::empty(),
        rounds(0) == 1,
{
    lemma_pass_reads_all(Seq::<S>::empty(), Seq::<S>::empty());
}

/// What was written reads back as it was: a pass over a stream that holds
/// a buffer gives that buffer, with the same number of samples, sample for
/// sample.
pub proof fn lemma_written_reads_back<S>(data: Seq<S>)
    ensures
        drained(Seq::<S>::empty(), data) == data,
        drained(Seq::<S>::empty(), data).len() == data.len(),
{
    lemma_pass_reads_all(Seq::<S>::empty(), data);
}

} // verus!
