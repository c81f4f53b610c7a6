//! Frames on a byte stream: the two small state machines that a connection
//! runs, one to collect a frame from the pieces in which it arrives, one to
//! write a frame through a channel that may take only part of what it is
//! offered. The reads and writes themselves are the caller's.

use crate::codec::{
    append_bytes,
    encode_frame,
    frame_of,
    le_bytes,
    le_value,
    lemma_frame_round_trip,
    lemma_le_value_of_bytes,
    lemma_u64_fits,
    parse_frame,
    prefix_value,
    PREFIX_LEN,
};
use crate::error::SessionError;
use vstd::prelude::*;
use vstd::slice::slice_subrange;

verus! {

/// How many bytes a reader that holds `buffered` asks for next: what is
/// missing of the length prefix, and once that is there, what is missing of
/// the payload.
pub open spec fn missing(buffered: Seq<u8>) -> int {
    if buffered.len() < 8 {
        8 - buffered.len()
    } else {
        8 + le_value(buffered.subrange(0, 8)) - buffered.len()
    }
}

/// What a reader that holds `buffered` holds after `chunk`, and the
/// payload that it hands out: with the chunk that completes a frame the
/// reader hands out the payload and holds nothing; before that it holds
/// all it was given.
pub open spec fn reader_step(buffered: Seq<u8>, chunk: Seq<u8>) -> (Seq<u8>, Option<Seq<u8>>) {
    let all = buffered + chunk;
    match parse_frame(all) {
        Some(payload) => (Seq::empty(), Some(payload)),
        None => (all, None),
    }
}

/// A frame arrives whole, however it is cut: a reader that holds the
/// beginning of a frame takes the rest of it, asks for no more than that,
/// and hands out the payload with the piece that ends the frame, not before.
pub proof fn lemma_reader_collects_frame(payload: Seq<u8>, held: int, upto: int)
    requires
        payload.len() <= u64::MAX,
        0 <= held <= upto <= frame_of(payload).len(),
        held < frame_of(payload).len(),
    ensures
        0 < missing(frame_of(payload).subrange(0, held)) <= frame_of(payload).len() - held,
        upto < frame_of(payload).len() ==> reader_step(
            frame_of(payload).subrange(0, held),
            frame_of(payload).subrange(held, upto),
        ) == (frame_of(payload).subrange(0, upto), None::<Seq<u8>>),
        upto == frame_of(payload).len() ==> reader_step(
            frame_of(payload).subrange(0, held),
            frame_of(payload).subrange(held, upto),
        ) == (Seq::<u8>::empty(), Some(payload)),
{
    let frame = frame_of(payload);
    lemma_u64_fits(payload.len() as u64);
    lemma_le_value_of_bytes(payload.len(), 8);
    lemma_frame_round_trip(payload);
    let before = frame.subrange(0, held);
    let all = before + frame.subrange(held, upto);
    if held >= 8 {
        assert(before.subrange(0, 8) =~= frame.subrange(0, 8));
    }
    if upto < frame.len() {
        if upto >= 8 {
            assert(all.subrange(0, 8) =~= frame.subrange(0, 8));
        }
    } else {
        assert(all =~= frame);
    }
}

/// Collects one frame at a time from the pieces in which it arrives.
pub struct FrameReader {
    buffered: Vec<u8>,
}

impl View for FrameReader {
    type V = Seq<u8>;

    /// The bytes of the frame in progress that have arrived.
    closed spec fn view(&self) -> Seq<u8> {
        self.buffered@
    }
}

impl FrameReader {
    #[verifier::type_invariant]
    spec fn in_progress(&self) -> bool {
        missing(self.buffered@) > 0
    }

    /// A reader that has seen nothing.
    pub fn new() -> (reader: Self)
        ensures
            reader@ == Seq::<u8>::empty(),
    {
        FrameReader { buffered: Vec::new() }
    }

    /// The number of bytes to read next: at least one, and never beyond the
    /// end of the frame in progress.
    pub fn wanted(&self) -> (count: u64)
        ensures
            count == missing(self@),
            count > 0,
    {
        proof {
            use_type_invariant(self);
        }
        let held = self.buffered.len();
        if held < PREFIX_LEN {
            (PREFIX_LEN - held) as u64
        } else {
            let declared = prefix_value(self.buffered.as_slice());
            declared - (held - PREFIX_LEN) as u64
        }
    }

    /// Takes in the bytes that were read, which are no more than were
    /// wanted. Returns the payload when they complete a frame; the reader
    /// is then ready for the next one.
    pub fn push(&mut self, chunk: &[u8]) -> (payload: Option<Vec<u8>>)
        requires
            chunk@.len() <= missing(old(self)@),
        ensures
            (final(self)@, payload.deep_view()) == reader_step(old(self)@, chunk@),
    {
        proof {
            use_type_invariant(&*self);
        }
        let mut taken = FrameReader::new();
        core::mem::swap(self, &mut taken);
        let FrameReader { mut buffered } = taken;
        append_bytes(&mut buffered, chunk);
        let ghost all = buffered@;
        let held = buffered.len();
        proof {
            if old(self)@.len() >= 8 {
                assert(all.subrange(0, 8) =~= old(self)@.subrange(0, 8));
            }
        }
        if held >= PREFIX_LEN {
            let declared = prefix_value(buffered.as_slice());
            if declared == (held - PREFIX_LEN) as u64 {
                let payload = buffered.split_off(PREFIX_LEN);
                return Some(payload);
            }
        }
        *self = FrameReader { buffered };
        None
    }
}

/// What one attempt to read from a stream gave.
#[derive(Debug, Clone, Copy)]
pub enum ReadOutcome<'a> {
    /// The stream gave these bytes. No bytes at all mean that the peer has
    /// closed the stream.
    Bytes(&'a [u8]),
    /// Nothing is waiting, and to wait for more would block.
    WouldBlock,
    /// The read failed in any other way.
    Failed,
}

/// What the receiver does after an attempt to read.
#[derive(Debug, PartialEq, Eq)]
pub enum Progress {
    /// A frame is complete: this is its payload.
    Frame(Vec<u8>),
    /// The frame in progress needs more bytes, and more may be waiting:
    /// read again at once.
    ReadOn,
    /// No complete frame is to be had for now: come back later.
    Idle,
}

impl FrameReader {
    /// Takes in the outcome of one attempt to read.
    ///
    /// Bytes that complete a frame give its payload, and bytes that do not
    /// ask for another read. No frame is to be had for now where the read
    /// would block, and where the peer has closed the stream: both leave
    /// what has arrived of a frame in place. A read that failed otherwise
    /// is an `IOError`. More bytes than were wanted cannot be taken in:
    /// they are a `StateInvariantViolation` of the caller's.
    pub fn on_read(&mut self, outcome: ReadOutcome<'_>) -> (result: Result<Progress, SessionError>)
        ensures
            match outcome {
                ReadOutcome::Bytes(chunk) => if chunk@.len() == 0 {
                    final(self)@ == old(self)@ && result == Ok::<Progress, SessionError>(
                        Progress::Idle,
                    )
                } else if chunk@.len() > missing(old(self)@) {
                    final(self)@ == old(self)@ && result == Err::<Progress, SessionError>(
                        SessionError::StateInvariantViolation,
                    )
                } else {
                    &&& final(self)@ == reader_step(old(self)@, chunk@).0
                    &&& match reader_step(old(self)@, chunk@).1 {
                        Some(payload) => result matches Ok(Progress::Frame(found)) && found@
                            == payload,
                        None => result == Ok::<Progress, SessionError>(Progress::ReadOn),
                    }
                },
                ReadOutcome::WouldBlock => final(self)@ == old(self)@ && result == Ok::<
                    Progress,
                    SessionError,
                >(Progress::Idle),
                ReadOutcome::Failed => final(self)@ == old(self)@ && result == Err::<
                    Progress,
                    SessionError,
                >(SessionError::IOError),
            },
    {
        match outcome {
            ReadOutcome::Bytes(chunk) => {
                if chunk.len() == 0 {
                    Ok(Progress::Idle)
                } else if chunk.len() as u64 > self.wanted() {
                    Err(SessionError::StateInvariantViolation)
                } else {
                    match self.push(chunk) {
                        Some(payload) => Ok(Progress::Frame(payload)),
                        None => Ok(Progress::ReadOn),
                    }
                }
            },
            ReadOutcome::WouldBlock => Ok(Progress::Idle),
            ReadOutcome::Failed => Err(SessionError::IOError),
        }
    }
}

/// Writes one frame through a channel that may take only part of what it
/// is offered.
pub struct FrameWriter {
    frame: Vec<u8>,
    written: usize,
}

impl FrameWriter {
    #[verifier::type_invariant]
    spec fn in_range(&self) -> bool {
        self.written <= self.frame.len()
    }

    /// The whole frame.
    pub closed spec fn frame(&self) -> Seq<u8> {
        self.frame@
    }

    /// The number of bytes of the frame that the channel has taken.
    pub closed spec fn written(&self) -> int {
        self.written as int
    }

    /// A writer for the frame that carries `payload`, of which nothing is
    /// written yet.
    pub fn new(payload: &[u8]) -> (writer: Self)
        ensures
            writer.frame() == frame_of(payload@),
            writer.written() == 0,
    {
        FrameWriter { frame: encode_frame(payload), written: 0 }
    }

    /// Whether the whole frame is written.
    pub fn is_done(&self) -> (done: bool)
        ensures
            done == (self.written() == self.frame().len()),
            0 <= self.written() <= self.frame().len(),
    {
        proof {
            use_type_invariant(self);
        }
        self.written == self.frame.len()
    }

    /// The part of the frame that is still to be written.
    pub fn pending(&self) -> (rest: &[u8])
        ensures
            0 <= self.written() <= self.frame().len(),
            rest@ == self.frame().subrange(self.written(), self.frame().len() as int),
    {
        proof {
            use_type_invariant(self);
        }
        slice_subrange(self.frame.as_slice(), self.written, self.frame.len())
    }

    /// Records that the channel took the first `accepted` bytes of what
    /// was pending. Returns whether the frame is written whole.
    ///
    /// Fails with `IOError`, and records nothing, where the channel took
    /// nothing, or claims to have taken more than was pending: the frame
    /// cannot be completed.
    pub fn advance(&mut self, accepted: usize) -> (result: Result<bool, SessionError>)
        ensures
            final(self).frame() == old(self).frame(),
            0 < accepted <= old(self).frame().len() - old(self).written() ==> {
                &&& final(self).written() == old(self).written() + accepted
                &&& result == Ok::<bool, SessionError>(
                    final(self).written() == final(self).frame().len(),
                )
            },
            !(0 < accepted <= old(self).frame().len() - old(self).written()) ==> {
                &&& final(self).written() == old(self).written()
                &&& result == Err::<bool, SessionError>(SessionError::IOError)
            },
    {
        proof {
            use_type_invariant(&*self);
        }
        if accepted == 0 || accepted > self.frame.len() - self.written {
            return Err(SessionError::IOError);
        }
        self.written = self.written + accepted;
        Ok(self.written == self.frame.len())
    }
}

} // verus!
