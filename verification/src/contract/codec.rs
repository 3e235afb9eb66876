//! Frames: a length in four bytes, most significant first, and then so many bytes.

use vstd::prelude::*;
use vstd::string::*;

use crate::contract::envelope::{
    envelope_fault, envelope_valid, fault_text, json_members, Envelope, EnvelopeError,
};
use crate::decimal::{decimal, digits};

verus! {

broadcast use vstd::string::group_string_axioms;

/// The most bytes that a frame may carry.
pub const MAX_FRAME_BYTES: usize = 1_048_576;

#[derive(Clone, PartialEq, Eq, Debug)]
pub enum FrameError {
    TooLarge { actual: usize, maximum: usize },
    TruncatedHeader,
    TruncatedPayload { expected: usize, actual: usize },
    Io(String),
    Json(String),
    Envelope(EnvelopeError),
}

/// A number in four bytes, most significant first.
pub open spec fn big_endian(n: nat) -> Seq<u8> {
    seq![
        (n / 0x100_0000 % 0x100) as u8,
        (n / 0x1_0000 % 0x100) as u8,
        (n / 0x100 % 0x100) as u8,
        (n % 0x100) as u8,
    ]
}

/// The number that four bytes write, most significant first.
pub open spec fn from_big_endian(b: Seq<u8>) -> nat {
    (b[0] as nat) * 0x100_0000 + (b[1] as nat) * 0x1_0000 + (b[2] as nat) * 0x100 + (b[3] as nat)
}

/// The frame of a body.
pub open spec fn frame_of(body: Seq<u8>) -> Seq<u8> {
    big_endian(body.len()) + body
}

/// What a frame decodes to.
pub open spec fn frame_body(frame: Seq<u8>) -> Result<Seq<u8>, FrameError> {
    if frame.len() < 4 {
        Err(FrameError::TruncatedHeader)
    } else if from_big_endian(frame) > MAX_FRAME_BYTES {
        Err(
            FrameError::TooLarge {
                actual: from_big_endian(frame) as usize,
                maximum: MAX_FRAME_BYTES,
            },
        )
    } else if frame.len() - 4 != from_big_endian(frame) {
        Err(
            FrameError::TruncatedPayload {
                expected: from_big_endian(frame) as usize,
                actual: (frame.len() - 4) as usize,
            },
        )
    } else {
        Ok(frame.skip(4))
    }
}

/// Reads the length that a frame's header announces, and refuses one over the limit
/// before anything else is read.
pub fn payload_length(header: &[u8]) -> (result: Result<usize, FrameError>)
    ensures
        match result {
            Ok(length) => header@.len() >= 4 && length == from_big_endian(header@) && length
                <= MAX_FRAME_BYTES,
            Err(error) => if header@.len() < 4 {
                error == FrameError::TruncatedHeader
            } else {
                from_big_endian(header@) > MAX_FRAME_BYTES && error == (FrameError::TooLarge {
                    actual: from_big_endian(header@) as usize,
                    maximum: MAX_FRAME_BYTES,
                })
            },
        },
{
    if header.len() < 4 {
        return Err(FrameError::TruncatedHeader);
    }
    let length: u32 = (header[0] as u32) * 0x100_0000 + (header[1] as u32) * 0x1_0000 + (
    header[2] as u32) * 0x100 + (header[3] as u32);
    let length: usize = length as usize;
    if length > MAX_FRAME_BYTES {
        return Err(FrameError::TooLarge { actual: length, maximum: MAX_FRAME_BYTES });
    }
    Ok(length)
}

/// Puts a body into a frame, unless it exceeds the limit.
pub fn frame_payload(body: &[u8]) -> (result: Result<Vec<u8>, FrameError>)
    ensures
        match result {
            Ok(frame) => body@.len() <= MAX_FRAME_BYTES && frame@ == frame_of(body@),
            Err(error) => body@.len() > MAX_FRAME_BYTES && error == (FrameError::TooLarge {
                actual: body@.len() as usize,
                maximum: MAX_FRAME_BYTES,
            }),
        },
{
    let size: usize = body.len();
    if size > MAX_FRAME_BYTES {
        return Err(FrameError::TooLarge { actual: size, maximum: MAX_FRAME_BYTES });
    }
    let mut frame: Vec<u8> = Vec::new();
    frame.push((size / 0x100_0000 % 0x100) as u8);
    frame.push((size / 0x1_0000 % 0x100) as u8);
    frame.push((size / 0x100 % 0x100) as u8);
    frame.push((size % 0x100) as u8);
    assert(frame@ =~= big_endian(body@.len()));
    frame.extend_from_slice(body);
    assert(frame@ =~= frame_of(body@));
    Ok(frame)
}

/// Puts an envelope, serialised to `body`, into a frame: refused where the envelope is
/// not valid or the body too large.
pub fn encode_frame(envelope: &Envelope, body: &[u8]) -> (result: Result<Vec<u8>, FrameError>)
    ensures
        match result {
            Ok(frame) => envelope_valid(*envelope) && body@.len() <= MAX_FRAME_BYTES && frame@
                == frame_of(body@),
            Err(error) => match envelope_fault(*envelope, json_members(envelope.payload@)) {
                Some(fault) => error == FrameError::Envelope(fault),
                None => body@.len() > MAX_FRAME_BYTES && error == (FrameError::TooLarge {
                    actual: body@.len() as usize,
                    maximum: MAX_FRAME_BYTES,
                }),
            },
        },
{
    match envelope.validate() {
        Ok(()) => frame_payload(body),
        Err(fault) => Err(FrameError::Envelope(fault)),
    }
}

/// Takes the body out of a frame.
pub fn decode_frame(frame: &[u8]) -> (result: Result<Vec<u8>, FrameError>)
    ensures
        match result {
            Ok(body) => frame_body(frame@) == Ok::<Seq<u8>, FrameError>(body@),
            Err(error) => frame_body(frame@) == Err::<Seq<u8>, FrameError>(error),
        },
{
    let length: usize = match payload_length(frame) {
        Ok(length) => length,
        Err(error) => {
            return Err(error);
        },
    };
    let actual: usize = frame.len() - 4;
    if actual != length {
        return Err(FrameError::TruncatedPayload { expected: length, actual });
    }
    let mut body: Vec<u8> = Vec::new();
    let mut i: usize = 4;
    while i < frame.len()
        invariant
            4 <= i <= frame@.len(),
            body@ == frame@.subrange(4, i as int),
        decreases frame@.len() - i,
    {
        body.push(frame[i]);
        i += 1;
        assert(body@ =~= frame@.subrange(4, i as int));
    }
    assert(body@ =~= frame@.skip(4));
    Ok(body)
}

/// Lets a decoded envelope in if it is valid.
pub fn accept_envelope(envelope: Envelope) -> (result: Result<Envelope, FrameError>)
    ensures
        match result {
            Ok(accepted) => accepted == envelope && envelope_valid(envelope),
            Err(error) => match envelope_fault(envelope, json_members(envelope.payload@)) {
                Some(fault) => error == FrameError::Envelope(fault),
                None => false,
            },
        },
{
    match envelope.validate() {
        Ok(()) => Ok(envelope),
        Err(fault) => Err(FrameError::Envelope(fault)),
    }
}

impl FrameError {
    /// What the error says to a reader.
    pub fn message(&self) -> (result: String)
        ensures
            match *self {
                FrameError::TooLarge { actual, maximum } => result@ == "frame payload is "@
                    + digits(actual as nat) + " bytes; maximum is "@ + digits(maximum as nat),
                FrameError::TruncatedHeader => result@ == "truncated frame header"@,
                FrameError::TruncatedPayload { expected, actual } => result@
                    == "truncated frame payload: expected "@ + digits(expected as nat)
                    + " bytes, got "@ + digits(actual as nat),
                FrameError::Io(reason) => result@ == "frame I/O failed: "@ + reason@,
                FrameError::Json(reason) => result@ == "frame JSON is invalid: "@ + reason@,
                FrameError::Envelope(fault) => result@ == "invalid protocol envelope: "@
                    + fault_text(fault),
            },
    {
        match self {
            FrameError::TooLarge { actual, maximum } => {
                let mut text = String::from_str("frame payload is ");
                text.append(decimal(*actual as u64).as_str());
                text.append(" bytes; maximum is ");
                text.append(decimal(*maximum as u64).as_str());
                text
            },
            FrameError::TruncatedHeader => String::from_str("truncated frame header"),
            FrameError::TruncatedPayload { expected, actual } => {
                let mut text = String::from_str("truncated frame payload: expected ");
                text.append(decimal(*expected as u64).as_str());
                text.append(" bytes, got ");
                text.append(decimal(*actual as u64).as_str());
                text
            },
            FrameError::Io(reason) => {
                let mut text = String::from_str("frame I/O failed: ");
                text.append(reason.as_str());
                text
            },
            FrameError::Json(reason) => {
                let mut text = String::from_str("frame JSON is invalid: ");
                text.append(reason.as_str());
                text
            },
            FrameError::Envelope(fault) => {
                let mut text = String::from_str("invalid protocol envelope: ");
                text.append(fault.message().as_str());
                text
            },
        }
    }
}

/// Four bytes give back the number that was written in them.
pub proof fn big_endian_reads_back(n: nat)
    requires
        n < 0x1_0000_0000,
    ensures
        from_big_endian(big_endian(n)) == n,
{
    let b = big_endian(n);
    assert(n / 0x100_0000 % 0x100 == n / 0x100_0000);
    assert(n == (n / 0x100_0000) * 0x100_0000 + (n / 0x1_0000 % 0x100) * 0x1_0000 + (n / 0x100
        % 0x100) * 0x100 + n % 0x100);
}

/// Decoding a frame gives back the body that was put into it.
pub proof fn decoding_undoes_framing(body: Seq<u8>)
    requires
        body.len() <= MAX_FRAME_BYTES,
    ensures
        frame_body(frame_of(body)) == Ok::<Seq<u8>, FrameError>(body),
{
    big_endian_reads_back(body.len());
    assert(from_big_endian(frame_of(body)) == from_big_endian(big_endian(body.len())));
    assert(frame_of(body).skip(4) =~= body);
}

/// A frame cut short or with bytes added is refused.
pub proof fn only_whole_frames_decode(body: Seq<u8>, frame: Seq<u8>)
    requires
        body.len() <= MAX_FRAME_BYTES,
        frame.len() >= 4,
        frame.take(4) == frame_of(body).take(4),
        frame.len() != frame_of(body).len(),
    ensures
        frame_body(frame) is Err,
{
    big_endian_reads_back(body.len());
    assert(from_big_endian(frame) == from_big_endian(frame.take(4)));
    assert(from_big_endian(frame_of(body)) == from_big_endian(frame_of(body).take(4)));
    assert(from_big_endian(frame_of(body)) == from_big_endian(big_endian(body.len())));
}

} // verus!
