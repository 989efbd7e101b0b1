use vstd::prelude::*;
use crate::bytes::{append_bytes, be32_bytes, be32_value, copy_range, lemma_be32_round_trip, u32_from_be, u32_to_be};
use crate::error::ProtocolError;

verus! {

pub const PROTOCOL_VERSION: u8 = 2;

pub const MAX_KNOCK_SIZE: usize = 2 * 1024;
pub const MAX_WELCOME_SIZE: usize = 2 * 1024;
pub const MAX_WISH_SIZE: usize = 200 * 1024;
pub const MAX_GRANT_SIZE: usize = 20 * 1024;
pub const MAX_WRAP_SIZE: usize = 2 * 1024;
pub const MAX_GIFT_SIZE: usize = 20 * 1024 * 1024;
pub const MAX_THANK_SIZE: usize = 4 * 1024;

/// Bytes in front of a frame's payload: the length and the version.
pub const FRAME_HEADER_LEN: usize = 5;

/// The typed kinds of message, in the order a session exchanges them.
#[derive(Debug, PartialEq, Eq, Clone, Copy, Structural)]
pub enum Stage {
    Knock,
    Welcome,
    Wish,
    Grant,
    Wrap,
    Gift,
    Thank,
    Error,
}

impl Stage {
    /// The tag of a stage on the wire.
    pub open spec fn code(self) -> u8 {
        match self {
            Stage::Knock => 1,
            Stage::Welcome => 2,
            Stage::Wish => 3,
            Stage::Grant => 4,
            Stage::Wrap => 5,
            Stage::Gift => 6,
            Stage::Thank => 7,
            Stage::Error => 255,
        }
    }

    /// The stage that a tag names, if any.
    pub open spec fn of_code(value: u8) -> Option<Stage> {
        if value == 1 {
            Some(Stage::Knock)
        } else if value == 2 {
            Some(Stage::Welcome)
        } else if value == 3 {
            Some(Stage::Wish)
        } else if value == 4 {
            Some(Stage::Grant)
        } else if value == 5 {
            Some(Stage::Wrap)
        } else if value == 6 {
            Some(Stage::Gift)
        } else if value == 7 {
            Some(Stage::Thank)
        } else if value == 255 {
            Some(Stage::Error)
        } else {
            None
        }
    }

    /// The largest encoded message of this stage; an error frame shares the
    /// limit of a thank-you.
    pub open spec fn limit(self) -> usize {
        match self {
            Stage::Knock => MAX_KNOCK_SIZE,
            Stage::Welcome => MAX_WELCOME_SIZE,
            Stage::Wish => MAX_WISH_SIZE,
            Stage::Grant => MAX_GRANT_SIZE,
            Stage::Wrap => MAX_WRAP_SIZE,
            Stage::Gift => MAX_GIFT_SIZE,
            Stage::Thank => MAX_THANK_SIZE,
            Stage::Error => MAX_THANK_SIZE,
        }
    }

    pub fn from_u8(value: u8) -> (r: Result<Stage, ProtocolError>)
        ensures
            r == (match Stage::of_code(value) {
                Some(s) => Ok(s),
                None => Err(ProtocolError::UnknownStage),
            }),
    {
        match value {
            1 => Ok(Stage::Knock),
            2 => Ok(Stage::Welcome),
            3 => Ok(Stage::Wish),
            4 => Ok(Stage::Grant),
            5 => Ok(Stage::Wrap),
            6 => Ok(Stage::Gift),
            7 => Ok(Stage::Thank),
            255 => Ok(Stage::Error),
            _ => Err(ProtocolError::UnknownStage),
        }
    }

    pub fn to_u8(&self) -> (r: u8)
        ensures
            r == self.code(),
            Stage::of_code(r) == Some(*self),
    {
        match self {
            Stage::Knock => 1,
            Stage::Welcome => 2,
            Stage::Wish => 3,
            Stage::Grant => 4,
            Stage::Wrap => 5,
            Stage::Gift => 6,
            Stage::Thank => 7,
            Stage::Error => 255,
        }
    }

    pub fn max_size(&self) -> (r: usize)
        ensures
            r == self.limit(),
    {
        match self {
            Stage::Knock => MAX_KNOCK_SIZE,
            Stage::Welcome => MAX_WELCOME_SIZE,
            Stage::Wish => MAX_WISH_SIZE,
            Stage::Grant => MAX_GRANT_SIZE,
            Stage::Wrap => MAX_WRAP_SIZE,
            Stage::Gift => MAX_GIFT_SIZE,
            Stage::Thank => MAX_THANK_SIZE,
            Stage::Error => MAX_THANK_SIZE,
        }
    }
}

/// The verdict on an encoded message of `size` bytes that claims stage
/// `stage`: only the seven exchange stages have a limit.
pub open spec fn size_verdict(stage: u8, size: int) -> Result<(), ProtocolError> {
    match Stage::of_code(stage) {
        Some(s) => if s == Stage::Error {
            Err(ProtocolError::UnknownStage)
        } else if size > s.limit() {
            Err(ProtocolError::SizeViolation)
        } else {
            Ok(())
        },
        None => Err(ProtocolError::UnknownStage),
    }
}

pub fn validate_size(stage: u8, size: usize) -> (r: Result<(), ProtocolError>)
    ensures
        r == size_verdict(stage, size as int),
{
    let limit = match stage {
        1 => MAX_KNOCK_SIZE,
        2 => MAX_WELCOME_SIZE,
        3 => MAX_WISH_SIZE,
        4 => MAX_GRANT_SIZE,
        5 => MAX_WRAP_SIZE,
        6 => MAX_GIFT_SIZE,
        7 => MAX_THANK_SIZE,
        _ => {
            return Err(ProtocolError::UnknownStage);
        },
    };
    if size > limit {
        return Err(ProtocolError::SizeViolation);
    }
    Ok(())
}

/// Associated data of a sealed frame: the version, then the sender's and the
/// recipient's ids as UTF-8.
pub open spec fn aad_spec(version: u8, from: Seq<char>, to: Seq<char>) -> Seq<u8> {
    seq![version] + vstd::utf8::encode_utf8(from) + vstd::utf8::encode_utf8(to)
}

pub fn build_aad(version: u8, from: &str, to: &str) -> (r: Vec<u8>)
    ensures
        r@ == aad_spec(version, from@, to@),
{
    let mut aad = vec![version];
    let fb = from.as_bytes();
    let tb = to.as_bytes();
    append_bytes(&mut aad, fb);
    append_bytes(&mut aad, tb);
    assert(aad@ =~= aad_spec(version, from@, to@));
    aad
}

/// The frame that carries `data`: its length plus one as four big-endian
/// bytes, the version, then the data.
pub open spec fn frame_spec(data: Seq<u8>) -> Seq<u8> {
    be32_bytes((data.len() + 1) as u32) + seq![PROTOCOL_VERSION] + data
}

/// What a frame's length field says of its payload: a length of zero is
/// malformed, one beyond the largest stage is too large.
pub open spec fn payload_len_verdict(len: int) -> Result<usize, ProtocolError> {
    if len > MAX_GIFT_SIZE + 1 {
        Err(ProtocolError::FrameTooLarge)
    } else if len == 0 {
        Err(ProtocolError::DecodeError)
    } else {
        Ok((len - 1) as usize)
    }
}

/// The payload of the frame that `bytes` holds, with nothing after it.
pub open spec fn decode_frame_spec(bytes: Seq<u8>) -> Result<Seq<u8>, ProtocolError> {
    if bytes.len() < FRAME_HEADER_LEN {
        Err(ProtocolError::ShortRead)
    } else {
        match payload_len_verdict(be32_value(bytes.subrange(0, 4))) {
            Err(e) => Err(e),
            Ok(n) => if bytes[4] != PROTOCOL_VERSION {
                Err(ProtocolError::VersionMismatch)
            } else if bytes.len() < FRAME_HEADER_LEN + n {
                Err(ProtocolError::ShortRead)
            } else if bytes.len() > FRAME_HEADER_LEN + n {
                Err(ProtocolError::DecodeError)
            } else {
                Ok(bytes.subrange(FRAME_HEADER_LEN as int, bytes.len() as int))
            },
        }
    }
}

/// Frames `data` for the wire; data beyond the largest stage is refused.
pub fn encode_frame(data: &[u8]) -> (r: Result<Vec<u8>, ProtocolError>)
    ensures
        data@.len() > MAX_GIFT_SIZE ==> r == Err::<Vec<u8>, ProtocolError>(ProtocolError::FrameTooLarge),
        data@.len() <= MAX_GIFT_SIZE ==> (r matches Ok(f) && f@ == frame_spec(data@)),
{
    if data.len() > MAX_GIFT_SIZE {
        return Err(ProtocolError::FrameTooLarge);
    }
    let len_bytes = u32_to_be((data.len() + 1) as u32);
    let mut frame: Vec<u8> = Vec::new();
    append_bytes(&mut frame, &len_bytes);
    frame.push(PROTOCOL_VERSION);
    append_bytes(&mut frame, data);
    assert(frame@ =~= frame_spec(data@));
    Ok(frame)
}

/// Reads a frame's length field: the number of payload bytes that follow
/// the version byte.
pub fn frame_payload_len(len_bytes: [u8; 4]) -> (r: Result<usize, ProtocolError>)
    ensures
        r == payload_len_verdict(be32_value(len_bytes@)),
{
    let len = u32_from_be(&len_bytes, 0);
    assert(len_bytes@.subrange(0, 4) =~= len_bytes@);
    if len as usize > MAX_GIFT_SIZE + 1 {
        return Err(ProtocolError::FrameTooLarge);
    }
    if len == 0 {
        return Err(ProtocolError::DecodeError);
    }
    Ok((len - 1) as usize)
}

/// Checks a frame's version byte.
pub fn check_version(version: u8) -> (r: Result<(), ProtocolError>)
    ensures
        r is Ok <==> version == PROTOCOL_VERSION,
        r is Err ==> r == Err::<(), ProtocolError>(ProtocolError::VersionMismatch),
{
    if version != PROTOCOL_VERSION {
        return Err(ProtocolError::VersionMismatch);
    }
    Ok(())
}

/// Relies on std's `SystemTime::elapsed` from `UNIX_EPOCH`: the whole
/// seconds since the epoch, or nothing for a clock set before it.
#[verifier::external_body]
fn unix_seconds() -> (r: Option<u64>) {
    std::time::UNIX_EPOCH.elapsed().ok().map(|d| d.as_secs())
}

/// Seconds since the epoch as a 32-bit timestamp, or 0 for a clock set
/// before the epoch.
pub fn current_timestamp() -> (r: u32) {
    match unix_seconds() {
        Some(s) => s as u32,
        None => 0,
    }
}

/// The payload of the single frame held in `bytes`.
pub fn decode_frame(bytes: &[u8]) -> (r: Result<Vec<u8>, ProtocolError>)
    ensures
        match decode_frame_spec(bytes@) {
            Ok(p) => r matches Ok(v) && v@ == p,
            Err(e) => r == Err::<Vec<u8>, ProtocolError>(e),
        },
{
    if bytes.len() < FRAME_HEADER_LEN {
        return Err(ProtocolError::ShortRead);
    }
    let len_bytes = [bytes[0], bytes[1], bytes[2], bytes[3]];
    assert(len_bytes@ =~= bytes@.subrange(0, 4));
    let n = frame_payload_len(len_bytes)?;
    check_version(bytes[4])?;
    if bytes.len() - FRAME_HEADER_LEN < n {
        return Err(ProtocolError::ShortRead);
    }
    if bytes.len() - FRAME_HEADER_LEN > n {
        return Err(ProtocolError::DecodeError);
    }
    Ok(copy_range(bytes, FRAME_HEADER_LEN, bytes.len()))
}

/// Framing and unframing give the data back.
pub proof fn lemma_frame_round_trip(data: Seq<u8>)
    requires
        data.len() <= MAX_GIFT_SIZE,
    ensures
        decode_frame_spec(frame_spec(data)) == Ok::<Seq<u8>, ProtocolError>(data),
{
    let f = frame_spec(data);
    lemma_be32_round_trip((data.len() + 1) as u32);
    assert(f.subrange(0, 4) =~= be32_bytes((data.len() + 1) as u32));
    assert(f.subrange(FRAME_HEADER_LEN as int, f.len() as int) =~= data);
}

/// A frame whose version byte was changed is refused as another version,
/// whatever it carries.
pub proof fn lemma_frame_version_bound(data: Seq<u8>, version: u8)
    requires
        data.len() <= MAX_GIFT_SIZE,
        version != PROTOCOL_VERSION,
    ensures
        decode_frame_spec(frame_spec(data).update(4, version))
            == Err::<Seq<u8>, ProtocolError>(ProtocolError::VersionMismatch),
{
    let f = frame_spec(data).update(4, version);
    lemma_be32_round_trip((data.len() + 1) as u32);
    assert(f.subrange(0, 4) =~= be32_bytes((data.len() + 1) as u32));
}

} // verus!
