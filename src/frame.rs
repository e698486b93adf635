use vstd::prelude::*;
use vstd::slice::slice_subrange;
use crate::checksum::{crc_ccitt, frame_checksum};
use crate::constants::{ESCAPE_BYTE, FLAG_BYTE};
use crate::escaping::{escape_reserved_bytes, stuffed, unescape_byte, unstuffed, is_reserved_byte};
use crate::frame_number::FrameNumber;
use crate::randomizer::{randomize_data, randomized};

verus! {

/// The mathematical value of a frame: frame numbers as their values, the body
/// as a sequence of bytes.
pub enum FrameModel {
    Data { frm_num: u8, re_tx: bool, ack_num: u8, body: Seq<u8> },
    Ack { res: bool, n_rdy: bool, ack_num: u8 },
    Nak { res: bool, n_rdy: bool, ack_num: u8 },
    Rst,
    RstAck { version: u8, code: u8 },
    Error { version: u8, code: u8 },
}

/// The mathematical value of a decoding error.
pub enum ErrorModel {
    InvalidChecksum(FrameModel),
    InvalidDataField(FrameModel),
    UnknownFrame,
}

/// One of the six ASH frames.
#[derive(Clone, Debug)]
pub enum Frame {
    Data { frm_num: FrameNumber, re_tx: bool, ack_num: FrameNumber, body: Vec<u8> },
    Ack { res: bool, n_rdy: bool, ack_num: FrameNumber },
    Nak { res: bool, n_rdy: bool, ack_num: FrameNumber },
    Rst,
    RstAck { version: u8, code: u8 },
    Error { version: u8, code: u8 },
}

/// What can go wrong when a frame is decoded. The frame of the first two
/// variants holds the control byte's fields, with an empty body and zero
/// version and code.
#[derive(Clone, Debug)]
pub enum Error {
    InvalidChecksum(Frame),
    InvalidDataField(Frame),
    UnknownFrame,
}

/// A frame that could not be read, with the number of bytes it took
/// (through its FLAG, or all of the input for an unknown control byte
/// without one).
#[derive(Clone, Debug)]
pub struct ParseError {
    pub consumed: usize,
    pub error: Error,
}

impl ParseError {
    pub fn new(consumed: usize, error: Error) -> (r: ParseError)
        ensures
            r.consumed == consumed,
            r.error == error,
    {
        ParseError { consumed, error }
    }

    pub fn into_inner(self) -> (r: (usize, Error))
        ensures
            r == (self.consumed, self.error),
    {
        (self.consumed, self.error)
    }
}

impl View for Frame {
    type V = FrameModel;

    open spec fn view(&self) -> FrameModel {
        match self {
            Frame::Data { frm_num, re_tx, ack_num, body } => FrameModel::Data {
                frm_num: frm_num@,
                re_tx: *re_tx,
                ack_num: ack_num@,
                body: body@,
            },
            Frame::Ack { res, n_rdy, ack_num } => FrameModel::Ack {
                res: *res,
                n_rdy: *n_rdy,
                ack_num: ack_num@,
            },
            Frame::Nak { res, n_rdy, ack_num } => FrameModel::Nak {
                res: *res,
                n_rdy: *n_rdy,
                ack_num: ack_num@,
            },
            Frame::Rst => FrameModel::Rst,
            Frame::RstAck { version, code } => FrameModel::RstAck { version: *version, code: *code },
            Frame::Error { version, code } => FrameModel::Error { version: *version, code: *code },
        }
    }
}

impl View for Error {
    type V = ErrorModel;

    open spec fn view(&self) -> ErrorModel {
        match self {
            Error::InvalidChecksum(f) => ErrorModel::InvalidChecksum(f@),
            Error::InvalidDataField(f) => ErrorModel::InvalidDataField(f@),
            Error::UnknownFrame => ErrorModel::UnknownFrame,
        }
    }
}

/// The value of a decoding result.
pub open spec fn result_view(r: Result<Frame, Error>) -> Result<FrameModel, ErrorModel> {
    match r {
        Ok(f) => Ok(f@),
        Err(e) => Err(e@),
    }
}

pub open spec fn bit(b: bool, weight: u8) -> u8 {
    if b {
        weight
    } else {
        0
    }
}

/// Frame numbers fit in three bits and a DATA body holds 3 to 128 bytes.
pub open spec fn frame_wf(f: FrameModel) -> bool {
    match f {
        FrameModel::Data { frm_num, ack_num, body, .. } => frm_num < 8 && ack_num < 8 && 3
            <= body.len() <= 128,
        FrameModel::Ack { ack_num, .. } => ack_num < 8,
        FrameModel::Nak { ack_num, .. } => ack_num < 8,
        _ => true,
    }
}

/// The control byte: `0 frm_num:3 re_tx:1 ack_num:3` for DATA,
/// `100 res n_rdy ack_num:3` for ACK, `101 res n_rdy ack_num:3` for NAK, and
/// 0xC0, 0xC1, 0xC2 for RST, RSTACK and ERROR.
pub open spec fn control_byte(f: FrameModel) -> u8 {
    match f {
        FrameModel::Data { frm_num, re_tx, ack_num, .. } => (frm_num * 16 + bit(re_tx, 8)
            + ack_num) as u8,
        FrameModel::Ack { res, n_rdy, ack_num } => (0x80 + bit(res, 16) + bit(n_rdy, 8)
            + ack_num) as u8,
        FrameModel::Nak { res, n_rdy, ack_num } => (0xA0 + bit(res, 16) + bit(n_rdy, 8)
            + ack_num) as u8,
        FrameModel::Rst => 0xC0,
        FrameModel::RstAck { .. } => 0xC1,
        FrameModel::Error { .. } => 0xC2,
    }
}

/// The bytes between the control byte and the checksum: the masked body for
/// DATA, version and code for RSTACK and ERROR, nothing for the others.
pub open spec fn payload(f: FrameModel) -> Seq<u8> {
    match f {
        FrameModel::Data { body, .. } => randomized(body),
        FrameModel::RstAck { version, code } => seq![version, code],
        FrameModel::Error { version, code } => seq![version, code],
        _ => Seq::empty(),
    }
}

/// Control byte and payload: the bytes the checksum covers.
pub open spec fn raw_frame(f: FrameModel) -> Seq<u8> {
    seq![control_byte(f)] + payload(f)
}

/// `r` followed by its checksum, high byte first.
pub open spec fn with_checksum(r: Seq<u8>) -> Seq<u8> {
    r + seq![(crc_ccitt(r) / 256) as u8, (crc_ccitt(r) % 256) as u8]
}

/// The complete wire form of a frame: stuffed bytes, then FLAG.
pub open spec fn encoded(f: FrameModel) -> Seq<u8> {
    stuffed(with_checksum(raw_frame(f))) + seq![FLAG_BYTE]
}

/// The frame that a control byte announces, with an empty body and zero
/// version and code; `None` for a control byte of no frame.
pub open spec fn header_of(c: u8) -> Option<FrameModel> {
    if c < 0x80 {
        Some(
            FrameModel::Data {
                frm_num: (c / 16) as u8,
                re_tx: (c / 8) % 2 == 1,
                ack_num: (c % 8) as u8,
                body: Seq::empty(),
            },
        )
    } else if c < 0xA0 {
        Some(FrameModel::Ack { res: (c / 16) % 2 == 1, n_rdy: (c / 8) % 2 == 1, ack_num: (c % 8) as u8 })
    } else if c < 0xC0 {
        Some(FrameModel::Nak { res: (c / 16) % 2 == 1, n_rdy: (c / 8) % 2 == 1, ack_num: (c % 8) as u8 })
    } else if c == 0xC0 {
        Some(FrameModel::Rst)
    } else if c == 0xC1 {
        Some(FrameModel::RstAck { version: 0, code: 0 })
    } else if c == 0xC2 {
        Some(FrameModel::Error { version: 0, code: 0 })
    } else {
        None
    }
}

/// Whether `n` bytes after the control byte (payload and checksum) suit the
/// frame: 5 to 130 for DATA, 4 for RSTACK and ERROR, 2 for the others.
pub open spec fn data_field_ok(h: FrameModel, n: int) -> bool {
    match h {
        FrameModel::Data { .. } => 5 <= n <= 130,
        FrameModel::RstAck { .. } => n == 4,
        FrameModel::Error { .. } => n == 4,
        _ => n == 2,
    }
}

/// The checksum carried in the last two bytes of `u`, high byte first.
pub open spec fn carried_checksum(u: Seq<u8>) -> int {
    u[u.len() - 2] * 256 + u[u.len() - 1]
}

/// The frame whose unstuffed bytes (control byte, payload, checksum) are `u`.
pub open spec fn frame_of(u: Seq<u8>) -> Result<FrameModel, ErrorModel> {
    if u.len() == 0 {
        Err(ErrorModel::UnknownFrame)
    } else {
        match header_of(u[0]) {
            None => Err(ErrorModel::UnknownFrame),
            Some(h) => if !data_field_ok(h, u.len() - 1) {
                Err(ErrorModel::InvalidDataField(h))
            } else if crc_ccitt(u.take(u.len() - 2)) != carried_checksum(u) {
                Err(ErrorModel::InvalidChecksum(h))
            } else {
                Ok(
                    match h {
                        FrameModel::Data { frm_num, re_tx, ack_num, .. } => FrameModel::Data {
                            frm_num,
                            re_tx,
                            ack_num,
                            body: randomized(u.subrange(1, u.len() - 2)),
                        },
                        FrameModel::RstAck { .. } => FrameModel::RstAck { version: u[1], code: u[2] },
                        FrameModel::Error { .. } => FrameModel::Error { version: u[1], code: u[2] },
                        _ => h,
                    },
                )
            }
        }
    }
}

/// The index of the first FLAG in `s`, or -1 where there is none.
pub open spec fn first_flag(s: Seq<u8>) -> int
    decreases s.len(),
{
    if s.len() == 0 {
        -1
    } else if s[0] == FLAG_BYTE {
        0
    } else {
        let r = first_flag(s.skip(1));
        if r < 0 {
            -1
        } else {
            r + 1
        }
    }
}

/// The outcome of parsing the start of a buffer.
pub enum ParseModel {
    /// No FLAG yet: more bytes are needed.
    Incomplete,
    /// `consumed` bytes (through the FLAG) make up one frame or one bad frame.
    Complete { consumed: nat, result: Result<FrameModel, ErrorModel> },
}

/// A byte that no control byte pattern matches.
pub open spec fn is_unknown_control(c: u8) -> bool {
    header_of(c) is None
}

/// Parsing the frame at the start of `s`: the bytes up to the first FLAG are
/// unstuffed and read as one frame; without a FLAG the answer is "incomplete",
/// unless the first byte is already no control byte, in which case all of `s`
/// is consumed as an unknown frame.
pub open spec fn parse_model(s: Seq<u8>) -> ParseModel {
    let p = first_flag(s);
    if s.len() == 0 {
        ParseModel::Incomplete
    } else if p < 0 {
        if is_unknown_control(s[0]) {
            ParseModel::Complete { consumed: s.len(), result: Err(ErrorModel::UnknownFrame) }
        } else {
            ParseModel::Incomplete
        }
    } else {
        ParseModel::Complete { consumed: (p + 1) as nat, result: frame_of(unstuffed(s.take(p))) }
    }
}

/// `first_flag` is the position of the first FLAG.
pub proof fn lemma_first_flag(s: Seq<u8>, i: int)
    requires
        0 <= i <= s.len(),
        forall|j: int| 0 <= j < i ==> s[j] != FLAG_BYTE,
        i < s.len() ==> s[i] == FLAG_BYTE,
    ensures
        first_flag(s) == (if i < s.len() {
            i
        } else {
            -1
        }),
    decreases i,
{
    if i > 0 {
        let t = s.skip(1);
        assert forall|j: int| 0 <= j < i - 1 implies t[j] != FLAG_BYTE by {
            assert(t[j] == s[j + 1]);
        }
        lemma_first_flag(t, i - 1);
    }
}

/// Finds the first FLAG at or after `from`.
pub fn find_flag(input: &[u8], from: usize) -> (r: Option<usize>)
    requires
        from <= input.len(),
    ensures
        r matches Some(i) ==> from <= i < input.len() && input[i as int] == FLAG_BYTE,
        forall|j: int|
            from <= j < (match r {
                Some(i) => i as int,
                None => input.len() as int,
            }) ==> input[j] != FLAG_BYTE,
{
    let mut i = from;
    while i < input.len()
        invariant
            from <= i <= input.len(),
            forall|j: int| from <= j < i ==> input[j] != FLAG_BYTE,
        decreases input.len() - i,
    {
        if input[i] == FLAG_BYTE {
            return Some(i);
        }
        i += 1;
    }
    None
}

/// Unstuffs `input[..end]`.
fn unstuff_prefix(input: &[u8], end: usize) -> (r: Vec<u8>)
    requires
        end <= input.len(),
    ensures
        r@ == unstuffed(input@.take(end as int)),
{
    let ghost s = input@.take(end as int);
    let mut out: Vec<u8> = Vec::new();
    let mut i: usize = 0;
    assert(s.skip(0) =~= s);
    while i < end
        invariant
            i <= end,
            end <= input.len(),
            s == input@.take(end as int),
            out@ + unstuffed(s.skip(i as int)) == unstuffed(s),
        decreases end - i,
    {
        let b = input[i];
        let ghost rest = s.skip(i as int);
        if b == ESCAPE_BYTE && i + 1 < end {
            let c = input[i + 1];
            proof {
                assert(rest.skip(2) =~= s.skip(i + 2));
                assert(unstuffed(rest) == seq![unescape_byte(c)] + unstuffed(s.skip(i + 2)));
            }
            if is_reserved_byte(c) {
                out.push(c);
            } else {
                out.push(c ^ 0x20);
            }
            proof {
                assert(out@ + unstuffed(s.skip(i + 2)) =~= unstuffed(s));
            }
            i += 2;
        } else {
            proof {
                assert(rest.skip(1) =~= s.skip(i + 1));
                assert(unstuffed(rest) == seq![b] + unstuffed(s.skip(i + 1)));
            }
            out.push(b);
            proof {
                assert(out@ + unstuffed(s.skip(i + 1)) =~= unstuffed(s));
            }
            i += 1;
        }
    }
    proof {
        assert(s.skip(i as int) =~= Seq::<u8>::empty());
        assert(out@ + unstuffed(Seq::<u8>::empty()) =~= out@);
    }
    out
}

/// Reads the bytes up to the first FLAG, unstuffed, and how many bytes that
/// took with the FLAG; `None` where there is no FLAG yet.
pub fn frame_data_and_flag(input: &[u8]) -> (r: Option<(usize, Vec<u8>)>)
    ensures
        r is None <==> first_flag(input@) < 0,
        r matches Some((n, d)) ==> n == first_flag(input@) + 1 && d@ == unstuffed(
            input@.take(n - 1),
        ),
{
    match find_flag(input, 0) {
        None => {
            proof {
                lemma_first_flag(input@, input@.len() as int);
            }
            None
        },
        Some(p) => {
            proof {
                lemma_first_flag(input@, p as int);
            }
            Some((p + 1, unstuff_prefix(input, p)))
        },
    }
}

/// The frame announced by a control byte, with an empty body and zero version
/// and code.
fn header_from_control(c: u8) -> (r: Option<Frame>)
    ensures
        match r {
            Some(f) => header_of(c) == Some(f@),
            None => header_of(c) is None,
        },
{
    if c < 0x80 {
        Some(
            Frame::Data {
                frm_num: FrameNumber::new_truncate(c / 16),
                re_tx: (c / 8) % 2 == 1,
                ack_num: FrameNumber::new_truncate(c),
                body: Vec::new(),
            },
        )
    } else if c < 0xA0 {
        Some(Frame::Ack { res: (c / 16) % 2 == 1, n_rdy: (c / 8) % 2 == 1, ack_num: FrameNumber::new_truncate(c) })
    } else if c < 0xC0 {
        Some(Frame::Nak { res: (c / 16) % 2 == 1, n_rdy: (c / 8) % 2 == 1, ack_num: FrameNumber::new_truncate(c) })
    } else if c == 0xC0 {
        Some(Frame::Rst)
    } else if c == 0xC1 {
        Some(Frame::RstAck { version: 0, code: 0 })
    } else if c == 0xC2 {
        Some(Frame::Error { version: 0, code: 0 })
    } else {
        None
    }
}

/// Reads one frame from its unstuffed bytes.
fn frame_from_unstuffed(u: &Vec<u8>) -> (r: Result<Frame, Error>)
    ensures
        result_view(r) == frame_of(u@),
{
    if u.len() == 0 {
        return Err(Error::UnknownFrame);
    }
    let header = match header_from_control(u[0]) {
        None => return Err(Error::UnknownFrame),
        Some(h) => h,
    };
    let n = u.len() - 1;
    let len_ok = match &header {
        Frame::Data { .. } => 5 <= n && n <= 130,
        Frame::RstAck { .. } => n == 4,
        Frame::Error { .. } => n == 4,
        _ => n == 2,
    };
    if !len_ok {
        return Err(Error::InvalidDataField(header));
    }
    let len = u.len();
    let covered = slice_subrange(u.as_slice(), 0, len - 2);
    assert(covered@ =~= u@.take(len - 2));
    let expected = frame_checksum(covered);
    let carried = (u[len - 2] as u16) * 256 + (u[len - 1] as u16);
    if expected != carried {
        return Err(Error::InvalidChecksum(header));
    }
    match header {
        Frame::Data { frm_num, re_tx, ack_num, .. } => {
            let mut body = vstd::slice::slice_to_vec(slice_subrange(u.as_slice(), 1, len - 2));
            randomize_data(&mut body);
            Ok(Frame::Data { frm_num, re_tx, ack_num, body })
        },
        Frame::RstAck { .. } => Ok(Frame::RstAck { version: u[1], code: u[2] }),
        Frame::Error { .. } => Ok(Frame::Error { version: u[1], code: u[2] }),
        h => Ok(h),
    }
}

impl Frame {
    pub fn data(frm_num: FrameNumber, re_tx: bool, ack_num: FrameNumber, body: Vec<u8>) -> (r: Frame)
        ensures
            r@ == (FrameModel::Data { frm_num: frm_num@, re_tx, ack_num: ack_num@, body: body@ }),
    {
        Frame::Data { frm_num, re_tx, ack_num, body }
    }

    /// An ACK, with the reserved bit clear.
    pub fn ack(n_rdy: bool, ack_num: FrameNumber) -> (r: Frame)
        ensures
            r@ == (FrameModel::Ack { res: false, n_rdy, ack_num: ack_num@ }),
    {
        Frame::Ack { res: false, n_rdy, ack_num }
    }

    /// A NAK, with the reserved bit clear.
    pub fn nak(n_rdy: bool, ack_num: FrameNumber) -> (r: Frame)
        ensures
            r@ == (FrameModel::Nak { res: false, n_rdy, ack_num: ack_num@ }),
    {
        Frame::Nak { res: false, n_rdy, ack_num }
    }

    pub fn rst_ack(version: u8, code: u8) -> (r: Frame)
        ensures
            r@ == (FrameModel::RstAck { version, code }),
    {
        Frame::RstAck { version, code }
    }

    pub fn error(version: u8, code: u8) -> (r: Frame)
        ensures
            r@ == (FrameModel::Error { version, code }),
    {
        Frame::Error { version, code }
    }

    /// Parses the frame at the start of `input`: `None` where more bytes are
    /// needed, else the frame and how many bytes it took (through its FLAG),
    /// or what was wrong with it.
    pub fn parse(input: &[u8]) -> (r: Option<Result<(usize, Frame), ParseError>>)
        ensures
            match r {
                None => parse_model(input@) is Incomplete,
                Some(Ok((n, f))) => parse_model(input@) == (ParseModel::Complete {
                    consumed: n as nat,
                    result: Ok(f@),
                }),
                Some(Err(e)) => parse_model(input@) == (ParseModel::Complete {
                    consumed: e.consumed as nat,
                    result: Err(e.error@),
                }),
            },
    {
        if input.len() == 0 {
            return None;
        }
        match frame_data_and_flag(input) {
            None => {
                let c = input[0];
                if header_from_control(c).is_none() {
                    Some(Err(ParseError::new(input.len(), Error::UnknownFrame)))
                } else {
                    None
                }
            },
            Some((n, data)) => match frame_from_unstuffed(&data) {
                Ok(f) => Some(Ok((n, f))),
                Err(e) => Some(Err(ParseError::new(n, e))),
            },
        }
    }

    /// The control byte.
    pub fn flag(&self) -> (r: u8)
        ensures
            r == control_byte(self@),
    {
        match self {
            Frame::Data { frm_num, re_tx, ack_num, .. } => {
                let rb: u8 = if *re_tx { 8 } else { 0 };
                frm_num.value() * 16 + rb + ack_num.value()
            },
            Frame::Ack { res, n_rdy, ack_num } => {
                let rb: u8 = if *res { 16 } else { 0 };
                let nb: u8 = if *n_rdy { 8 } else { 0 };
                0x80 + rb + nb + ack_num.value()
            },
            Frame::Nak { res, n_rdy, ack_num } => {
                let rb: u8 = if *res { 16 } else { 0 };
                let nb: u8 = if *n_rdy { 8 } else { 0 };
                0xA0 + rb + nb + ack_num.value()
            },
            Frame::Rst => 0xC0,
            Frame::RstAck { .. } => 0xC1,
            Frame::Error { .. } => 0xC2,
        }
    }

    /// How many bytes follow the control byte (payload and checksum), where
    /// the frame kind fixes it: `None` for DATA, 4 for RSTACK and ERROR, 2 for
    /// the others.
    pub fn data_len(&self) -> (r: Option<usize>)
        ensures
            match self@ {
                FrameModel::Data { .. } => r is None,
                FrameModel::RstAck { .. } => r == Some(4usize),
                FrameModel::Error { .. } => r == Some(4usize),
                _ => r == Some(2usize),
            },
    {
        match self {
            Frame::Data { .. } => None,
            Frame::RstAck { .. } | Frame::Error { .. } => Some(4),
            _ => Some(2),
        }
    }

    /// Appends the payload (masked body, or version and code) to `buf`.
    pub fn serialize_data(&self, buf: &mut Vec<u8>)
        ensures
            final(buf)@ == old(buf)@ + payload(self@),
    {
        match self {
            Frame::Data { body, .. } => {
                let mut masked = body.clone();
                randomize_data(&mut masked);
                let ghost before = buf@;
                buf.extend_from_slice(masked.as_slice());
                assert(buf@ =~= before + payload(self@));
            },
            Frame::RstAck { version, code } | Frame::Error { version, code } => {
                let ghost before = buf@;
                buf.push(*version);
                buf.push(*code);
                assert(buf@ =~= before + payload(self@));
            },
            _ => {
                assert(buf@ =~= old(buf)@ + payload(self@));
            },
        }
    }

    /// Appends the wire form of the frame to `buf`: control byte, payload and
    /// checksum, stuffed, then FLAG.
    pub fn serialize(&self, buf: &mut Vec<u8>)
        ensures
            final(buf)@ == old(buf)@ + encoded(self@),
    {
        let mut raw: Vec<u8> = Vec::new();
        raw.push(self.flag());
        self.serialize_data(&mut raw);
        assert(raw@ =~= raw_frame(self@));
        let checksum = frame_checksum(raw.as_slice());
        raw.push((checksum / 256) as u8);
        raw.push((checksum % 256) as u8);
        assert(raw@ =~= with_checksum(raw_frame(self@)));
        escape_reserved_bytes(raw.as_slice(), buf);
        buf.push(FLAG_BYTE);
        assert(buf@ =~= old(buf)@ + encoded(self@));
    }
}

} // verus!
