use vstd::prelude::*;
use crate::frame::{
    control_byte, parse_model, payload, Frame, FrameModel, ParseModel,
};
use crate::frame_number::FrameNumber;

verus! {

/// Whether `input` starts with a complete, valid frame `f` of `n` bytes.
pub open spec fn parses_as(input: Seq<u8>, n: usize, f: FrameModel) -> bool {
    parse_model(input) == (ParseModel::Complete { consumed: n as nat, result: Ok(f) })
}

/// An ACK frame on its own.
#[derive(Clone, Copy, Debug)]
pub struct AckFrame {
    pub res: bool,
    pub n_rdy: bool,
    pub ack_num: FrameNumber,
}

/// A NAK frame on its own.
#[derive(Clone, Copy, Debug)]
pub struct NakFrame {
    pub res: bool,
    pub n_rdy: bool,
    pub ack_num: FrameNumber,
}

/// A DATA frame on its own; `data` is the body as the application sees it.
#[derive(Clone, Debug)]
pub struct DataFrame {
    pub frm_num: FrameNumber,
    pub re_tx: bool,
    pub ack_num: FrameNumber,
    pub data: Vec<u8>,
}

/// An RST frame on its own.
#[derive(Clone, Copy, Debug)]
pub struct RstFrame;

/// An RSTACK frame on its own.
#[derive(Clone, Copy, Debug)]
pub struct RstAckFrame {
    pub version: u8,
    pub code: u8,
}

/// An ERROR frame on its own.
#[derive(Clone, Copy, Debug)]
pub struct ErrorFrame {
    pub version: u8,
    pub code: u8,
}

impl View for AckFrame {
    type V = FrameModel;

    open spec fn view(&self) -> FrameModel {
        FrameModel::Ack { res: self.res, n_rdy: self.n_rdy, ack_num: self.ack_num@ }
    }
}

impl View for NakFrame {
    type V = FrameModel;

    open spec fn view(&self) -> FrameModel {
        FrameModel::Nak { res: self.res, n_rdy: self.n_rdy, ack_num: self.ack_num@ }
    }
}

impl View for DataFrame {
    type V = FrameModel;

    open spec fn view(&self) -> FrameModel {
        FrameModel::Data {
            frm_num: self.frm_num@,
            re_tx: self.re_tx,
            ack_num: self.ack_num@,
            body: self.data@,
        }
    }
}

impl View for RstFrame {
    type V = FrameModel;

    open spec fn view(&self) -> FrameModel {
        FrameModel::Rst
    }
}

impl View for RstAckFrame {
    type V = FrameModel;

    open spec fn view(&self) -> FrameModel {
        FrameModel::RstAck { version: self.version, code: self.code }
    }
}

impl View for ErrorFrame {
    type V = FrameModel;

    open spec fn view(&self) -> FrameModel {
        FrameModel::Error { version: self.version, code: self.code }
    }
}

impl AckFrame {
    pub fn new(res: bool, n_rdy: bool, ack_num: FrameNumber) -> (r: AckFrame)
        ensures
            r == (AckFrame { res, n_rdy, ack_num }),
    {
        AckFrame { res, n_rdy, ack_num }
    }

    /// Whether the host is ready for callbacks: the n_rdy bit is clear.
    pub fn is_ready(&self) -> (r: bool)
        ensures
            r == !self.n_rdy,
    {
        !self.n_rdy
    }

    pub fn acknowledgement_number(&self) -> (r: FrameNumber)
        ensures
            r == self.ack_num,
    {
        self.ack_num
    }

    pub fn flag(&self) -> (r: u8)
        ensures
            r == control_byte(self@),
    {
        Frame::Ack { res: self.res, n_rdy: self.n_rdy, ack_num: self.ack_num }.flag()
    }

    /// The payload length: none.
    pub fn data_len(&self) -> (r: usize)
        ensures
            r == payload(self@).len(),
    {
        0
    }

    /// Appends the payload: nothing.
    pub fn serialize_data(&self, buf: &mut Vec<u8>)
        ensures
            final(buf)@ == old(buf)@ + payload(self@),
    {
        assert(old(buf)@ + payload(self@) =~= old(buf)@);
    }

    /// The ACK frame at the start of `input`, and how many bytes it took;
    /// `None` where there is none.
    pub fn parse(input: &[u8]) -> (r: Option<(usize, AckFrame)>)
        ensures
            r matches Some((n, f)) ==> parses_as(input@, n, f@),
            r is None ==> forall|n: usize, f: AckFrame| !parses_as(input@, n, f@),
    {
        match Frame::parse(input) {
            Some(Ok((n, Frame::Ack { res, n_rdy, ack_num }))) => Some((n, AckFrame { res, n_rdy, ack_num })),
            _ => None,
        }
    }
}

impl NakFrame {
    pub fn new(res: bool, n_rdy: bool, ack_num: FrameNumber) -> (r: NakFrame)
        ensures
            r == (NakFrame { res, n_rdy, ack_num }),
    {
        NakFrame { res, n_rdy, ack_num }
    }

    /// Whether the host is ready for callbacks: the n_rdy bit is clear.
    pub fn is_ready(&self) -> (r: bool)
        ensures
            r == !self.n_rdy,
    {
        !self.n_rdy
    }

    pub fn acknowledgement_number(&self) -> (r: FrameNumber)
        ensures
            r == self.ack_num,
    {
        self.ack_num
    }

    pub fn flag(&self) -> (r: u8)
        ensures
            r == control_byte(self@),
    {
        Frame::Nak { res: self.res, n_rdy: self.n_rdy, ack_num: self.ack_num }.flag()
    }

    /// The payload length: none.
    pub fn data_len(&self) -> (r: usize)
        ensures
            r == payload(self@).len(),
    {
        0
    }

    /// Appends the payload: nothing.
    pub fn serialize_data(&self, buf: &mut Vec<u8>)
        ensures
            final(buf)@ == old(buf)@ + payload(self@),
    {
        assert(old(buf)@ + payload(self@) =~= old(buf)@);
    }

    /// The NAK frame at the start of `input`, and how many bytes it took;
    /// `None` where there is none.
    pub fn parse(input: &[u8]) -> (r: Option<(usize, NakFrame)>)
        ensures
            r matches Some((n, f)) ==> parses_as(input@, n, f@),
            r is None ==> forall|n: usize, f: NakFrame| !parses_as(input@, n, f@),
    {
        match Frame::parse(input) {
            Some(Ok((n, Frame::Nak { res, n_rdy, ack_num }))) => Some((n, NakFrame { res, n_rdy, ack_num })),
            _ => None,
        }
    }
}

impl DataFrame {
    pub fn new(frm_num: FrameNumber, re_tx: bool, ack_num: FrameNumber, data: Vec<u8>) -> (r: DataFrame)
        ensures
            r@ == (FrameModel::Data { frm_num: frm_num@, re_tx, ack_num: ack_num@, body: data@ }),
    {
        DataFrame { frm_num, re_tx, ack_num, data }
    }

    pub fn frame_number(&self) -> (r: FrameNumber)
        ensures
            r == self.frm_num,
    {
        self.frm_num
    }

    pub fn is_retransmitted(&self) -> (r: bool)
        ensures
            r == self.re_tx,
    {
        self.re_tx
    }

    pub fn acknowledgement_number(&self) -> (r: FrameNumber)
        ensures
            r == self.ack_num,
    {
        self.ack_num
    }

    pub fn data(&self) -> (r: &Vec<u8>)
        ensures
            r@ == self.data@,
    {
        &self.data
    }

    pub fn flag(&self) -> (r: u8)
        ensures
            r == control_byte(self@),
    {
        let rb: u8 = if self.re_tx { 8 } else { 0 };
        self.frm_num.value() * 16 + rb + self.ack_num.value()
    }

    /// The payload length: the body's.
    pub fn data_len(&self) -> (r: usize)
        ensures
            r == payload(self@).len(),
    {
        self.data.len()
    }

    /// Appends the masked body.
    pub fn serialize_data(&self, buf: &mut Vec<u8>)
        ensures
            final(buf)@ == old(buf)@ + payload(self@),
    {
        let mut masked = self.data.clone();
        crate::randomizer::randomize_data(&mut masked);
        buf.extend_from_slice(masked.as_slice());
    }

    /// The DATA frame at the start of `input`, and how many bytes it took;
    /// `None` where there is none.
    pub fn parse(input: &[u8]) -> (r: Option<(usize, DataFrame)>)
        ensures
            r matches Some((n, f)) ==> parses_as(input@, n, f@),
            r is None ==> forall|n: usize, f: DataFrame| !parses_as(input@, n, f@),
    {
        match Frame::parse(input) {
            Some(Ok((n, Frame::Data { frm_num, re_tx, ack_num, body }))) => Some(
                (n, DataFrame { frm_num, re_tx, ack_num, data: body }),
            ),
            _ => None,
        }
    }
}

impl RstFrame {
    pub fn flag(&self) -> (r: u8)
        ensures
            r == control_byte(self@),
    {
        0xC0
    }

    /// The payload length: none.
    pub fn data_len(&self) -> (r: usize)
        ensures
            r == payload(self@).len(),
    {
        0
    }

    /// Appends the payload: nothing.
    pub fn serialize_data(&self, buf: &mut Vec<u8>)
        ensures
            final(buf)@ == old(buf)@ + payload(self@),
    {
        assert(old(buf)@ + payload(self@) =~= old(buf)@);
    }

    /// The RST frame at the start of `input`, and how many bytes it took;
    /// `None` where there is none.
    pub fn parse(input: &[u8]) -> (r: Option<(usize, RstFrame)>)
        ensures
            r matches Some((n, f)) ==> parses_as(input@, n, f@),
            r is None ==> forall|n: usize, f: RstFrame| !parses_as(input@, n, f@),
    {
        match Frame::parse(input) {
            Some(Ok((n, Frame::Rst))) => Some((n, RstFrame)),
            _ => None,
        }
    }
}

impl RstAckFrame {
    pub fn new(version: u8, code: u8) -> (r: RstAckFrame)
        ensures
            r == (RstAckFrame { version, code }),
    {
        RstAckFrame { version, code }
    }

    pub fn version(&self) -> (r: u8)
        ensures
            r == self.version,
    {
        self.version
    }

    pub fn code(&self) -> (r: u8)
        ensures
            r == self.code,
    {
        self.code
    }

    pub fn flag(&self) -> (r: u8)
        ensures
            r == control_byte(self@),
    {
        0xC1
    }

    /// The payload length: version and code.
    pub fn data_len(&self) -> (r: usize)
        ensures
            r == payload(self@).len(),
    {
        2
    }

    /// Appends version and code.
    pub fn serialize_data(&self, buf: &mut Vec<u8>)
        ensures
            final(buf)@ == old(buf)@ + payload(self@),
    {
        buf.push(self.version);
        buf.push(self.code);
        assert(buf@ =~= old(buf)@ + payload(self@));
    }

    /// The RSTACK frame at the start of `input`, and how many bytes it took;
    /// `None` where there is none.
    pub fn parse(input: &[u8]) -> (r: Option<(usize, RstAckFrame)>)
        ensures
            r matches Some((n, f)) ==> parses_as(input@, n, f@),
            r is None ==> forall|n: usize, f: RstAckFrame| !parses_as(input@, n, f@),
    {
        match Frame::parse(input) {
            Some(Ok((n, Frame::RstAck { version, code }))) => Some((n, RstAckFrame { version, code })),
            _ => None,
        }
    }
}

impl ErrorFrame {
    pub fn new(version: u8, code: u8) -> (r: ErrorFrame)
        ensures
            r == (ErrorFrame { version, code }),
    {
        ErrorFrame { version, code }
    }

    pub fn version(&self) -> (r: u8)
        ensures
            r == self.version,
    {
        self.version
    }

    pub fn code(&self) -> (r: u8)
        ensures
            r == self.code,
    {
        self.code
    }

    pub fn flag(&self) -> (r: u8)
        ensures
            r == control_byte(self@),
    {
        0xC2
    }

    /// The payload length: version and code.
    pub fn data_len(&self) -> (r: usize)
        ensures
            r == payload(self@).len(),
    {
        2
    }

    /// Appends version and code.
    pub fn serialize_data(&self, buf: &mut Vec<u8>)
        ensures
            final(buf)@ == old(buf)@ + payload(self@),
    {
        buf.push(self.version);
        buf.push(self.code);
        assert(buf@ =~= old(buf)@ + payload(self@));
    }

    /// The ERROR frame at the start of `input`, and how many bytes it took;
    /// `None` where there is none.
    pub fn parse(input: &[u8]) -> (r: Option<(usize, ErrorFrame)>)
        ensures
            r matches Some((n, f)) ==> parses_as(input@, n, f@),
            r is None ==> forall|n: usize, f: ErrorFrame| !parses_as(input@, n, f@),
    {
        match Frame::parse(input) {
            Some(Ok((n, Frame::Error { version, code }))) => Some((n, ErrorFrame { version, code })),
            _ => None,
        }
    }
}

} // verus!
