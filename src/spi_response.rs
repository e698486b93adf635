use vstd::prelude::*;
use vstd::slice::{slice_subrange, slice_to_vec};
use crate::spi_command::SPI_TERMINATOR;
use crate::spi_error::Error;

verus! {

/// The value of an NCP response.
pub enum ResponseModel {
    EzspFrame(Seq<u8>),
    BootloaderFrame(Seq<u8>),
    SpiStatus(bool),
    SpiProtocolVersion(u8),
    NcpReset(u8),
    OversizedPayloadFrame,
    AbortedTransaction,
    MissingFrameTerminator,
    UnsupportedSpiCommand,
}

/// An NCP-to-host SPI response, after the leading 0xFF wait bytes.
#[derive(Clone, Debug, PartialEq)]
pub enum RawResponse {
    EzspFrame(Vec<u8>),
    BootloaderFrame(Vec<u8>),
    SpiStatus(bool),
    SpiProtocolVersion(u8),
    NcpReset(u8),
    OversizedPayloadFrame,
    AbortedTransaction,
    MissingFrameTerminator,
    UnsupportedSpiCommand,
}

/// A response that the NCP gives to a command it carried out.
#[derive(Clone, Debug)]
pub enum SuccessResponse {
    EzspFrame(Vec<u8>),
    BootloaderFrame(Vec<u8>),
    SpiStatus(bool),
    SpiProtocolVersion(u8),
}

impl View for RawResponse {
    type V = ResponseModel;

    open spec fn view(&self) -> ResponseModel {
        match self {
            RawResponse::EzspFrame(b) => ResponseModel::EzspFrame(b@),
            RawResponse::BootloaderFrame(b) => ResponseModel::BootloaderFrame(b@),
            RawResponse::SpiStatus(r) => ResponseModel::SpiStatus(*r),
            RawResponse::SpiProtocolVersion(v) => ResponseModel::SpiProtocolVersion(*v),
            RawResponse::NcpReset(c) => ResponseModel::NcpReset(*c),
            RawResponse::OversizedPayloadFrame => ResponseModel::OversizedPayloadFrame,
            RawResponse::AbortedTransaction => ResponseModel::AbortedTransaction,
            RawResponse::MissingFrameTerminator => ResponseModel::MissingFrameTerminator,
            RawResponse::UnsupportedSpiCommand => ResponseModel::UnsupportedSpiCommand,
        }
    }
}

impl View for SuccessResponse {
    type V = ResponseModel;

    open spec fn view(&self) -> ResponseModel {
        match self {
            SuccessResponse::EzspFrame(b) => ResponseModel::EzspFrame(b@),
            SuccessResponse::BootloaderFrame(b) => ResponseModel::BootloaderFrame(b@),
            SuccessResponse::SpiStatus(r) => ResponseModel::SpiStatus(*r),
            SuccessResponse::SpiProtocolVersion(v) => ResponseModel::SpiProtocolVersion(*v),
        }
    }
}

/// The outcome of parsing a response.
pub enum ResponseParseModel {
    /// This many more bytes are needed.
    Incomplete(nat),
    /// The response took this many bytes.
    Complete(nat, ResponseModel),
    /// The bytes are no response.
    Invalid,
}

/// The outcome of parsing a response, with the response.
#[derive(Debug)]
pub enum ResponseParse {
    Incomplete(usize),
    Complete(usize, RawResponse),
    Invalid,
}

impl View for ResponseParse {
    type V = ResponseParseModel;

    open spec fn view(&self) -> ResponseParseModel {
        match self {
            ResponseParse::Incomplete(n) => ResponseParseModel::Incomplete(*n as nat),
            ResponseParse::Complete(n, r) => ResponseParseModel::Complete(*n as nat, r@),
            ResponseParse::Invalid => ResponseParseModel::Invalid,
        }
    }
}

/// A response of `len` bytes in all, whose value is `value`, read from `s`:
/// more bytes are needed while `s` is shorter; then the last of the `len`
/// bytes must be the terminator.
pub open spec fn fixed_len(s: Seq<u8>, len: nat, value: ResponseModel) -> ResponseParseModel {
    if s.len() < len {
        ResponseParseModel::Incomplete((len - s.len()) as nat)
    } else if s[len - 1] != SPI_TERMINATOR {
        ResponseParseModel::Invalid
    } else {
        ResponseParseModel::Complete(len, value)
    }
}

/// The response at the start of `s`. First byte: 0x00 NCP reset (reason
/// follows), 0x01 to 0x04 the error responses (a dummy byte follows),
/// `10vvvvvv` the protocol version `v`, `1100000r` the status (`r`: ready),
/// 0xFD and 0xFE a bootloader or EZSP frame (length and payload follow); the
/// terminator 0xA7 ends each.
pub open spec fn response_model(s: Seq<u8>) -> ResponseParseModel {
    if s.len() == 0 {
        ResponseParseModel::Incomplete(1)
    } else {
        let b = s[0];
        let second = if s.len() >= 2 {
            s[1]
        } else {
            0
        };
        if b == 0x00 {
            fixed_len(s, 3, ResponseModel::NcpReset(second))
        } else if b == 0x01 {
            fixed_len(s, 3, ResponseModel::OversizedPayloadFrame)
        } else if b == 0x02 {
            fixed_len(s, 3, ResponseModel::AbortedTransaction)
        } else if b == 0x03 {
            fixed_len(s, 3, ResponseModel::MissingFrameTerminator)
        } else if b == 0x04 {
            fixed_len(s, 3, ResponseModel::UnsupportedSpiCommand)
        } else if 0x80 <= b < 0xC0 {
            fixed_len(s, 2, ResponseModel::SpiProtocolVersion((b % 64) as u8))
        } else if b == 0xC0 || b == 0xC1 {
            fixed_len(s, 2, ResponseModel::SpiStatus(b == 0xC1))
        } else if b == 0xFD || b == 0xFE {
            if s.len() < 2 {
                ResponseParseModel::Incomplete(1)
            } else {
                let len = s[1] + 3;
                let payload = s.subrange(2, if s.len() >= len {
                    len - 1
                } else {
                    2
                });
                fixed_len(
                    s,
                    len as nat,
                    if b == 0xFD {
                        ResponseModel::BootloaderFrame(payload)
                    } else {
                        ResponseModel::EzspFrame(payload)
                    },
                )
            }
        } else {
            ResponseParseModel::Invalid
        }
    }
}

/// What a response means for the command that asked for it: the error
/// responses and the NCP reset become errors.
pub open spec fn response_result(r: ResponseModel) -> Result<ResponseModel, ErrorKind> {
    match r {
        ResponseModel::AbortedTransaction => Err(ErrorKind::InternalError),
        ResponseModel::MissingFrameTerminator => Err(ErrorKind::InternalError),
        ResponseModel::UnsupportedSpiCommand => Err(ErrorKind::InternalError),
        ResponseModel::OversizedPayloadFrame => Err(ErrorKind::OversizedPayload),
        ResponseModel::NcpReset(code) => Err(ErrorKind::UnexpectedReset(code)),
        _ => Ok(r),
    }
}

/// The variant of an NCP-side error, without the I/O error's payload.
pub enum ErrorKind {
    InvalidResponse,
    Io,
    NeedsReset,
    Unresponsive,
    OversizedPayload,
    InternalError,
    UnexpectedReset(u8),
}

pub open spec fn error_kind(e: &Error) -> ErrorKind {
    match e {
        Error::InvalidResponse => ErrorKind::InvalidResponse,
        Error::Io(_) => ErrorKind::Io,
        Error::NeedsReset => ErrorKind::NeedsReset,
        Error::Unresponsive => ErrorKind::Unresponsive,
        Error::OversizedPayload => ErrorKind::OversizedPayload,
        Error::InternalError => ErrorKind::InternalError,
        Error::UnexpectedReset(c) => ErrorKind::UnexpectedReset(*c),
    }
}

/// The value of a command's result.
pub open spec fn success_result_view(r: &Result<SuccessResponse, Error>) -> Result<ResponseModel, ErrorKind> {
    match r {
        Ok(s) => Ok(s@),
        Err(e) => Err(error_kind(e)),
    }
}

fn fixed_response(input: &[u8], len: usize, value: RawResponse) -> (r: ResponseParse)
    requires
        input.len() >= 1,
        len >= 1,
    ensures
        r@ == fixed_len(input@, len as nat, value@),
{
    if input.len() < len {
        ResponseParse::Incomplete(len - input.len())
    } else if input[len - 1] != SPI_TERMINATOR {
        ResponseParse::Invalid
    } else {
        ResponseParse::Complete(len, value)
    }
}

impl RawResponse {
    /// Parses the response at the start of `input`.
    pub fn parse(input: &[u8]) -> (r: ResponseParse)
        ensures
            r@ == response_model(input@),
    {
        if input.len() == 0 {
            return ResponseParse::Incomplete(1);
        }
        let b = input[0];
        let second: u8 = if input.len() >= 2 {
            input[1]
        } else {
            0
        };
        if b == 0x00 {
            fixed_response(input, 3, RawResponse::NcpReset(second))
        } else if b == 0x01 {
            fixed_response(input, 3, RawResponse::OversizedPayloadFrame)
        } else if b == 0x02 {
            fixed_response(input, 3, RawResponse::AbortedTransaction)
        } else if b == 0x03 {
            fixed_response(input, 3, RawResponse::MissingFrameTerminator)
        } else if b == 0x04 {
            fixed_response(input, 3, RawResponse::UnsupportedSpiCommand)
        } else if 0x80 <= b && b < 0xC0 {
            fixed_response(input, 2, RawResponse::SpiProtocolVersion(b % 64))
        } else if b == 0xC0 || b == 0xC1 {
            fixed_response(input, 2, RawResponse::SpiStatus(b == 0xC1))
        } else if b == 0xFD || b == 0xFE {
            if input.len() < 2 {
                return ResponseParse::Incomplete(1);
            }
            let len = second as usize + 3;
            let end = if input.len() >= len {
                len - 1
            } else {
                2
            };
            let payload = slice_to_vec(slice_subrange(input, 2, end));
            let value = if b == 0xFD {
                RawResponse::BootloaderFrame(payload)
            } else {
                RawResponse::EzspFrame(payload)
            };
            fixed_response(input, len, value)
        } else {
            ResponseParse::Invalid
        }
    }

    /// The result that this response gives the command that asked for it.
    pub fn into_result(self) -> (r: Result<SuccessResponse, Error>)
        ensures
            success_result_view(&r) == response_result(self@),
    {
        match self {
            RawResponse::AbortedTransaction
            | RawResponse::MissingFrameTerminator
            | RawResponse::UnsupportedSpiCommand => Err(Error::InternalError),
            RawResponse::OversizedPayloadFrame => Err(Error::OversizedPayload),
            RawResponse::NcpReset(code) => Err(Error::UnexpectedReset(code)),
            RawResponse::BootloaderFrame(inner) => Ok(SuccessResponse::BootloaderFrame(inner)),
            RawResponse::EzspFrame(inner) => Ok(SuccessResponse::EzspFrame(inner)),
            RawResponse::SpiProtocolVersion(inner) => Ok(SuccessResponse::SpiProtocolVersion(inner)),
            RawResponse::SpiStatus(inner) => Ok(SuccessResponse::SpiStatus(inner)),
        }
    }
}

/// A response that is still incomplete needs at least one more byte, and
/// never takes more than 258 bytes in all.
pub proof fn lemma_incomplete_bound(s: Seq<u8>)
    ensures
        response_model(s) matches ResponseParseModel::Incomplete(n) ==> n >= 1 && s.len() + n
            <= 258,
{
}

} // verus!
