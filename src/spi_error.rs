use vstd::prelude::*;

verus! {

/// `std::io::Error`, carried through opaque from the SPI device.
#[verifier::external_type_specification]
#[verifier::external_body]
pub struct ExIoError(std::io::Error);

/// What can go wrong on the NCP side.
#[derive(Debug)]
pub enum Error {
    /// The NCP sent a response that does not parse or does not fit.
    InvalidResponse,
    /// The SPI device or a GPIO line failed.
    Io(std::io::Error),
    /// The NCP's state is unknown; it takes a reset.
    NeedsReset,
    /// The NCP did not signal in time.
    Unresponsive,
    /// The payload was too large for the NCP.
    OversizedPayload,
    /// The NCP reported an aborted, unterminated or unsupported command.
    InternalError,
    /// The NCP reported a reset with this code.
    UnexpectedReset(u8),
}

} // verus!
