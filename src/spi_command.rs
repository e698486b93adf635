use vstd::prelude::*;

verus! {

/// The byte that ends every SPI command and response.
pub const SPI_TERMINATOR: u8 = 0xA7;

/// The largest payload a frame-bearing command carries.
pub const MAX_PAYLOAD_LEN: usize = 128;

/// A host-to-NCP SPI command.
#[derive(Clone, Debug)]
pub enum Command {
    EzspFrame(Vec<u8>),
    BootloaderFrame(Vec<u8>),
    SpiStatus,
    SpiProtocolVersion,
}

/// The command byte: 0xFE, 0xFD, 0x0B, 0x0A.
pub open spec fn command_byte_of(c: &Command) -> u8 {
    match c {
        Command::EzspFrame(_) => 0xFE,
        Command::BootloaderFrame(_) => 0xFD,
        Command::SpiStatus => 0x0B,
        Command::SpiProtocolVersion => 0x0A,
    }
}

/// The wire form: `[command byte][len][payload]0xA7`, with length and
/// payload for the two frame commands only.
pub open spec fn command_bytes(c: &Command) -> Seq<u8> {
    match c {
        Command::EzspFrame(b) => seq![0xFEu8, b.len() as u8] + b@ + seq![SPI_TERMINATOR],
        Command::BootloaderFrame(b) => seq![0xFDu8, b.len() as u8] + b@ + seq![SPI_TERMINATOR],
        _ => seq![command_byte_of(c), SPI_TERMINATOR],
    }
}

/// The payload length of a frame command, 0 for the others.
pub open spec fn payload_len(c: &Command) -> nat {
    match c {
        Command::EzspFrame(b) => b@.len(),
        Command::BootloaderFrame(b) => b@.len(),
        _ => 0,
    }
}

impl Command {
    /// The number of bytes of the wire form.
    pub fn size(&self) -> (r: usize)
        requires
            payload_len(self) <= usize::MAX - 3,
        ensures
            r == command_bytes(self).len(),
    {
        match self {
            Command::EzspFrame(b) | Command::BootloaderFrame(b) => 3 + b.len(),
            Command::SpiStatus | Command::SpiProtocolVersion => 2,
        }
    }

    pub fn command_byte(&self) -> (r: u8)
        ensures
            r == command_byte_of(self),
    {
        match self {
            Command::EzspFrame(_) => 0xFE,
            Command::BootloaderFrame(_) => 0xFD,
            Command::SpiStatus => 0x0B,
            Command::SpiProtocolVersion => 0x0A,
        }
    }

    /// Appends the wire form to `buf`; the length byte requires a payload of
    /// at most 255 bytes.
    pub fn serialize(&self, buf: &mut Vec<u8>)
        requires
            payload_len(self) <= 255,
        ensures
            final(buf)@ == old(buf)@ + command_bytes(self),
    {
        let ghost before = buf@;
        buf.push(self.command_byte());
        match self {
            Command::EzspFrame(b) | Command::BootloaderFrame(b) => {
                buf.push(b.len() as u8);
                buf.extend_from_slice(b.as_slice());
            },
            _ => {},
        }
        buf.push(SPI_TERMINATOR);
        assert(buf@ =~= before + command_bytes(self));
    }
}

} // verus!
