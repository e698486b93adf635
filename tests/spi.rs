use std::collections::VecDeque;
use std::time::Duration;

use ezsp_spi_bridge::ncp::{is_expected_reset_reply, Reply, Request, SpiDevice, State, NCP};
use ezsp_spi_bridge::spi_command::Command;
use ezsp_spi_bridge::spi_error::Error;
use ezsp_spi_bridge::spi_response::{RawResponse, ResponseParse, SuccessResponse};

#[test]
fn it_returns_the_correct_command_size() {
    let data = vec![0u8; 25];
    assert_eq!(Command::BootloaderFrame(data.clone()).size(), 28);
    assert_eq!(Command::EzspFrame(data).size(), 28);
    assert_eq!(Command::SpiProtocolVersion.size(), 2);
    assert_eq!(Command::SpiStatus.size(), 2);
}

#[test]
fn it_returns_the_correct_command_byte() {
    assert_eq!(Command::BootloaderFrame(Vec::new()).command_byte(), 0xFD);
    assert_eq!(Command::EzspFrame(Vec::new()).command_byte(), 0xFE);
    assert_eq!(Command::SpiProtocolVersion.command_byte(), 0x0A);
    assert_eq!(Command::SpiStatus.command_byte(), 0x0B);
}

#[test]
fn it_serialize_a_bootloader_frame_correctly() {
    let command = Command::BootloaderFrame(vec![0xA7, 0xFE, 0x0B]);
    let mut buf = Vec::with_capacity(command.size());
    command.serialize(&mut buf);

    assert_eq!(buf, [0xFD, 0x03, 0xA7, 0xFE, 0x0B, 0xA7]);
}

#[test]
fn it_serialize_an_ezsp_frame_correctly() {
    let command = Command::EzspFrame(vec![0xA7, 0xFE, 0x0B]);
    let mut buf = Vec::with_capacity(command.size());
    command.serialize(&mut buf);

    assert_eq!(buf, [0xFE, 0x03, 0xA7, 0xFE, 0x0B, 0xA7]);
}

#[test]
fn it_serialize_the_spi_protocol_version_command_correctly() {
    let command = Command::SpiProtocolVersion;
    let mut buf = Vec::with_capacity(command.size());
    command.serialize(&mut buf);

    assert_eq!(buf, [0x0A, 0xA7]);
}

#[test]
fn it_serialize_the_spi_status_command_correctly() {
    let command = Command::SpiStatus;
    let mut buf = Vec::with_capacity(command.size());
    command.serialize(&mut buf);

    assert_eq!(buf, [0x0B, 0xA7]);
}

fn parsed(input: &[u8]) -> RawResponse {
    match RawResponse::parse(input) {
        ResponseParse::Complete(n, res) => {
            assert_eq!(n, input.len());
            res
        }
        other => panic!("unexpected {:?}", other),
    }
}

#[test]
fn it_parses_ncp_reset_response() {
    assert_eq!(parsed(&[0x00, 0x02, 0xA7]), RawResponse::NcpReset(0x02));
}

#[test]
fn it_parse_oversized_payload_response() {
    assert_eq!(parsed(&[0x01, 0x00, 0xA7]), RawResponse::OversizedPayloadFrame);
}

#[test]
fn it_parses_aborted_transaction_response() {
    assert_eq!(parsed(&[0x02, 0x00, 0xA7]), RawResponse::AbortedTransaction);
}

#[test]
fn it_parses_missing_frame_terminator_response() {
    assert_eq!(parsed(&[0x03, 0x00, 0xA7]), RawResponse::MissingFrameTerminator);
}

#[test]
fn it_parses_unsupported_spi_command_response() {
    assert_eq!(parsed(&[0x04, 0x00, 0xA7]), RawResponse::UnsupportedSpiCommand);
}

#[test]
fn it_parses_spi_protocol_version_response() {
    assert_eq!(parsed(&[0xAA, 0xA7]), RawResponse::SpiProtocolVersion(0x2A))
}

#[test]
fn it_parses_spi_status_response() {
    assert_eq!(parsed(&[0xC1, 0xA7]), RawResponse::SpiStatus(true));
}

#[test]
fn it_parses_bootloader_frame_response() {
    assert_eq!(
        parsed(&[0xFD, 0x03, 0x01, 0x02, 0x03, 0xA7]),
        RawResponse::BootloaderFrame(vec![0x01, 0x02, 0x03])
    )
}

#[test]
fn it_parses_ezsp_frame_response() {
    assert_eq!(
        parsed(&[0xFE, 0x03, 0x01, 0x02, 0x03, 0xA7]),
        RawResponse::EzspFrame(vec![0x01, 0x02, 0x03])
    )
}

#[test]
fn response_parser_asks_for_missing_bytes_and_rejects_bad_ones() {
    assert!(matches!(RawResponse::parse(&[]), ResponseParse::Incomplete(1)));
    assert!(matches!(RawResponse::parse(&[0x00]), ResponseParse::Incomplete(2)));
    assert!(matches!(RawResponse::parse(&[0xFE]), ResponseParse::Incomplete(1)));
    assert!(matches!(RawResponse::parse(&[0xFE, 0x03, 0x01]), ResponseParse::Incomplete(3)));
    assert!(matches!(RawResponse::parse(&[0xC1, 0x00]), ResponseParse::Invalid));
    assert!(matches!(RawResponse::parse(&[0x05, 0x00, 0xA7]), ResponseParse::Invalid));
    assert!(matches!(RawResponse::parse(&[0xC1, 0xA7, 0x55]), ResponseParse::Complete(2, RawResponse::SpiStatus(true))));
}

#[test]
fn error_responses_become_errors() {
    assert!(matches!(RawResponse::NcpReset(2).into_result(), Err(Error::UnexpectedReset(2))));
    assert!(matches!(RawResponse::OversizedPayloadFrame.into_result(), Err(Error::OversizedPayload)));
    assert!(matches!(RawResponse::AbortedTransaction.into_result(), Err(Error::InternalError)));
    assert!(matches!(RawResponse::SpiStatus(false).into_result(), Ok(SuccessResponse::SpiStatus(false))));
    assert!(is_expected_reset_reply(0, &Err(Error::UnexpectedReset(2))));
    assert!(!is_expected_reset_reply(1, &Ok(SuccessResponse::SpiProtocolVersion(3))));
    assert!(is_expected_reset_reply(2, &Ok(SuccessResponse::SpiStatus(true))));
}

/// A device that answers from a script of response byte strings.
#[derive(Default)]
struct ScriptedDevice {
    responses: VecDeque<Vec<u8>>,
    current: VecDeque<u8>,
    interrupts: VecDeque<bool>,
    written: Vec<Vec<u8>>,
    cs: bool,
    cs_changes: usize,
}

impl SpiDevice for ScriptedDevice {
    fn read(&mut self, len: usize) -> Result<Vec<u8>, std::io::Error> {
        Ok((0..len).map(|_| self.current.pop_front().unwrap_or(0xFF)).collect())
    }
    fn write(&mut self, buf: &[u8]) -> Result<(), std::io::Error> {
        assert!(self.cs);
        self.written.push(buf.to_vec());
        self.current = self.responses.pop_front().unwrap_or_default().into();
        Ok(())
    }
    fn drop_until_non_ff(&mut self) -> Result<u8, std::io::Error> {
        while let Some(b) = self.current.pop_front() {
            if b != 0xFF {
                return Ok(b);
            }
        }
        Err(std::io::Error::from(std::io::ErrorKind::UnexpectedEof))
    }
    fn set_cs_signal(&mut self, value: bool) -> Result<(), std::io::Error> {
        self.cs = value;
        self.cs_changes += 1;
        Ok(())
    }
    fn set_wake_signal(&mut self, _value: bool) -> Result<(), std::io::Error> {
        Ok(())
    }
    fn set_reset_signal(&mut self, _value: bool) -> Result<(), std::io::Error> {
        Ok(())
    }
    fn poll_interrupt_signal(&mut self, _dur: Duration) -> Result<bool, std::io::Error> {
        Ok(self.interrupts.pop_front().unwrap_or(true))
    }
    fn get_interrupt_value(&mut self) -> Result<bool, std::io::Error> {
        Ok(false)
    }
    fn delay(&mut self, _dur: Duration) {}
}

fn device(responses: &[&[u8]]) -> ScriptedDevice {
    ScriptedDevice {
        responses: responses.iter().map(|r| r.to_vec()).collect(),
        ..Default::default()
    }
}

#[test]
fn ncp_needs_a_reset_before_frames() {
    let mut ncp = NCP::new(device(&[]));
    assert!(matches!(ncp.state(), State::Unknown));
    assert!(!ncp.is_ready());
    assert!(matches!(ncp.send(vec![1, 2, 3]), Err(Error::NeedsReset)));
    assert!(ncp.into_inner().written.is_empty());
}

#[test]
fn ncp_reset_handshake_then_frame_exchange() {
    let dev = device(&[
        &[0xFF, 0xFF, 0x00, 0x02, 0xA7],
        &[0x82, 0xA7],
        &[0xFF, 0xC1, 0xA7],
        &[0xFF, 0xFE, 0x02, 0x10, 0x20, 0xA7],
    ]);
    let mut ncp = NCP::new(dev);
    assert!(ncp.reset(false).is_ok());
    assert!(matches!(ncp.state(), State::Normal));
    assert!(ncp.is_ready() && !ncp.is_bootloader());
    assert_eq!(ncp.send(vec![0x01, 0x02]).unwrap(), vec![0x10, 0x20]);
    let dev = ncp.into_inner();
    assert_eq!(dev.written[0], [0x0A, 0xA7]);
    assert_eq!(dev.written[1], [0x0A, 0xA7]);
    assert_eq!(dev.written[2], [0x0B, 0xA7]);
    assert_eq!(dev.written[3], [0xFE, 0x02, 0x01, 0x02, 0xA7]);
    assert!(!dev.cs);
    assert_eq!(dev.cs_changes, 8);
}

#[test]
fn ncp_reset_into_bootloader_sends_bootloader_frames() {
    let dev = device(&[
        &[0x00, 0x02, 0xA7],
        &[0x82, 0xA7],
        &[0xC1, 0xA7],
        &[0xFD, 0x01, 0x33, 0xA7],
    ]);
    let mut ncp = NCP::new(dev);
    assert!(ncp.reset_to_bootloader().is_ok());
    assert!(ncp.is_bootloader());
    assert_eq!(ncp.send(vec![0x44]).unwrap(), vec![0x33]);
    assert_eq!(ncp.into_inner().written[3], [0xFD, 0x01, 0x44, 0xA7]);
}

#[test]
fn ncp_reset_fails_on_a_wrong_handshake() {
    let dev = device(&[&[0x00, 0x02, 0xA7], &[0x83, 0xA7], &[0xC1, 0xA7]]);
    let mut ncp = NCP::new(dev);
    assert!(matches!(ncp.reset(false), Err(Error::InvalidResponse)));
    assert!(matches!(ncp.state(), State::Unknown));
}

#[test]
fn ncp_reset_without_interrupt_is_unresponsive() {
    let mut dev = device(&[]);
    dev.interrupts.push_back(false);
    let mut ncp = NCP::new(dev);
    assert!(matches!(ncp.reset(false), Err(Error::Unresponsive)));
    assert!(matches!(ncp.state(), State::Unknown));
}

#[test]
fn ncp_send_errors() {
    let mut dev = device(&[
        &[0x00, 0x02, 0xA7],
        &[0x82, 0xA7],
        &[0xC1, 0xA7],
        &[0x01, 0x00, 0xA7],
        &[0x00, 0x09, 0xA7],
        &[0x42],
    ]);
    dev.interrupts.extend([true, true, true, true, true, true, true, false]);
    let mut ncp = NCP::new(dev);
    assert!(ncp.reset(false).is_ok());
    assert!(matches!(ncp.send(vec![0; 129]), Err(Error::OversizedPayload)));
    assert!(matches!(ncp.send(vec![1]), Err(Error::OversizedPayload)));
    assert!(matches!(ncp.send(vec![1]), Err(Error::UnexpectedReset(0x09))));
    assert!(matches!(ncp.send(vec![1]), Err(Error::InvalidResponse)));
    assert!(ncp.is_ready());
    assert!(matches!(ncp.send(vec![1]), Err(Error::Unresponsive)));
    assert!(matches!(ncp.state(), State::Unknown));
}

#[test]
fn ncp_wakeup_and_requests() {
    let mut dev = device(&[&[0x00, 0x02, 0xA7], &[0x82, 0xA7], &[0xC1, 0xA7]]);
    dev.interrupts.extend([true, true, true, true, true, false]);
    let mut ncp = NCP::new(dev);
    assert!(matches!(ncp.wakeup(), Err(Error::NeedsReset)));
    assert!(matches!(ncp.handle_request(Request::Wakeup), Reply::Done(Err(Error::NeedsReset))));
    assert!(matches!(ncp.handle_request(Request::SendFrame(vec![1])), Reply::Frame(Err(Error::NeedsReset))));
    assert!(matches!(ncp.handle_request(Request::Reset { to_bootloader: false }), Reply::Done(Ok(()))));
    assert!(ncp.wakeup().is_ok());
    assert!(matches!(ncp.wakeup(), Err(Error::Unresponsive)));
    assert!(matches!(ncp.state(), State::Unknown));
    assert!(matches!(ncp.has_callback(), Ok(false)));
}

#[test]
fn ncp_releases_chip_select_on_timeout() {
    let mut dev = device(&[&[0x00, 0x02, 0xA7], &[0x82, 0xA7], &[0xC1, 0xA7]]);
    dev.interrupts.extend([true, true, true, true, false]);
    let mut ncp = NCP::new(dev);
    assert!(ncp.reset(false).is_ok());
    assert!(matches!(ncp.send(vec![1]), Err(Error::Unresponsive)));
    assert!(!ncp.into_inner().cs);
}

#[test]
fn ncp_reset_maps_handshake_failures() {
    // The first reply is not the reported reset.
    let dev = device(&[&[0x82, 0xA7]]);
    let mut ncp = NCP::new(dev);
    assert!(matches!(ncp.reset(false), Err(Error::InvalidResponse)));
    // No interrupt for the first handshake command.
    let mut dev = device(&[]);
    dev.interrupts.extend([true, false]);
    let mut ncp = NCP::new(dev);
    assert!(matches!(ncp.reset(false), Err(Error::Unresponsive)));
    assert!(!ncp.into_inner().cs);
}
