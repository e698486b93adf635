use vstd::prelude::*;
use core::time::Duration;
use crate::constants::RESET_POWERON;
use crate::spi_command::{command_bytes, payload_len, Command, MAX_PAYLOAD_LEN, SPI_TERMINATOR};
use crate::spi_error::Error;
use crate::spi_response::{
    error_kind, lemma_incomplete_bound, response_model, response_result, success_result_view, ErrorKind,
    RawResponse, ResponseModel, ResponseParse, ResponseParseModel, SuccessResponse,
};

verus! {

/// Relies on `Duration::from_millis`, which does not panic.
pub assume_specification[ core::time::Duration::from_millis ](millis: u64) -> Duration;

/// Relies on `Duration::from_micros`, which does not panic.
pub assume_specification[ core::time::Duration::from_micros ](micros: u64) -> Duration;

/// How long the NCP may take to signal a response.
pub const RESPONSE_TIMEOUT_MS: u64 = 350;
/// How long the reset line is held.
pub const RESET_PULSE_TIME_US: u64 = 26;
/// How long the NCP may take to start after a reset.
pub const RESET_STARTUP_TIME_MS: u64 = 7500;
/// The least time between the end of one command and the start of the next.
pub const INTER_COMMAND_SPACING_MS: u64 = 1;
/// How long the NCP may take to answer a wake signal.
pub const WAKE_HANDSHAKE_TIMEOUT_MS: u64 = 300;
/// The SPI protocol version this host speaks.
pub const SPI_PROTOCOL_VERSION: u8 = 2;

/// An SPI peripheral with the NCP's GPIO lines, single-threaded and
/// blocking. Signals are given at the protocol level: `true` asserts a line,
/// whatever its electrical polarity.
pub trait SpiDevice {
    /// Reads `len` bytes.
    fn read(&mut self, len: usize) -> Result<Vec<u8>, std::io::Error>;

    fn write(&mut self, buf: &[u8]) -> Result<(), std::io::Error>;

    /// Reads and discards 0xFF wait bytes, returning the first other byte.
    fn drop_until_non_ff(&mut self) -> Result<u8, std::io::Error>;

    fn set_cs_signal(&mut self, value: bool) -> Result<(), std::io::Error>;

    fn set_wake_signal(&mut self, value: bool) -> Result<(), std::io::Error>;

    fn set_reset_signal(&mut self, value: bool) -> Result<(), std::io::Error>;

    /// Waits up to `dur` for the interrupt line; `true` where it fired.
    fn poll_interrupt_signal(&mut self, dur: Duration) -> Result<bool, std::io::Error>;

    /// Whether the interrupt line is asserted now.
    fn get_interrupt_value(&mut self) -> Result<bool, std::io::Error>;

    /// Blocks for at least `dur`.
    fn delay(&mut self, dur: Duration);
}

/// The last known state of the NCP.
#[derive(Clone, Copy, Debug, PartialEq, Eq, Structural)]
pub enum State {
    Normal,
    Bootloader,
    Unknown,
}

/// A request to the NCP worker.
#[derive(Debug)]
pub enum Request {
    SendFrame(Vec<u8>),
    Reset { to_bootloader: bool },
    Wakeup,
}

/// The worker's answer to a request.
#[derive(Debug)]
pub enum Reply {
    Frame(Result<Vec<u8>, Error>),
    Done(Result<(), Error>),
}

/// The reply expected at each stage of the reset handshake: the NCP first
/// reports its power-on reset, then protocol version 2, then ready.
pub open spec fn expected_reset_reply(stage: u8, r: Result<ResponseModel, ErrorKind>) -> bool {
    if stage == 0 {
        r == Err::<ResponseModel, ErrorKind>(ErrorKind::UnexpectedReset(RESET_POWERON))
    } else if stage == 1 {
        r == Ok::<ResponseModel, ErrorKind>(ResponseModel::SpiProtocolVersion(SPI_PROTOCOL_VERSION))
    } else if stage == 2 {
        r == Ok::<ResponseModel, ErrorKind>(ResponseModel::SpiStatus(true))
    } else {
        false
    }
}

/// Whether `r` is the reply expected at `stage` of the reset handshake.
pub fn is_expected_reset_reply(stage: u8, r: &Result<SuccessResponse, Error>) -> (b: bool)
    ensures
        b == expected_reset_reply(stage, success_result_view(r)),
{
    match r {
        Err(Error::UnexpectedReset(code)) => stage == 0 && *code == RESET_POWERON,
        Ok(SuccessResponse::SpiProtocolVersion(v)) => stage == 1 && *v == SPI_PROTOCOL_VERSION,
        Ok(SuccessResponse::SpiStatus(ready)) => stage == 2 && *ready,
        _ => false,
    }
}

/// One device operation of the NCP driver and how it went.
pub enum DeviceEvent {
    /// A wait (the spacing before a command, or the reset pulse).
    Pause,
    ChipSelect(bool),
    Wake(bool),
    ResetLine(bool),
    /// These bytes were written.
    Wrote(Seq<u8>),
    /// A wait for the interrupt line, and whether it fired.
    Interrupt(bool),
    /// A response read to its end, or until it could not parse: these bytes,
    /// from the first one after the wait bytes.
    Received(Seq<u8>),
    /// A read handed back fewer bytes than asked; the bytes read before it.
    ShortRead(Seq<u8>),
    /// Reading past the wait bytes handed back a wait byte.
    OnlyWaitBytes,
    /// The operation failed with an I/O error.
    IoFailure,
    /// One transaction for `command`, with the operations it made.
    Transaction { command: Seq<u8>, steps: Seq<DeviceEvent> },
}

/// What a final read event means: the response, or why there is none.
pub open spec fn read_outcome(e: DeviceEvent) -> Result<ResponseModel, ErrorKind> {
    match e {
        DeviceEvent::Received(bytes) => match response_model(bytes) {
            ResponseParseModel::Complete(_, m) => Ok(m),
            _ => Err(ErrorKind::InvalidResponse),
        },
        DeviceEvent::IoFailure => Err(ErrorKind::Io),
        _ => Err(ErrorKind::InvalidResponse),
    }
}

/// The outcome of the part of a transaction under chip select: the command
/// written, the wait for the interrupt (none: `Unresponsive`), the response
/// read. `None` where `x` is no such sequence.
pub open spec fn exchange_outcome(x: Seq<DeviceEvent>, command: Seq<u8>) -> Option<
    Result<ResponseModel, ErrorKind>,
> {
    if x == seq![DeviceEvent::IoFailure] {
        Some(Err(ErrorKind::Io))
    } else if x == seq![DeviceEvent::Wrote(command), DeviceEvent::IoFailure] {
        Some(Err(ErrorKind::Io))
    } else if x == seq![DeviceEvent::Wrote(command), DeviceEvent::Interrupt(false)] {
        Some(Err(ErrorKind::Unresponsive))
    } else if x.len() == 3 && x[0] == DeviceEvent::Wrote(command) && x[1] == DeviceEvent::Interrupt(
        true,
    ) {
        Some(read_outcome(x[2]))
    } else {
        None
    }
}

/// The outcome of a transaction from its operations: the spacing, chip
/// select asserted, the exchange, and chip select released (attempted after
/// every exchange, failed or not). A response is then read as its meaning
/// for the command. `None` where `steps` is no transaction.
pub open spec fn transaction_outcome(steps: Seq<DeviceEvent>, command: Seq<u8>) -> Option<
    Result<ResponseModel, ErrorKind>,
> {
    if steps == seq![DeviceEvent::Pause, DeviceEvent::IoFailure] {
        Some(Err(ErrorKind::Io))
    } else if steps.len() >= 4 && steps[0] == DeviceEvent::Pause && steps[1]
        == DeviceEvent::ChipSelect(true) && (steps.last() == DeviceEvent::ChipSelect(false)
        || steps.last() == DeviceEvent::IoFailure) {
        match exchange_outcome(steps.subrange(2, steps.len() - 1), command) {
            None => None,
            Some(Err(e)) => Some(Err(e)),
            Some(Ok(m)) => if steps.last() == DeviceEvent::IoFailure {
                Some(Err(ErrorKind::Io))
            } else {
                Some(response_result(m))
            },
        }
    } else {
        None
    }
}

/// The outcome of a transaction event for `command`.
pub open spec fn tx_result(e: DeviceEvent, command: Seq<u8>) -> Option<Result<ResponseModel, ErrorKind>> {
    match e {
        DeviceEvent::Transaction { command: c, steps } => if c == command {
            transaction_outcome(steps, command)
        } else {
            None
        },
        _ => None,
    }
}

/// The reset pulse, with the wake line set to `wake` during it, then the
/// interrupt that announces the restarted NCP, then the wake line released.
pub open spec fn reset_pulse_events(wake: bool) -> Seq<DeviceEvent> {
    seq![
        DeviceEvent::ResetLine(true),
        DeviceEvent::Wake(wake),
        DeviceEvent::Pause,
        DeviceEvent::ResetLine(false),
        DeviceEvent::Interrupt(true),
        DeviceEvent::Wake(false),
    ]
}

/// The command of each stage of the reset handshake: protocol version twice,
/// then status.
pub open spec fn handshake_command(stage: int) -> Seq<u8> {
    if stage == 2 {
        seq![0x0Bu8, SPI_TERMINATOR]
    } else {
        seq![0x0Au8, SPI_TERMINATOR]
    }
}

/// Whether the transaction `e` of handshake stage `stage` got the expected reply.
pub open spec fn stage_ok(e: DeviceEvent, stage: int) -> bool {
    tx_result(e, handshake_command(stage)) matches Some(o) && expected_reset_reply(stage as u8, o)
}

/// The error of a handshake stage that did not get the expected reply: an
/// I/O failure or a missing interrupt as such, any other reply
/// `InvalidResponse`.
pub open spec fn stage_failure(o: Result<ResponseModel, ErrorKind>) -> ErrorKind {
    match o {
        Err(ErrorKind::Io) => ErrorKind::Io,
        Err(ErrorKind::Unresponsive) => ErrorKind::Unresponsive,
        _ => ErrorKind::InvalidResponse,
    }
}

/// The outcome of the handshake transactions `h`: each stage must get its
/// expected reply; the first that does not ends the handshake with
/// `stage_failure`; all three succeed: `Ok`.
pub open spec fn handshake_outcome(h: Seq<DeviceEvent>) -> Option<Result<(), ErrorKind>> {
    let k = h.len() - 1;
    if !(1 <= h.len() <= 3) {
        None
    } else if k >= 1 && !stage_ok(h[0], 0) {
        None
    } else if k >= 2 && !stage_ok(h[1], 1) {
        None
    } else {
        match tx_result(h[k], handshake_command(k)) {
            None => None,
            Some(o) => if expected_reset_reply(k as u8, o) {
                if k == 2 {
                    Some(Ok(()))
                } else {
                    None
                }
            } else {
                Some(Err(stage_failure(o)))
            },
        }
    }
}

/// The outcome of a reset from the operations it made: the pulse (an I/O
/// failure stops it: `Io`; no interrupt after it: `Unresponsive`), then the
/// handshake.
pub open spec fn reset_outcome(ev: Seq<DeviceEvent>, wake: bool) -> Option<Result<(), ErrorKind>> {
    let p = reset_pulse_events(wake);
    if 1 <= ev.len() <= 6 && ev.take(ev.len() - 1) == p.take(ev.len() - 1) {
        if ev.last() == DeviceEvent::IoFailure && ev.len() != 3 {
            Some(Err(ErrorKind::Io))
        } else if ev.len() == 5 && ev.last() == DeviceEvent::Interrupt(false) {
            Some(Err(ErrorKind::Unresponsive))
        } else {
            None
        }
    } else if 7 <= ev.len() <= 9 && ev.take(6) == p {
        handshake_outcome(ev.skip(6))
    } else {
        None
    }
}

/// The outcome of a wakeup from the operations it made: wake asserted, the
/// wait for the interrupt (none: `Unresponsive`), wake released (attempted
/// whether or not the interrupt came).
pub open spec fn wake_outcome(ev: Seq<DeviceEvent>) -> Option<Result<(), ErrorKind>> {
    if ev == seq![DeviceEvent::IoFailure] {
        Some(Err(ErrorKind::Io))
    } else if ev.len() == 3 && ev[0] == DeviceEvent::Wake(true) && (ev[2] == DeviceEvent::Wake(false)
        || ev[2] == DeviceEvent::IoFailure) {
        if ev[1] == DeviceEvent::IoFailure {
            Some(Err(ErrorKind::Io))
        } else if ev[1] == DeviceEvent::Interrupt(false) {
            Some(Err(ErrorKind::Unresponsive))
        } else if ev[1] == DeviceEvent::Interrupt(true) {
            if ev[2] == DeviceEvent::IoFailure {
                Some(Err(ErrorKind::Io))
            } else {
                Some(Ok(()))
            }
        } else {
            None
        }
    } else {
        None
    }
}

/// The wire form of the frame command for `data`: bootloader or EZSP.
pub open spec fn frame_command_bytes(bootloader: bool, data: Seq<u8>) -> Seq<u8> {
    seq![if bootloader {
        0xFDu8
    } else {
        0xFEu8
    }, data.len() as u8] + data + seq![SPI_TERMINATOR]
}

/// What `send` returns for a transaction outcome: the payload of a frame
/// response; `InvalidResponse` for any other response.
pub open spec fn send_outcome(o: Result<ResponseModel, ErrorKind>) -> Result<Seq<u8>, ErrorKind> {
    match o {
        Ok(ResponseModel::EzspFrame(p)) => Ok(p),
        Ok(ResponseModel::BootloaderFrame(p)) => Ok(p),
        Ok(_) => Err(ErrorKind::InvalidResponse),
        Err(e) => Err(e),
    }
}

pub open spec fn raw_view(r: &Result<RawResponse, Error>) -> Result<ResponseModel, ErrorKind> {
    match r {
        Ok(resp) => Ok(resp@),
        Err(e) => Err(error_kind(e)),
    }
}

pub open spec fn send_view(r: &Result<Vec<u8>, Error>) -> Result<Seq<u8>, ErrorKind> {
    match r {
        Ok(v) => Ok(v@),
        Err(e) => Err(error_kind(e)),
    }
}

pub open spec fn unit_view(r: &Result<(), Error>) -> Result<(), ErrorKind> {
    match r {
        Ok(()) => Ok(()),
        Err(e) => Err(error_kind(e)),
    }
}

/// `send` from `before` to `after` with result `r`. In the unknown state:
/// `NeedsReset`, and the device is not touched. Over 128 bytes:
/// `OversizedPayload`, and the device is not touched. Otherwise one
/// transaction for the frame command (bootloader frame in bootloader mode),
/// whose outcome gives the result. The state becomes unknown exactly on
/// `Unresponsive`.
pub open spec fn send_spec<D: SpiDevice>(
    before: NCP<D>,
    after: NCP<D>,
    data: Seq<u8>,
    r: Result<Seq<u8>, ErrorKind>,
) -> bool {
    let n = before.trace().len();
    &&& (r == Err::<Seq<u8>, ErrorKind>(ErrorKind::NeedsReset)) == (before.state_spec()
        == State::Unknown)
    &&& before.state_spec() == State::Unknown ==> after.trace() == before.trace()
    &&& before.state_spec() != State::Unknown && data.len() > MAX_PAYLOAD_LEN ==> {
        &&& r == Err::<Seq<u8>, ErrorKind>(ErrorKind::OversizedPayload)
        &&& after.trace() == before.trace()
    }
    &&& before.state_spec() != State::Unknown && data.len() <= MAX_PAYLOAD_LEN ==> {
        &&& after.trace().len() == n + 1
        &&& after.trace().take(n as int) == before.trace()
        &&& tx_result(
            after.trace().last(),
            frame_command_bytes(before.state_spec() == State::Bootloader, data),
        ) matches Some(o) && send_outcome(o) == r
    }
    &&& after.state_spec() == (if r == Err::<Seq<u8>, ErrorKind>(ErrorKind::Unresponsive) {
        State::Unknown
    } else {
        before.state_spec()
    })
}

/// `reset` from `before` to `after` with result `r`, whatever the state
/// before: the operations it made give the result through `reset_outcome`;
/// the errors are `Io`, `Unresponsive` and `InvalidResponse`; the state is
/// normal or bootloader on success, unknown otherwise.
pub open spec fn reset_spec<D: SpiDevice>(
    before: NCP<D>,
    after: NCP<D>,
    bootloader: bool,
    r: Result<(), ErrorKind>,
) -> bool {
    let n = before.trace().len() as int;
    &&& after.trace().take(n) == before.trace()
    &&& reset_outcome(after.trace().skip(n), bootloader) == Some(r)
    &&& r matches Err(e) ==> e is Io || e is Unresponsive || e is InvalidResponse
    &&& after.state_spec() == (if r is Ok {
        if bootloader {
            State::Bootloader
        } else {
            State::Normal
        }
    } else {
        State::Unknown
    })
}

/// `wakeup` from `before` to `after` with result `r`. In the unknown state:
/// `NeedsReset`, and the device is not touched. Otherwise the operations it
/// made give the result through `wake_outcome`, and the state becomes
/// unknown exactly on `Unresponsive`.
pub open spec fn wakeup_spec<D: SpiDevice>(
    before: NCP<D>,
    after: NCP<D>,
    r: Result<(), ErrorKind>,
) -> bool {
    let n = before.trace().len() as int;
    &&& (r == Err::<(), ErrorKind>(ErrorKind::NeedsReset)) == (before.state_spec() == State::Unknown)
    &&& before.state_spec() == State::Unknown ==> after.trace() == before.trace()
    &&& before.state_spec() != State::Unknown ==> {
        &&& after.trace().take(n) == before.trace()
        &&& wake_outcome(after.trace().skip(n)) == Some(r)
    }
    &&& after.state_spec() == (if r == Err::<(), ErrorKind>(ErrorKind::Unresponsive) {
        State::Unknown
    } else {
        before.state_spec()
    })
}

/// Appending to a sequence keeps its first `n` elements and appends to the rest.
proof fn lemma_push_split<A>(s: Seq<A>, n: int, x: A)
    requires
        0 <= n <= s.len(),
    ensures
        s.push(x).take(n) == s.take(n),
        s.push(x).skip(n) == s.skip(n).push(x),
{
    assert(s.push(x).take(n) =~= s.take(n));
    assert(s.push(x).skip(n) =~= s.skip(n).push(x));
}

/// The error a handshake stage ends with when its reply is not the expected one.
fn handshake_failure(r: Result<SuccessResponse, Error>) -> (e: Error)
    ensures
        error_kind(&e) == stage_failure(success_result_view(&r)),
{
    match r {
        Err(Error::Io(e)) => Error::Io(e),
        Err(Error::Unresponsive) => Error::Unresponsive,
        _ => Error::InvalidResponse,
    }
}

/// The NCP behind an SPI device: one transaction at a time, each framed by
/// chip select.
pub struct NCP<D: SpiDevice> {
    device: D,
    state: State,
    events: Ghost<Seq<DeviceEvent>>,
}

impl<D: SpiDevice> NCP<D> {
    /// The last known state.
    pub closed spec fn state_spec(&self) -> State {
        self.state
    }

    /// The device operations made so far, in order.
    pub closed spec fn trace(&self) -> Seq<DeviceEvent> {
        self.events@
    }

    pub fn new(device: D) -> (r: NCP<D>)
        ensures
            r.state_spec() == State::Unknown,
            r.trace() == Seq::<DeviceEvent>::empty(),
    {
        NCP { device, state: State::Unknown, events: Ghost(Seq::empty()) }
    }

    /// The last known state, not necessarily the device's true state.
    pub fn state(&self) -> (r: State)
        ensures
            r == self.state_spec(),
    {
        self.state
    }

    /// Whether the last known state accepts commands.
    pub fn is_ready(&self) -> (r: bool)
        ensures
            r == (self.state_spec() != State::Unknown),
    {
        !matches!(self.state, State::Unknown)
    }

    pub fn is_bootloader(&self) -> (r: bool)
        ensures
            r == (self.state_spec() == State::Bootloader),
    {
        matches!(self.state, State::Bootloader)
    }

    fn check_state(&self) -> (r: Result<(), Error>)
        ensures
            r is Ok <==> self.state_spec() != State::Unknown,
            r matches Err(e) ==> e is NeedsReset,
    {
        match self.state {
            State::Unknown => Err(Error::NeedsReset),
            _ => Ok(()),
        }
    }

    fn log(&mut self, event: Ghost<DeviceEvent>)
        ensures
            final(self).events@ == old(self).events@.push(event@),
            final(self).events@.drop_last() == old(self).events@,
            final(self).events@.len() == old(self).events@.len() + 1,
            final(self).state == old(self).state,
    {
        self.events = Ghost(self.events@.push(event@));
        assert(self.events@.drop_last() =~= old(self).events@);
    }

    fn pause(&mut self, dur: Duration)
        ensures
            final(self).events@ == old(self).events@.push(DeviceEvent::Pause),
            final(self).state == old(self).state,
    {
        self.device.delay(dur);
        self.log(Ghost(DeviceEvent::Pause));
    }

    fn chip_select(&mut self, value: bool) -> (r: Result<(), Error>)
        ensures
            final(self).events@ == old(self).events@.push(
                if r is Ok {
                    DeviceEvent::ChipSelect(value)
                } else {
                    DeviceEvent::IoFailure
                },
            ),
            r matches Err(e) ==> e is Io,
            final(self).state == old(self).state,
    {
        match self.device.set_cs_signal(value) {
            Ok(()) => {
                self.log(Ghost(DeviceEvent::ChipSelect(value)));
                Ok(())
            },
            Err(e) => {
                self.log(Ghost(DeviceEvent::IoFailure));
                Err(Error::Io(e))
            },
        }
    }

    fn wake_line(&mut self, value: bool) -> (r: Result<(), Error>)
        ensures
            final(self).events@ == old(self).events@.push(
                if r is Ok {
                    DeviceEvent::Wake(value)
                } else {
                    DeviceEvent::IoFailure
                },
            ),
            r matches Err(e) ==> e is Io,
            final(self).state == old(self).state,
    {
        match self.device.set_wake_signal(value) {
            Ok(()) => {
                self.log(Ghost(DeviceEvent::Wake(value)));
                Ok(())
            },
            Err(e) => {
                self.log(Ghost(DeviceEvent::IoFailure));
                Err(Error::Io(e))
            },
        }
    }

    fn reset_line(&mut self, value: bool) -> (r: Result<(), Error>)
        ensures
            final(self).events@ == old(self).events@.push(
                if r is Ok {
                    DeviceEvent::ResetLine(value)
                } else {
                    DeviceEvent::IoFailure
                },
            ),
            r matches Err(e) ==> e is Io,
            final(self).state == old(self).state,
    {
        match self.device.set_reset_signal(value) {
            Ok(()) => {
                self.log(Ghost(DeviceEvent::ResetLine(value)));
                Ok(())
            },
            Err(e) => {
                self.log(Ghost(DeviceEvent::IoFailure));
                Err(Error::Io(e))
            },
        }
    }

    fn write_bytes(&mut self, buf: &[u8]) -> (r: Result<(), Error>)
        ensures
            final(self).events@ == old(self).events@.push(
                if r is Ok {
                    DeviceEvent::Wrote(buf@)
                } else {
                    DeviceEvent::IoFailure
                },
            ),
            r matches Err(e) ==> e is Io,
            final(self).state == old(self).state,
    {
        match self.device.write(buf) {
            Ok(()) => {
                self.log(Ghost(DeviceEvent::Wrote(buf@)));
                Ok(())
            },
            Err(e) => {
                self.log(Ghost(DeviceEvent::IoFailure));
                Err(Error::Io(e))
            },
        }
    }

    fn wait_interrupt(&mut self, dur: Duration) -> (r: Result<bool, Error>)
        ensures
            final(self).events@ == old(self).events@.push(
                match r {
                    Ok(fired) => DeviceEvent::Interrupt(fired),
                    Err(_) => DeviceEvent::IoFailure,
                },
            ),
            r matches Err(e) ==> e is Io,
            final(self).state == old(self).state,
    {
        match self.device.poll_interrupt_signal(dur) {
            Ok(fired) => {
                self.log(Ghost(DeviceEvent::Interrupt(fired)));
                Ok(fired)
            },
            Err(e) => {
                self.log(Ghost(DeviceEvent::IoFailure));
                Err(Error::Io(e))
            },
        }
    }

    /// Whether the NCP signals a waiting callback.
    pub fn has_callback(&mut self) -> (r: Result<bool, Error>)
        ensures
            final(self).state_spec() == old(self).state_spec(),
            final(self).trace() == old(self).trace(),
            r matches Err(e) ==> e is Io,
    {
        match self.device.get_interrupt_value() {
            Ok(v) => Ok(v),
            Err(e) => Err(Error::Io(e)),
        }
    }

    /// Reads a response after the wait bytes: parses what was read and reads
    /// as many more bytes as the parse asks for. Records one read event,
    /// which gives the result through `read_outcome`.
    fn read_response(&mut self) -> (r: Result<RawResponse, Error>)
        ensures
            final(self).state == old(self).state,
            final(self).events@.len() == old(self).events@.len() + 1,
            final(self).events@.drop_last() == old(self).events@,
            read_outcome(final(self).events@.last()) == raw_view(&r),
    {
        let first = match self.device.drop_until_non_ff() {
            Ok(b) => b,
            Err(e) => {
                self.log(Ghost(DeviceEvent::IoFailure));
                return Err(Error::Io(e));
            },
        };
        if first == 0xFF {
            self.log(Ghost(DeviceEvent::OnlyWaitBytes));
            return Err(Error::InvalidResponse);
        }
        let mut buf: Vec<u8> = vec![first];
        loop
            invariant
                1 <= buf.len() <= 258,
                self.state == old(self).state,
                self.events == old(self).events,
            decreases 258 - buf.len(),
        {
            match RawResponse::parse(buf.as_slice()) {
                ResponseParse::Incomplete(n) => {
                    proof {
                        lemma_incomplete_bound(buf@);
                    }
                    let more = match self.device.read(n) {
                        Ok(v) => v,
                        Err(e) => {
                            self.log(Ghost(DeviceEvent::IoFailure));
                            return Err(Error::Io(e));
                        },
                    };
                    if more.len() != n {
                        self.log(Ghost(DeviceEvent::ShortRead(buf@)));
                        return Err(Error::InvalidResponse);
                    }
                    buf.extend_from_slice(more.as_slice());
                },
                ResponseParse::Complete(_, response) => {
                    self.log(Ghost(DeviceEvent::Received(buf@)));
                    return Ok(response);
                },
                ResponseParse::Invalid => {
                    self.log(Ghost(DeviceEvent::Received(buf@)));
                    return Err(Error::InvalidResponse);
                },
            }
        }
    }

    /// Writes the command and reads the response, chip select asserted.
    fn exchange(&mut self, command: &Command) -> (r: Result<RawResponse, Error>)
        requires
            payload_len(command) <= 255,
        ensures
            final(self).state == (if r matches Err(Error::Unresponsive) {
                State::Unknown
            } else {
                old(self).state
            }),
            final(self).events@.take(old(self).events@.len() as int) == old(self).events@,
            final(self).events@.len() > old(self).events@.len(),
            exchange_outcome(
                final(self).events@.skip(old(self).events@.len() as int),
                command_bytes(command),
            ) == Some(raw_view(&r)),
    {
        let ghost e0 = self.events@;
        let ghost n = e0.len() as int;
        let ghost cmd = command_bytes(command);
        let mut buf: Vec<u8> = Vec::new();
        command.serialize(&mut buf);
        assert(buf@ =~= cmd);
        if let Err(e) = self.write_bytes(buf.as_slice()) {
            assert(self.events@.skip(n) =~= seq![DeviceEvent::IoFailure]);
            assert(self.events@.take(n) =~= e0);
            return Err(e);
        }
        let fired = self.wait_interrupt(Duration::from_millis(RESPONSE_TIMEOUT_MS));
        match fired {
            Ok(true) => {
                let ghost mid = self.events@;
                let r = self.read_response();
                proof {
                    let e = self.events@;
                    assert(mid == e0.push(DeviceEvent::Wrote(cmd)).push(DeviceEvent::Interrupt(true)));
                    assert(e.drop_last() == mid);
                    assert(e[n] == mid[n]);
                    assert(e[n + 1] == mid[n + 1]);
                    assert(e.take(n) =~= e0);
                    assert(e.skip(n) =~= seq![DeviceEvent::Wrote(cmd), DeviceEvent::Interrupt(true), e.last()]);
                }
                r
            },
            Ok(false) => {
                self.state = State::Unknown;
                assert(self.events@.take(n) =~= e0);
                assert(self.events@.skip(n) =~= seq![DeviceEvent::Wrote(cmd), DeviceEvent::Interrupt(false)]);
                Err(Error::Unresponsive)
            },
            Err(e) => {
                assert(self.events@.take(n) =~= e0);
                assert(self.events@.skip(n) =~= seq![DeviceEvent::Wrote(cmd), DeviceEvent::IoFailure]);
                Err(e)
            },
        }
    }

    /// One transaction, whatever the last known state: waits out the command
    /// spacing, asserts chip select, exchanges, and releases chip select
    /// whether or not the exchange succeeded. Records one transaction event.
    fn transact(&mut self, command: &Command) -> (r: Result<SuccessResponse, Error>)
        requires
            payload_len(command) <= 255,
        ensures
            final(self).state == (if r matches Err(Error::Unresponsive) {
                State::Unknown
            } else {
                old(self).state
            }),
            final(self).events@.len() == old(self).events@.len() + 1,
            final(self).events@.drop_last() == old(self).events@,
            tx_result(final(self).events@.last(), command_bytes(command)) == Some(
                success_result_view(&r),
            ),
    {
        let ghost e0 = self.events@;
        let ghost n = e0.len() as int;
        let ghost cmd = command_bytes(command);
        self.pause(Duration::from_millis(INTER_COMMAND_SPACING_MS));
        let res = match self.chip_select(true) {
            Err(e) => {
                assert(self.events@.skip(n) =~= seq![DeviceEvent::Pause, DeviceEvent::IoFailure]);
                Err(e)
            },
            Ok(()) => {
                let ghost e1 = self.events@;
                let ex = self.exchange(command);
                let ghost e2 = self.events@;
                let released = self.chip_select(false);
                proof {
                    let e3 = self.events@;
                    let steps = e3.skip(n);
                    assert(e1 == e0.push(DeviceEvent::Pause).push(DeviceEvent::ChipSelect(true)));
                    assert(e1.len() == n + 2);
                    assert(e2.len() >= n + 3);
                    assert(e3.len() == e2.len() + 1);
                    assert(e2.take(n + 2) == e1);
                    assert(e2[n] == e1[n]);
                    assert(e2[n + 1] == e1[n + 1]);
                    assert(steps.subrange(2, steps.len() - 1) =~= e2.skip(n + 2));
                    assert(steps[0] == DeviceEvent::Pause);
                    assert(steps[1] == DeviceEvent::ChipSelect(true));
                    assert(steps.last() == e3.last());
                    assert(e2.skip(n + 2).len() >= 1);
                }
                match ex {
                    Err(e) => Err(e),
                    Ok(response) => match released {
                        Err(e) => Err(e),
                        Ok(()) => response.into_result(),
                    },
                }
            },
        };
        let ghost steps = self.events@.skip(n);
        self.events = Ghost(e0.push(DeviceEvent::Transaction { command: cmd, steps }));
        assert(self.events@.drop_last() =~= e0);
        res
    }

    /// Sends a frame (a bootloader frame in bootloader mode, an EZSP frame
    /// otherwise) and returns the frame the NCP answers with; see `send_spec`.
    pub fn send(&mut self, data: Vec<u8>) -> (r: Result<Vec<u8>, Error>)
        ensures
            send_spec(*old(self), *final(self), data@, send_view(&r)),
    {
        if let Err(e) = self.check_state() {
            return Err(e);
        }
        if data.len() > MAX_PAYLOAD_LEN {
            return Err(Error::OversizedPayload);
        }
        let ghost d = data@;
        let ghost n = self.events@.len() as int;
        let command = if self.is_bootloader() {
            Command::BootloaderFrame(data)
        } else {
            Command::EzspFrame(data)
        };
        assert(command_bytes(&command) =~= frame_command_bytes(self.state == State::Bootloader, d));
        let res = self.transact(&command);
        assert(self.events@.take(n) =~= self.events@.drop_last());
        match res {
            Ok(SuccessResponse::BootloaderFrame(inner)) | Ok(SuccessResponse::EzspFrame(inner)) => Ok(
                inner,
            ),
            Ok(_) => Err(Error::InvalidResponse),
            Err(e) => Err(e),
        }
    }

    /// Pulses the reset line, with the wake line asserted during the pulse
    /// where `wake`.
    fn pulse_reset(&mut self, wake: bool) -> (r: Result<(), Error>)
        ensures
            final(self).state == old(self).state,
            r matches Err(e) ==> e is Io,
            ({
                let n = old(self).events@.len() as int;
                let ev = final(self).events@.skip(n);
                &&& final(self).events@.take(n) == old(self).events@
                &&& final(self).events@.len() >= n
                &&& r is Ok ==> ev == reset_pulse_events(wake).take(4)
                    && final(self).events@.len() == n + 4
                &&& r is Err ==> 1 <= ev.len() <= 4 && ev.len() != 3 && ev.last()
                    == DeviceEvent::IoFailure && ev.take(ev.len() - 1) == reset_pulse_events(
                    wake,
                ).take(ev.len() - 1)
            }),
    {
        let ghost e0 = self.events@;
        let ghost n = e0.len() as int;
        let ghost p = reset_pulse_events(wake);
        if let Err(e) = self.reset_line(true) {
            assert(self.events@.skip(n) =~= seq![DeviceEvent::IoFailure]);
            assert(self.events@.take(n) =~= e0);
            assert(self.events@.skip(n).take(0) =~= p.take(0));
            return Err(e);
        }
        if let Err(e) = self.wake_line(wake) {
            assert(self.events@.skip(n) =~= seq![DeviceEvent::ResetLine(true), DeviceEvent::IoFailure]);
            assert(self.events@.take(n) =~= e0);
            assert(self.events@.skip(n).take(1) =~= p.take(1));
            return Err(e);
        }
        self.pause(Duration::from_micros(RESET_PULSE_TIME_US));
        let r = self.reset_line(false);
        proof {
            let ev = self.events@.skip(n);
            assert(self.events@.take(n) =~= e0);
            if r is Ok {
                assert(ev =~= p.take(4));
            } else {
                assert(ev.take(3) =~= p.take(3));
            }
        }
        r
    }

    /// Resets the NCP, into the bootloader where `bootloader`, and checks the
    /// handshake: a reported power-on reset, protocol version 2, then ready;
    /// see `reset_spec` and `reset_outcome`.
    pub fn reset(&mut self, bootloader: bool) -> (r: Result<(), Error>)
        ensures
            reset_spec(*old(self), *final(self), bootloader, unit_view(&r)),
    {
        let ghost e0 = self.events@;
        let ghost n = e0.len() as int;
        let ghost p = reset_pulse_events(bootloader);
        self.state = State::Unknown;
        if let Err(e) = self.pulse_reset(bootloader) {
            return Err(e);
        }
        let ghost ep = self.events@;
        assert(ep.len() == n + 4);
        let fired = self.wait_interrupt(Duration::from_millis(RESET_STARTUP_TIME_MS));
        proof {
            lemma_push_split(ep, n, self.events@.last());
            assert(self.events@.skip(n).take(4) =~= p.take(4));
        }
        match fired {
            Ok(true) => {},
            Ok(false) => {
                return Err(Error::Unresponsive);
            },
            Err(e) => {
                return Err(e);
            },
        }
        let ghost ei = self.events@;
        if let Err(e) = self.wake_line(false) {
            proof {
                lemma_push_split(ei, n, DeviceEvent::IoFailure);
                assert(self.events@.skip(n).take(5) =~= p.take(5));
            }
            return Err(e);
        }
        proof {
            lemma_push_split(ei, n, DeviceEvent::Wake(false));
        }
        let ghost t0 = self.events@;
        assert(t0.skip(n) =~= p);
        assert(t0.take(n) =~= e0);
        let version_command = Command::SpiProtocolVersion;
        let status_command = Command::SpiStatus;
        assert(command_bytes(&version_command) =~= handshake_command(0));
        assert(command_bytes(&version_command) =~= handshake_command(1));
        assert(command_bytes(&status_command) =~= handshake_command(2));
        let first = self.transact(&version_command);
        let ghost t1 = self.events@;
        assert(t1.take(n) =~= e0);
        assert(t1.skip(n).take(6) =~= p);
        assert(t1.skip(n).skip(6) =~= seq![t1.last()]);
        if !is_expected_reset_reply(0, &first) {
            self.state = State::Unknown;
            return Err(handshake_failure(first));
        }
        let second = self.transact(&version_command);
        let ghost t2 = self.events@;
        assert(t2.take(n) =~= e0);
        assert(t2.skip(n).take(6) =~= p);
        assert(t2.skip(n).skip(6) =~= seq![t1.last(), t2.last()]);
        if !is_expected_reset_reply(1, &second) {
            self.state = State::Unknown;
            return Err(handshake_failure(second));
        }
        let third = self.transact(&status_command);
        let ghost t3 = self.events@;
        assert(t3.take(n) =~= e0);
        assert(t3.skip(n).take(6) =~= p);
        assert(t3.skip(n).skip(6) =~= seq![t1.last(), t2.last(), t3.last()]);
        if !is_expected_reset_reply(2, &third) {
            self.state = State::Unknown;
            return Err(handshake_failure(third));
        }
        self.state = if bootloader {
            State::Bootloader
        } else {
            State::Normal
        };
        Ok(())
    }

    pub fn reset_to_bootloader(&mut self) -> (r: Result<(), Error>)
        ensures
            reset_spec(*old(self), *final(self), true, unit_view(&r)),
    {
        self.reset(true)
    }

    /// Asserts the wake line, waits for the interrupt, and releases the line
    /// whether or not the interrupt came; see `wakeup_spec`.
    pub fn wakeup(&mut self) -> (r: Result<(), Error>)
        ensures
            wakeup_spec(*old(self), *final(self), unit_view(&r)),
    {
        if let Err(e) = self.check_state() {
            return Err(e);
        }
        let ghost e0 = self.events@;
        let ghost n = e0.len() as int;
        if let Err(e) = self.wake_line(true) {
            assert(self.events@.skip(n) =~= seq![DeviceEvent::IoFailure]);
            assert(self.events@.take(n) =~= e0);
            return Err(e);
        }
        let fired = self.wait_interrupt(Duration::from_millis(WAKE_HANDSHAKE_TIMEOUT_MS));
        let released = self.wake_line(false);
        proof {
            let e = self.events@;
            assert(e.take(n) =~= e0);
            assert(e.skip(n) =~= seq![DeviceEvent::Wake(true), e[n + 1], e[n + 2]]);
        }
        match fired {
            Err(e) => Err(e),
            Ok(false) => {
                self.state = State::Unknown;
                Err(Error::Unresponsive)
            },
            Ok(true) => match released {
                Ok(()) => Ok(()),
                Err(e) => Err(e),
            },
        }
    }

    /// Serves one request of the worker's mailbox.
    pub fn handle_request(&mut self, request: Request) -> (r: Reply)
        ensures
            request matches Request::SendFrame(data) ==> r matches Reply::Frame(res) && send_spec(
                *old(self),
                *final(self),
                data@,
                send_view(&res),
            ),
            request matches Request::Reset { to_bootloader } ==> r matches Reply::Done(res)
                && reset_spec(*old(self), *final(self), to_bootloader, unit_view(&res)),
            request is Wakeup ==> (r matches Reply::Done(res) && wakeup_spec(
                *old(self),
                *final(self),
                unit_view(&res),
            )),
    {
        match request {
            Request::SendFrame(frame) => Reply::Frame(self.send(frame)),
            Request::Reset { to_bootloader } => Reply::Done(self.reset(to_bootloader)),
            Request::Wakeup => Reply::Done(self.wakeup()),
        }
    }

    pub fn into_inner(self) -> D {
        self.device
    }
}

} // verus!
