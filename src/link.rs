use vstd::prelude::*;
use crate::constants::{ASH_VERSION_2, ERROR_CUSTOM, RESET_POWERON};
use crate::frame::{result_view, Error, ErrorModel, Frame, FrameModel};
use crate::frame_number::{wrapped_add_spec, FrameNumber};

verus! {

/// The value of the link state.
pub enum StateModel {
    Failed { reason: u8 },
    Connected { reject: bool, inflight: u8, acked: u8 },
}

/// What the link asks its driver to do after one inbound item.
pub enum ActionModel {
    /// Nothing.
    Idle,
    /// Send this frame to the host.
    Send(FrameModel),
    /// Reset the NCP and report the reset code through `reset_complete`.
    ResetNcp,
    /// Hand this payload to the NCP and acknowledge up to `ack_num`.
    Deliver { payload: Seq<u8>, ack_num: u8 },
}

/// An inbound item: a decoded frame or a soft decoding error.
pub type EventModel = Result<FrameModel, ErrorModel>;

/// The link before a reset completes: every frame but RST is answered with
/// ERROR(version 2, reason).
#[derive(Clone, Copy, Debug)]
pub struct FailedState {
    pub reason: u8,
}

/// The link after a reset.
#[derive(Clone, Copy, Debug)]
pub struct ConnectedState {
    /// Set after a NAK; no other NAK is sent until an in-sequence DATA frame.
    pub reject: bool,
    /// The number of the last DATA frame taken in; the next must be one more.
    pub inflight_frame_number: FrameNumber,
    /// The number of the last frame the host acknowledged.
    pub acked_frame_number: FrameNumber,
}

#[derive(Clone, Copy, Debug)]
pub enum State {
    Failed(FailedState),
    Connected(ConnectedState),
}

/// An action for the driver of the link.
#[derive(Clone, Debug)]
pub enum Action {
    Idle,
    Send(Frame),
    ResetNcp,
    Deliver { payload: Vec<u8>, ack_num: FrameNumber },
}

impl View for State {
    type V = StateModel;

    open spec fn view(&self) -> StateModel {
        match self {
            State::Failed(s) => StateModel::Failed { reason: s.reason },
            State::Connected(s) => StateModel::Connected {
                reject: s.reject,
                inflight: s.inflight_frame_number@,
                acked: s.acked_frame_number@,
            },
        }
    }
}

impl View for Action {
    type V = ActionModel;

    open spec fn view(&self) -> ActionModel {
        match self {
            Action::Idle => ActionModel::Idle,
            Action::Send(f) => ActionModel::Send(f@),
            Action::ResetNcp => ActionModel::ResetNcp,
            Action::Deliver { payload, ack_num } => ActionModel::Deliver {
                payload: payload@,
                ack_num: ack_num@,
            },
        }
    }
}

/// The frame number that the next DATA frame must carry.
pub open spec fn expected_frame(inflight: u8) -> int {
    wrapped_add_spec(inflight as int, 1)
}

/// Entering (or staying in) the reject condition for frame `frm_num`: a NAK
/// only where the condition was not already set.
pub open spec fn reject_step(reject: bool, inflight: u8, acked: u8, frm_num: u8) -> (
    StateModel,
    ActionModel,
) {
    if reject {
        (StateModel::Connected { reject, inflight, acked }, ActionModel::Idle)
    } else {
        (
            StateModel::Connected { reject: true, inflight, acked },
            ActionModel::Send(FrameModel::Nak { res: false, n_rdy: false, ack_num: frm_num }),
        )
    }
}

/// A DATA frame while connected: out of sequence, or with the window
/// exhausted, it is rejected; else it is taken in, the reject condition
/// clears, and its body is delivered.
pub open spec fn data_step(
    reject: bool,
    inflight: u8,
    acked: u8,
    frm_num: u8,
    body: Seq<u8>,
) -> (StateModel, ActionModel) {
    if frm_num != expected_frame(inflight) {
        reject_step(reject, inflight, acked, frm_num)
    } else if (inflight - acked) % 8 > 7 {
        reject_step(reject, inflight, acked, frm_num)
    } else {
        (
            StateModel::Connected {
                reject: false,
                inflight: wrapped_add_spec(inflight as int, 1) as u8,
                acked,
            },
            ActionModel::Deliver {
                payload: body,
                ack_num: wrapped_add_spec(frm_num as int, 1) as u8,
            },
        )
    }
}

/// One inbound item in a state.
/// Failed: RST asks for an NCP reset; anything else is answered with ERROR.
/// Connected: DATA goes through `data_step`; a DATA frame with a bad checksum
/// or length is rejected like an out-of-sequence one; RST asks for an NCP
/// reset; an unknown frame, or a frame that only an NCP sends (RSTACK,
/// ERROR), is a protocol violation and fails the link; ACK, NAK and other
/// decoding errors are ignored.
pub open spec fn step_model(s: StateModel, e: EventModel) -> (StateModel, ActionModel) {
    match s {
        StateModel::Failed { reason } => match e {
            Ok(FrameModel::Rst) => (s, ActionModel::ResetNcp),
            _ => (s, ActionModel::Send(FrameModel::Error { version: ASH_VERSION_2, code: reason })),
        },
        StateModel::Connected { reject, inflight, acked } => match e {
            Ok(FrameModel::Data { frm_num, body, .. }) => data_step(
                reject,
                inflight,
                acked,
                frm_num,
                body,
            ),
            Err(ErrorModel::InvalidChecksum(FrameModel::Data { frm_num, .. })) => reject_step(
                reject,
                inflight,
                acked,
                frm_num,
            ),
            Err(ErrorModel::InvalidDataField(FrameModel::Data { frm_num, .. })) => reject_step(
                reject,
                inflight,
                acked,
                frm_num,
            ),
            Ok(FrameModel::Rst) => (s, ActionModel::ResetNcp),
            Ok(FrameModel::RstAck { .. }) => (
                StateModel::Failed { reason: ERROR_CUSTOM },
                ActionModel::Idle,
            ),
            Ok(FrameModel::Error { .. }) => (
                StateModel::Failed { reason: ERROR_CUSTOM },
                ActionModel::Idle,
            ),
            Err(ErrorModel::UnknownFrame) => (
                StateModel::Failed { reason: ERROR_CUSTOM },
                ActionModel::Idle,
            ),
            _ => (s, ActionModel::Idle),
        },
    }
}

impl Default for FailedState {
    fn default() -> (r: FailedState)
        ensures
            r.reason == RESET_POWERON,
    {
        FailedState { reason: RESET_POWERON }
    }
}

impl Default for ConnectedState {
    fn default() -> (r: ConnectedState)
        ensures
            !r.reject,
            r.inflight_frame_number@ == 0,
            r.acked_frame_number@ == 0,
    {
        ConnectedState {
            reject: false,
            inflight_frame_number: FrameNumber::zero(),
            acked_frame_number: FrameNumber::zero(),
        }
    }
}

impl ConnectedState {
    fn set_reject_condition_and_send_nak(&mut self, frm_num: FrameNumber) -> (r: Action)
        ensures
            (State::Connected(*final(self))@, r@) == reject_step(
                old(self).reject,
                old(self).inflight_frame_number@,
                old(self).acked_frame_number@,
                frm_num@,
            ),
    {
        if !self.reject {
            self.reject = true;
            Action::Send(Frame::nak(false, frm_num))
        } else {
            Action::Idle
        }
    }

    pub fn clear_reject_condition(&mut self)
        ensures
            *final(self) == (ConnectedState { reject: false, ..*old(self) }),
    {
        self.reject = false;
    }

    fn process_data_frame(&mut self, frm_num: FrameNumber, body: Vec<u8>) -> (r: Action)
        ensures
            (State::Connected(*final(self))@, r@) == data_step(
                old(self).reject,
                old(self).inflight_frame_number@,
                old(self).acked_frame_number@,
                frm_num@,
                body@,
            ),
    {
        let inflight = self.inflight_frame_number.value();
        let acked = self.acked_frame_number.value();
        if frm_num.value() != self.inflight_frame_number.add(1).value() {
            return self.set_reject_condition_and_send_nak(frm_num);
        }
        if (inflight + 8 - acked) % 8 > 7 {
            return self.set_reject_condition_and_send_nak(frm_num);
        }
        self.inflight_frame_number.add_assign(1);
        self.clear_reject_condition();
        Action::Deliver { payload: body, ack_num: frm_num.add(1) }
    }
}

impl State {
    /// The state when a link starts: failed, with the power-on reason.
    pub fn initial() -> (r: State)
        ensures
            r@ == (StateModel::Failed { reason: RESET_POWERON }),
    {
        State::Failed(FailedState::default())
    }

    /// Takes one inbound item and says what to do.
    pub fn process(&mut self, item: Result<Frame, Error>) -> (r: Action)
        ensures
            (final(self)@, r@) == step_model(old(self)@, result_view(item)),
    {
        match self {
            State::Failed(failed) => match item {
                Ok(Frame::Rst) => Action::ResetNcp,
                _ => Action::Send(Frame::error(ASH_VERSION_2, failed.reason)),
            },
            State::Connected(connected) => match item {
                Ok(Frame::Data { frm_num, body, .. }) => connected.process_data_frame(frm_num, body),
                Err(Error::InvalidChecksum(Frame::Data { frm_num, .. })) => {
                    connected.set_reject_condition_and_send_nak(frm_num)
                },
                Err(Error::InvalidDataField(Frame::Data { frm_num, .. })) => {
                    connected.set_reject_condition_and_send_nak(frm_num)
                },
                Ok(Frame::Rst) => Action::ResetNcp,
                Ok(Frame::RstAck { .. }) | Ok(Frame::Error { .. }) | Err(Error::UnknownFrame) => {
                    *self = State::Failed(FailedState { reason: ERROR_CUSTOM });
                    Action::Idle
                },
                _ => Action::Idle,
            },
        }
    }

    /// The NCP has been reset with reason `code`: the link is connected
    /// afresh, and the returned RSTACK(version 2, code) goes to the host.
    pub fn reset_complete(&mut self, code: u8) -> (r: Frame)
        ensures
            final(self)@ == (StateModel::Connected { reject: false, inflight: 0, acked: 0 }),
            r@ == (FrameModel::RstAck { version: ASH_VERSION_2, code }),
    {
        *self = State::Connected(ConnectedState::default());
        Frame::rst_ack(ASH_VERSION_2, code)
    }

    /// The link fails with `reason` (an unresponsive NCP, for one).
    pub fn fail(&mut self, reason: u8)
        ensures
            final(self)@ == (StateModel::Failed { reason }),
    {
        *self = State::Failed(FailedState { reason });
    }

    pub fn is_connected(&self) -> (r: bool)
        ensures
            r == (self@ is Connected),
    {
        match self {
            State::Connected(_) => true,
            State::Failed(_) => false,
        }
    }
}

/// Right after a reset, further RST frames and bad frames from the host are
/// dropped: whether `item` is one of them.
pub fn discard_after_reset(item: &Result<Frame, Error>) -> (r: bool)
    ensures
        r == (item is Err || item matches Ok(Frame::Rst)),
{
    match item {
        Ok(Frame::Rst) => true,
        Ok(_) => false,
        Err(_) => true,
    }
}

/// While the reject condition is set, no item brings a NAK, and the condition
/// clears only with the in-sequence DATA frame, whose body is delivered.
pub proof fn lemma_reject_suppresses_nak(s: StateModel, e: EventModel)
    requires
        s matches StateModel::Connected { reject: true, .. },
    ensures
        !(step_model(s, e).1 matches ActionModel::Send(FrameModel::Nak { .. })),
        step_model(s, e).0 matches StateModel::Connected { reject: false, .. } ==> {
            &&& s matches StateModel::Connected { inflight, .. }
            &&& e matches Ok(FrameModel::Data { frm_num, body, .. })
            &&& frm_num == expected_frame(inflight)
            &&& step_model(s, e).1 matches ActionModel::Deliver { payload, .. }
            &&& payload == body
        },
{
}

} // verus!
