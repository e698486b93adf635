use vstd::prelude::*;
use bytes::BytesMut;
use vstd::slice::slice_subrange;
use crate::buffer::{advance_bytes, bytes_of, copy_bytes, put_bytes, reserve_bytes};
use crate::checksum::crc_ccitt;
use crate::constants::{CANCEL_BYTE, FLAG_BYTE, SUB_BYTE};
use crate::escaping::{
    lemma_stuffed_has_no_framing_bytes, lemma_unstuff_stuffed, stuff_byte, stuffed,
};
use crate::frame::{
    bit, carried_checksum, control_byte, data_field_ok, encoded, first_flag, find_flag, frame_of, frame_wf, header_of,
    lemma_first_flag, parse_model, raw_frame, with_checksum, Error,
    ErrorModel, Frame, FrameModel, ParseModel,
};
use crate::randomizer::{lemma_randomized_involution, randomized};

verus! {

/// SUBSTITUTE, CANCEL or FLAG: the bytes that recovery looks for.
pub open spec fn is_framing_byte(b: u8) -> bool {
    b == SUB_BYTE || b == CANCEL_BYTE || b == FLAG_BYTE
}

/// The index of the first SUBSTITUTE, CANCEL or FLAG in `s`, or -1.
pub open spec fn first_framing_byte(s: Seq<u8>) -> int
    decreases s.len(),
{
    if s.len() == 0 {
        -1
    } else if is_framing_byte(s[0]) {
        0
    } else {
        let r = first_framing_byte(s.skip(1));
        if r < 0 {
            -1
        } else {
            r + 1
        }
    }
}

/// Recovery from framing errors before a parse, from the `dropping` state and
/// the buffer `s`: the new `dropping` state and how many bytes are dropped.
/// While dropping, everything through the next FLAG goes. Otherwise, at the
/// first SUBSTITUTE, CANCEL or FLAG: a FLAG after other bytes ends the
/// recovery (a frame may start here); a FLAG in first place (an empty frame)
/// or a CANCEL is dropped with what precedes it; a SUBSTITUTE too, and
/// dropping starts.
pub open spec fn dropped(dropping: bool, s: Seq<u8>) -> (bool, nat)
    decreases s.len(),
{
    if dropping {
        let p = first_flag(s);
        if 0 <= p < s.len() {
            let r = dropped(false, s.skip(p + 1));
            (r.0, r.1 + (p + 1) as nat)
        } else {
            (true, s.len())
        }
    } else {
        let p = first_framing_byte(s);
        if 0 <= p < s.len() {
            if s[p] == FLAG_BYTE && p > 0 {
                (false, 0)
            } else {
                let r = dropped(s[p] == SUB_BYTE, s.skip(p + 1));
                (r.0, r.1 + (p + 1) as nat)
            }
        } else {
            (false, 0)
        }
    }
}

/// What one call of `decode` hands back.
pub enum DecodeModel {
    /// More bytes are needed.
    NeedMore,
    /// A frame was decoded.
    Frame(FrameModel),
    /// A bad frame was consumed; decoding can go on.
    Soft(ErrorModel),
    /// An unknown frame was consumed; the caller should surface it.
    Hard(ErrorModel),
}

/// One call of `decode` from the `dropping` state on the buffer `s`: the new
/// `dropping` state, how many bytes leave the buffer, and the outcome.
pub open spec fn decode_model(dropping: bool, s: Seq<u8>) -> (bool, nat, DecodeModel) {
    let (d, n) = dropped(dropping, s);
    match parse_model(s.skip(n as int)) {
        ParseModel::Incomplete => (d, n, DecodeModel::NeedMore),
        ParseModel::Complete { consumed, result } => (
            d,
            n + consumed,
            match result {
                Ok(f) => DecodeModel::Frame(f),
                Err(ErrorModel::UnknownFrame) => DecodeModel::Hard(ErrorModel::UnknownFrame),
                Err(e) => DecodeModel::Soft(e),
            },
        ),
    }
}

pub proof fn lemma_first_framing_byte(s: Seq<u8>, i: int)
    requires
        0 <= i <= s.len(),
        forall|j: int| 0 <= j < i ==> !is_framing_byte(s[j]),
        i < s.len() ==> is_framing_byte(s[i]),
    ensures
        first_framing_byte(s) == (if i < s.len() {
            i
        } else {
            -1
        }),
    decreases i,
{
    if i > 0 {
        let t = s.skip(1);
        assert forall|j: int| 0 <= j < i - 1 implies !is_framing_byte(t[j]) by {
            assert(t[j] == s[j + 1]);
        }
        lemma_first_framing_byte(t, i - 1);
    }
}

/// `first_flag` is -1 or the position of a FLAG with none before it.
pub proof fn lemma_first_flag_props(s: Seq<u8>)
    ensures
        -1 <= first_flag(s) < s.len(),
        first_flag(s) >= 0 ==> s[first_flag(s)] == FLAG_BYTE,
        forall|j: int|
            0 <= j < (if first_flag(s) < 0 {
                s.len() as int
            } else {
                first_flag(s)
            }) ==> s[j] != FLAG_BYTE,
    decreases s.len(),
{
    if s.len() > 0 && s[0] != FLAG_BYTE {
        let t = s.skip(1);
        lemma_first_flag_props(t);
        assert forall|j: int|
            0 <= j < (if first_flag(s) < 0 {
                s.len() as int
            } else {
                first_flag(s)
            }) implies s[j] != FLAG_BYTE by {
            if j > 0 {
                assert(s[j] == t[j - 1]);
            }
        }
    }
}

/// No recovery drops more than the buffer holds.
pub proof fn lemma_dropped_bound(dropping: bool, s: Seq<u8>)
    ensures
        dropped(dropping, s).1 <= s.len(),
        dropped(dropping, s).0 ==> dropped(dropping, s).1 == s.len(),
    decreases s.len(),
{
    if dropping {
        let p = first_flag(s);
        if 0 <= p < s.len() {
            lemma_dropped_bound(false, s.skip(p + 1));
        }
    } else {
        let p = first_framing_byte(s);
        if 0 <= p < s.len() && !(s[p] == FLAG_BYTE && p > 0) {
            lemma_dropped_bound(s[p] == SUB_BYTE, s.skip(p + 1));
        }
    }
}

/// Finds the first SUBSTITUTE, CANCEL or FLAG at or after `from`.
fn find_framing_byte(input: &[u8], from: usize) -> (r: Option<usize>)
    requires
        from <= input.len(),
    ensures
        r matches Some(i) ==> from <= i < input.len() && is_framing_byte(input[i as int]),
        forall|j: int|
            from <= j < (match r {
                Some(i) => i as int,
                None => input.len() as int,
            }) ==> !is_framing_byte(input[j]),
{
    let mut i = from;
    while i < input.len()
        invariant
            from <= i <= input.len(),
            forall|j: int| from <= j < i ==> !is_framing_byte(input[j]),
        decreases input.len() - i,
    {
        let b = input[i];
        if b == SUB_BYTE || b == CANCEL_BYTE || b == FLAG_BYTE {
            return Some(i);
        }
        i += 1;
    }
    None
}

/// The ASH decoder: byte-level framing with recovery from cancelled and
/// substituted frames.
#[derive(Debug)]
pub struct AshCodec {
    dropping: bool,
}

impl View for AshCodec {
    type V = bool;

    /// Whether a SUBSTITUTE was seen and no FLAG since.
    closed spec fn view(&self) -> bool {
        self.dropping
    }
}

impl Default for AshCodec {
    fn default() -> (r: AshCodec)
        ensures
            r@ == false,
    {
        AshCodec { dropping: false }
    }
}

impl AshCodec {
    pub fn new() -> (r: AshCodec)
        ensures
            r@ == false,
    {
        AshCodec { dropping: false }
    }

    pub fn is_dropping(&self) -> (r: bool)
        ensures
            r == self@,
    {
        self.dropping
    }

    /// Drops framing errors from the start of `data`, returning how many
    /// bytes go.
    fn drop_buffer_framing_errors(&mut self, data: &[u8]) -> (n: usize)
        ensures
            (final(self)@, n as nat) == dropped(old(self)@, data@),
    {
        let ghost s = data@;
        let mut pos: usize = 0;
        assert(s.skip(0) =~= s);
        loop
            invariant
                pos <= data.len(),
                s == data@,
                dropped(old(self)@, s) == (dropped(self.dropping, s.skip(pos as int)).0,
                    (dropped(self.dropping, s.skip(pos as int)).1 + pos) as nat),
            decreases data.len() - pos,
        {
            let ghost t = s.skip(pos as int);
            if self.dropping {
                match find_flag(data, pos) {
                    None => {
                        proof {
                            lemma_first_flag(t, t.len() as int);
                        }
                        return data.len();
                    },
                    Some(i) => {
                        proof {
                            assert forall|j: int| 0 <= j < i - pos implies t[j] != FLAG_BYTE by {
                                assert(t[j] == s[j + pos]);
                            }
                            lemma_first_flag(t, i - pos);
                            assert(t.skip(i - pos + 1) =~= s.skip(i + 1));
                        }
                        self.dropping = false;
                        pos = i + 1;
                    },
                }
            } else {
                match find_framing_byte(data, pos) {
                    None => {
                        proof {
                            lemma_first_framing_byte(t, t.len() as int);
                        }
                        return pos;
                    },
                    Some(i) => {
                        proof {
                            assert forall|j: int| 0 <= j < i - pos implies !is_framing_byte(
                                t[j],
                            ) by {
                                assert(t[j] == s[j + pos]);
                            }
                            lemma_first_framing_byte(t, i - pos);
                            assert(t.skip(i - pos + 1) =~= s.skip(i + 1));
                        }
                        if data[i] == FLAG_BYTE && i > pos {
                            return pos;
                        }
                        self.dropping = data[i] == SUB_BYTE;
                        pos = i + 1;
                    },
                }
            }
        }
    }

    /// Decodes the next frame from the front of `src`, first dropping framing
    /// errors. `Ok(None)`: more bytes are needed. `Ok(Some(Err(..)))`: a bad
    /// frame was consumed (soft failure). `Err(..)`: an unknown frame was
    /// consumed (hard failure). What was consumed leaves `src`.
    pub fn decode(&mut self, src: &mut BytesMut) -> (r: Result<Option<Result<Frame, Error>>, Error>)
        ensures
            ({
                let (d, n, out) = decode_model(old(self)@, bytes_of(*old(src)));
                &&& final(self)@ == d
                &&& n <= bytes_of(*old(src)).len()
                &&& bytes_of(*final(src)) == bytes_of(*old(src)).skip(n as int)
                &&& match r {
                    Ok(None) => out is NeedMore,
                    Ok(Some(Ok(f))) => out == DecodeModel::Frame(f@),
                    Ok(Some(Err(e))) => out == DecodeModel::Soft(e@),
                    Err(e) => out == DecodeModel::Hard(e@),
                }
            }),
    {
        let data = copy_bytes(src);
        let dropped_len = self.drop_buffer_framing_errors(data.as_slice());
        proof {
            lemma_dropped_bound(old(self)@, data@);
        }
        let rest = slice_subrange(data.as_slice(), dropped_len, data.len());
        assert(rest@ =~= data@.skip(dropped_len as int));
        match Frame::parse(rest) {
            None => {
                advance_bytes(src, dropped_len);
                reserve_bytes(src, 1);
                Ok(None)
            },
            Some(Ok((n, f))) => {
                proof {
                    lemma_first_flag_props(rest@);
                }
                advance_bytes(src, dropped_len + n);
                Ok(Some(Ok(f)))
            },
            Some(Err(e)) => {
                proof {
                    lemma_first_flag_props(rest@);
                }
                let (n, error) = e.into_inner();
                advance_bytes(src, dropped_len + n);
                match error {
                    Error::UnknownFrame => Err(Error::UnknownFrame),
                    other => Ok(Some(Err(other))),
                }
            },
        }
    }

    /// Appends the wire form of `item` to `dst`.
    pub fn encode(&mut self, item: Frame, dst: &mut BytesMut)
        ensures
            final(self)@ == old(self)@,
            bytes_of(*final(dst)) == bytes_of(*old(dst)) + encoded(item@),
    {
        let mut buf: Vec<u8> = Vec::new();
        item.serialize(&mut buf);
        assert(buf@ =~= encoded(item@));
        put_bytes(dst, buf.as_slice());
    }
}


/// The frame that `header_of` reads from `f`'s control byte: `f` with an
/// empty body and zero version and code.
pub open spec fn header(f: FrameModel) -> FrameModel {
    match f {
        FrameModel::Data { frm_num, re_tx, ack_num, .. } => FrameModel::Data {
            frm_num,
            re_tx,
            ack_num,
            body: Seq::empty(),
        },
        FrameModel::RstAck { .. } => FrameModel::RstAck { version: 0, code: 0 },
        FrameModel::Error { .. } => FrameModel::Error { version: 0, code: 0 },
        _ => f,
    }
}

/// The control byte of a well-formed frame announces that frame.
pub proof fn lemma_header_of_control_byte(f: FrameModel)
    requires
        frame_wf(f),
    ensures
        header_of(control_byte(f)) == Some(header(f)),
{
    match f {
        FrameModel::Data { frm_num, re_tx, ack_num, .. } => {
            let c = (frm_num * 16 + bit(re_tx, 8) + ack_num) as int;
            assert(c < 128);
            assert(c / 16 == frm_num);
            assert((c / 8) % 2 == 1 <==> re_tx);
            assert(c % 8 == ack_num);
        },
        FrameModel::Ack { res, n_rdy, ack_num } => {
            let c = (0x80 + bit(res, 16) + bit(n_rdy, 8) + ack_num) as int;
            assert(0x80 <= c < 0xA0);
            assert((c / 16) % 2 == 1 <==> res);
            assert((c / 8) % 2 == 1 <==> n_rdy);
            assert(c % 8 == ack_num);
        },
        FrameModel::Nak { res, n_rdy, ack_num } => {
            let c = (0xA0 + bit(res, 16) + bit(n_rdy, 8) + ack_num) as int;
            assert(0xA0 <= c < 0xC0);
            assert((c / 16) % 2 == 1 <==> res);
            assert((c / 8) % 2 == 1 <==> n_rdy);
            assert(c % 8 == ack_num);
        },
        _ => {},
    }
}

/// Reading back the checksum-carrying bytes of a frame gives the frame.
pub proof fn lemma_frame_of_with_checksum(f: FrameModel)
    requires
        frame_wf(f),
    ensures
        frame_of(with_checksum(raw_frame(f))) == Ok::<FrameModel, ErrorModel>(f),
{
    let r = raw_frame(f);
    let w = with_checksum(r);
    let c = crc_ccitt(r);
    lemma_header_of_control_byte(f);
    assert(w[0] == control_byte(f));
    assert(w.take(w.len() - 2) =~= r);
    assert(w[w.len() - 2] == (c / 256) as u8);
    assert(w[w.len() - 1] == (c % 256) as u8);
    assert(carried_checksum(w) == c);
    match f {
        FrameModel::Data { body, .. } => {
            assert(w.subrange(1, w.len() - 2) =~= randomized(body));
            lemma_randomized_involution(body);
        },
        FrameModel::RstAck { version, code } => {
            assert(w[1] == version && w[2] == code);
        },
        FrameModel::Error { version, code } => {
            assert(w[1] == version && w[2] == code);
        },
        _ => {},
    }
}

/// Round trip: a fresh decoder reads the wire form of a well-formed frame as
/// that frame, consuming all of it and ending outside the dropping state, and
/// encoding the decoded frame gives the same bytes back.
pub proof fn lemma_decode_encoded(f: FrameModel)
    requires
        frame_wf(f),
    ensures
        ({
            let x = encoded(f);
            let (d, n, out) = decode_model(false, x);
            &&& !d
            &&& n == x.len()
            &&& out == DecodeModel::Frame(f)
            &&& out matches DecodeModel::Frame(g) && encoded(g) == x
        }),
{
    let w = with_checksum(raw_frame(f));
    let st = stuffed(w);
    let x = encoded(f);
    let l = st.len() as int;
    lemma_stuffed_has_no_framing_bytes(w);
    assert(st == stuff_byte(w[0]) + stuffed(w.skip(1)));
    assert(l >= 1);
    assert(x[l] == FLAG_BYTE);
    assert forall|j: int| 0 <= j < l implies !is_framing_byte(x[j]) by {
        assert(x[j] == st[j]);
    }
    lemma_first_framing_byte(x, l);
    assert(dropped(false, x) == (false, 0nat));
    assert(x.skip(0) =~= x);
    assert forall|j: int| 0 <= j < l implies x[j] != FLAG_BYTE by {
        assert(x[j] == st[j]);
    }
    lemma_first_flag(x, l);
    assert(x.take(l) =~= st);
    lemma_unstuff_stuffed(w);
    lemma_frame_of_with_checksum(f);
}

/// Every DATA frame that `decode` hands back without error has a body of 3 to
/// 128 bytes.
pub proof fn lemma_decoded_body_len(dropping: bool, s: Seq<u8>)
    ensures
        decode_model(dropping, s).2 matches DecodeModel::Frame(FrameModel::Data { body, .. })
            ==> 3 <= body.len() <= 128,
{
    let (d, n) = dropped(dropping, s);
    let t = s.skip(n as int);
    let p = first_flag(t);
    if t.len() > 0 && p >= 0 {
        let u = crate::escaping::unstuffed(t.take(p));
        if u.len() > 0 {
            if let Some(h) = header_of(u[0]) {
                if h is Data && data_field_ok(h, u.len() - 1) {
                    assert(u.subrange(1, u.len() - 2).len() == u.len() - 3);
                }
            }
        }
    }
}

/// After `decode` hands back a frame or a soft error, what left the buffer is
/// the dropped framing errors and exactly one frame: the bytes after the
/// dropped ones through the first FLAG, and nothing beyond that FLAG.
pub proof fn lemma_decode_consumes_one_frame(dropping: bool, s: Seq<u8>)
    ensures
        ({
            let (d, n, out) = decode_model(dropping, s);
            let k = dropped(dropping, s).1;
            (out is Frame || out is Soft) ==> {
                &&& k < n <= s.len()
                &&& s[n - 1] == FLAG_BYTE
                &&& forall|j: int| k <= j < n - 1 ==> s[j] != FLAG_BYTE
            }
        }),
{
    let (d, k) = dropped(dropping, s);
    lemma_dropped_bound(dropping, s);
    let t = s.skip(k as int);
    lemma_first_flag_props(t);
    let p = first_flag(t);
    if t.len() > 0 && p >= 0 {
        assert(s[k + p] == t[p]);
        assert forall|j: int| k <= j < k + p implies s[j] != FLAG_BYTE by {
            assert(s[j] == t[j - k]);
        }
    }
}

} // verus!
