use vstd::prelude::*;
use crate::constants::{CANCEL_BYTE, ESCAPE_BYTE, FLAG_BYTE, SUB_BYTE, XOFF_BYTE, XON_BYTE};

verus! {

/// The bytes that may not appear unescaped inside a frame.
pub open spec fn is_reserved(b: u8) -> bool {
    b == FLAG_BYTE || b == ESCAPE_BYTE || b == XON_BYTE || b == XOFF_BYTE || b == SUB_BYTE
        || b == CANCEL_BYTE
}

/// The wire form of one byte: a reserved byte `b` becomes `ESCAPE, b ^ 0x20`.
pub open spec fn stuff_byte(b: u8) -> Seq<u8> {
    if is_reserved(b) {
        seq![ESCAPE_BYTE, b ^ 0x20u8]
    } else {
        seq![b]
    }
}

/// Byte stuffing of a whole sequence.
pub open spec fn stuffed(s: Seq<u8>) -> Seq<u8>
    decreases s.len(),
{
    if s.len() == 0 {
        Seq::empty()
    } else {
        stuff_byte(s[0]) + stuffed(s.skip(1))
    }
}

/// The byte that an escape stands for: the next byte XOR 0x20, or the next
/// byte itself where that byte is reserved.
pub open spec fn unescape_byte(b: u8) -> u8 {
    if is_reserved(b) {
        b
    } else {
        b ^ 0x20u8
    }
}

/// Removal of byte stuffing: each ESCAPE and the byte after it become one byte;
/// an ESCAPE in last position stays as it is.
pub open spec fn unstuffed(s: Seq<u8>) -> Seq<u8>
    decreases s.len(),
{
    if s.len() == 0 {
        Seq::empty()
    } else if s[0] == ESCAPE_BYTE && s.len() >= 2 {
        seq![unescape_byte(s[1])] + unstuffed(s.skip(2))
    } else {
        seq![s[0]] + unstuffed(s.skip(1))
    }
}

/// The in-place unescaping that keeps each ESCAPE byte and rewrites the byte
/// after it; `pending` says that the previous byte was an unconsumed ESCAPE.
pub open spec fn unescaped_in_place(s: Seq<u8>, pending: bool) -> Seq<u8>
    decreases s.len(),
{
    if s.len() == 0 {
        Seq::empty()
    } else if pending {
        seq![unescape_byte(s[0])] + unescaped_in_place(s.skip(1), false)
    } else {
        seq![s[0]] + unescaped_in_place(s.skip(1), s[0] == ESCAPE_BYTE)
    }
}

pub fn is_reserved_byte(b: u8) -> (r: bool)
    ensures
        r == is_reserved(b),
{
    b == FLAG_BYTE || b == ESCAPE_BYTE || b == XON_BYTE || b == XOFF_BYTE || b == SUB_BYTE
        || b == CANCEL_BYTE
}

/// Appends the stuffed form of `frame` to `buf`.
pub fn escape_reserved_bytes(frame: &[u8], buf: &mut Vec<u8>)
    ensures
        final(buf)@ == old(buf)@ + stuffed(frame@),
{
    let mut i: usize = 0;
    assert(frame@.skip(0) =~= frame@);
    while i < frame.len()
        invariant
            i <= frame.len(),
            buf@ + stuffed(frame@.skip(i as int)) == old(buf)@ + stuffed(frame@),
        decreases frame.len() - i,
    {
        let b = frame[i];
        proof {
            let rest = frame@.skip(i as int);
            assert(rest.skip(1) =~= frame@.skip(i + 1));
            assert(stuffed(rest) == stuff_byte(b) + stuffed(frame@.skip(i + 1)));
        }
        if is_reserved_byte(b) {
            buf.push(ESCAPE_BYTE);
            buf.push(b ^ 0x20);
        } else {
            buf.push(b);
        }
        proof {
            assert(buf@ + stuffed(frame@.skip(i + 1)) =~= old(buf)@ + stuffed(frame@));
        }
        i += 1;
    }
    proof {
        assert(frame@.skip(i as int) =~= Seq::<u8>::empty());
        assert(buf@ + stuffed(Seq::<u8>::empty()) =~= buf@);
    }
}

/// Rewrites, in place, each byte that follows an ESCAPE to the byte it stands
/// for, keeping the ESCAPE bytes themselves.
pub fn unescape_reserved_bytes(buf: &mut Vec<u8>)
    ensures
        final(buf)@ == unescaped_in_place(old(buf)@, false),
{
    let mut escape_next = false;
    let mut i: usize = 0;
    assert(buf@.skip(0) =~= buf@);
    assert(buf@.take(0) + unescaped_in_place(buf@, false) =~= unescaped_in_place(buf@, false));
    while i < buf.len()
        invariant
            i <= buf.len(),
            buf.len() == old(buf).len(),
            buf@.skip(i as int) == old(buf)@.skip(i as int),
            buf@.take(i as int) + unescaped_in_place(old(buf)@.skip(i as int), escape_next)
                == unescaped_in_place(old(buf)@, false),
        decreases buf.len() - i,
    {
        let b = buf[i];
        proof {
            let rest = old(buf)@.skip(i as int);
            assert(rest[0] == b);
            assert(rest.skip(1) =~= old(buf)@.skip(i + 1));
        }
        if escape_next {
            if !is_reserved_byte(b) {
                buf.set(i, b ^ 0x20);
            }
            escape_next = false;
        } else {
            escape_next = b == ESCAPE_BYTE;
        }
        proof {
            assert(buf@.skip(i + 1) =~= old(buf)@.skip(i + 1));
            assert(buf@.take(i + 1) =~= buf@.take(i as int).push(buf@[i as int]));
        }
        i += 1;
    }
    proof {
        assert(buf@.take(i as int) =~= buf@);
        assert(old(buf)@.skip(i as int) =~= Seq::<u8>::empty());
    }
}

/// A stuffed byte is never FLAG, SUBSTITUTE or CANCEL.
pub proof fn lemma_stuffed_has_no_framing_bytes(s: Seq<u8>)
    ensures
        forall|i: int|
            0 <= i < stuffed(s).len() ==> #[trigger] stuffed(s)[i] != FLAG_BYTE
                && stuffed(s)[i] != SUB_BYTE && stuffed(s)[i] != CANCEL_BYTE,
    decreases s.len(),
{
    if s.len() > 0 {
        lemma_stuffed_has_no_framing_bytes(s.skip(1));
        let b = s[0];
        let x = b ^ 0x20u8;
        assert(is_reserved(b) ==> x != 0x7Eu8 && x != 0x18u8 && x != 0x1Au8) by (bit_vector)
            requires
                is_reserved(b) == (b == 0x7Eu8 || b == 0x7Du8 || b == 0x11u8 || b == 0x13u8
                    || b == 0x18u8 || b == 0x1Au8),
                x == b ^ 0x20u8,
        ;
        let head = stuff_byte(b);
        let tail = stuffed(s.skip(1));
        assert forall|i: int| 0 <= i < stuffed(s).len() implies #[trigger] stuffed(s)[i] != FLAG_BYTE
            && stuffed(s)[i] != SUB_BYTE && stuffed(s)[i] != CANCEL_BYTE by {
            if i >= head.len() {
                assert(stuffed(s)[i] == tail[i - head.len()]);
            }
        }
    }
}

/// Unstuffing undoes stuffing.
pub proof fn lemma_unstuff_stuffed(s: Seq<u8>)
    ensures
        unstuffed(stuffed(s)) == s,
    decreases s.len(),
{
    if s.len() > 0 {
        lemma_unstuff_stuffed(s.skip(1));
        let b = s[0];
        let x = b ^ 0x20u8;
        let tail = stuffed(s.skip(1));
        assert(is_reserved(b) ==> !(x == 0x7Eu8 || x == 0x7Du8 || x == 0x11u8 || x == 0x13u8
            || x == 0x18u8 || x == 0x1Au8) && x ^ 0x20u8 == b) by (bit_vector)
            requires
                is_reserved(b) == (b == 0x7Eu8 || b == 0x7Du8 || b == 0x11u8 || b == 0x13u8
                    || b == 0x18u8 || b == 0x1Au8),
                x == b ^ 0x20u8,
        ;
        let t = stuffed(s);
        if is_reserved(b) {
            assert(t == seq![ESCAPE_BYTE, x] + tail);
            assert(t.skip(2) =~= tail);
            assert(unstuffed(t) == seq![unescape_byte(x)] + unstuffed(tail));
        } else {
            assert(t == seq![b] + tail);
            assert(t.skip(1) =~= tail);
            assert(unstuffed(t) == seq![b] + unstuffed(tail));
        }
        assert(s =~= seq![b] + s.skip(1));
    }
}

} // verus!
