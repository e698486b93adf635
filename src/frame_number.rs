use vstd::prelude::*;

verus! {

/// `(lhs + rhs) mod 8`, the wrapping addition of three-bit sequence numbers.
pub open spec fn wrapped_add_spec(lhs: int, rhs: int) -> int {
    (lhs + rhs) % 8
}

/// Adds two values modulo 8, without intermediate overflow.
pub fn three_bit_wrapped_add(lhs: u8, rhs: u8) -> (r: u8)
    ensures
        r as int == wrapped_add_spec(lhs as int, rhs as int),
        r < 8,
{
    ((lhs as u16 + rhs as u16) % 8) as u8
}

/// The error of a conversion from a value that does not fit in three bits.
#[derive(Clone, Copy, Debug, PartialEq, Eq, Structural)]
pub struct InvalidFrameNumber;

/// A three-bit ASH frame number, always in `0..=7`.
#[derive(Clone, Copy, Debug, PartialEq, Eq, Structural)]
pub struct FrameNumber {
    value: u8,
}

impl View for FrameNumber {
    type V = u8;

    closed spec fn view(&self) -> u8 {
        self.value
    }
}

impl FrameNumber {
    #[verifier::type_invariant]
    spec fn inv(&self) -> bool {
        self.value < 8
    }

    /// Accepts values in `0..=7`, rejects the others.
    pub fn new(value: u8) -> (r: Option<FrameNumber>)
        ensures
            value < 8 <==> r.is_some(),
            r matches Some(n) ==> n@ == value,
    {
        if value > 7 {
            None
        } else {
            Some(FrameNumber { value })
        }
    }

    /// Keeps the low three bits of `value`.
    pub fn new_truncate(value: u8) -> (r: FrameNumber)
        ensures
            r@ == value & 7,
            r@ == value % 8,
    {
        assert(value & 7 == value % 8 && value & 7 < 8) by (bit_vector);
        FrameNumber { value: value & 0x07 }
    }

    pub fn zero() -> (r: FrameNumber)
        ensures
            r@ == 0,
    {
        FrameNumber { value: 0 }
    }

    /// Same as `new`, as a `Result`.
    pub fn try_from(value: u8) -> (r: Result<FrameNumber, InvalidFrameNumber>)
        ensures
            value < 8 <==> r.is_ok(),
            r matches Ok(n) ==> n@ == value,
    {
        match FrameNumber::new(value) {
            Some(n) => Ok(n),
            None => Err(InvalidFrameNumber),
        }
    }

    pub fn value(&self) -> (r: u8)
        ensures
            r == self@,
            r < 8,
    {
        proof {
            use_type_invariant(self);
        }
        self.value
    }

    /// `self + rhs` modulo 8.
    pub fn add(self, rhs: u8) -> (r: FrameNumber)
        ensures
            r@ as int == wrapped_add_spec(self@ as int, rhs as int),
    {
        FrameNumber { value: three_bit_wrapped_add(self.value, rhs) }
    }

    /// Replaces `self` with `self + rhs` modulo 8.
    pub fn add_assign(&mut self, rhs: u8)
        ensures
            final(self)@ as int == wrapped_add_spec(old(self)@ as int, rhs as int),
    {
        *self = FrameNumber { value: three_bit_wrapped_add(self.value, rhs) };
    }
}

impl Default for FrameNumber {
    fn default() -> (r: FrameNumber)
        ensures
            r@ == 0,
    {
        FrameNumber { value: 0 }
    }
}

} // verus!
