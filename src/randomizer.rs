use vstd::prelude::*;

verus! {

/// The seed of the pseudo-random sequence that masks DATA bodies.
pub const LFSR_SEED: u8 = 0x42;

/// One step of the 8-bit LFSR: `(b >> 1) ^ ((b & 1) * 0xB8)`.
pub open spec fn lfsr_next(b: u8) -> u8 {
    if b & 1 == 1 {
        (b >> 1) ^ 0xB8u8
    } else {
        b >> 1
    }
}

/// The `i`-th byte of the sequence that starts at the seed.
pub open spec fn lfsr_byte(i: nat) -> u8
    decreases i,
{
    if i == 0 {
        LFSR_SEED
    } else {
        lfsr_next(lfsr_byte((i - 1) as nat))
    }
}

/// The first `len` bytes of the sequence.
pub open spec fn lfsr_prefix(len: nat) -> Seq<u8> {
    Seq::new(len, |i: int| lfsr_byte(i as nat))
}

/// `s` with each byte XORed with the byte of the sequence at the same position.
pub open spec fn randomized(s: Seq<u8>) -> Seq<u8> {
    Seq::new(s.len(), |i: int| s[i] ^ lfsr_byte(i as nat))
}

fn lfsr_step(b: u8) -> (r: u8)
    ensures
        r == lfsr_next(b),
{
    if b & 0x01 == 1 {
        (b >> 1) ^ 0xB8
    } else {
        b >> 1
    }
}

/// XORs `buf` in place with the sequence, restarted at the seed.
pub fn randomize_data(buf: &mut Vec<u8>)
    ensures
        final(buf)@ == randomized(old(buf)@),
{
    let mut reg: u8 = LFSR_SEED;
    let mut i: usize = 0;
    while i < buf.len()
        invariant
            i <= buf.len(),
            buf.len() == old(buf).len(),
            reg == lfsr_byte(i as nat),
            forall|j: int| 0 <= j < i ==> buf[j] == old(buf)[j] ^ lfsr_byte(j as nat),
            forall|j: int| i <= j < buf.len() ==> buf[j] == old(buf)[j],
        decreases buf.len() - i,
    {
        let b = buf[i] ^ reg;
        buf.set(i, b);
        reg = lfsr_step(reg);
        i += 1;
    }
    assert(buf@ =~= randomized(old(buf)@));
}

/// The first `len` bytes of the pseudo-random sequence.
pub fn rand_seq(len: usize) -> (r: Vec<u8>)
    ensures
        r@ == lfsr_prefix(len as nat),
{
    let mut out: Vec<u8> = Vec::with_capacity(len);
    let mut reg: u8 = LFSR_SEED;
    let mut i: usize = 0;
    while i < len
        invariant
            i <= len,
            out.len() == i,
            reg == lfsr_byte(i as nat),
            forall|j: int| 0 <= j < i ==> out[j] == lfsr_byte(j as nat),
        decreases len - i,
    {
        out.push(reg);
        reg = lfsr_step(reg);
        i += 1;
    }
    assert(out@ =~= lfsr_prefix(len as nat));
    out
}

/// XORs `buf` in place with a freshly produced sequence of the same length.
pub fn xor_with_rand_seq(buf: &mut Vec<u8>)
    ensures
        final(buf)@ == randomized(old(buf)@),
{
    let seq = rand_seq(buf.len());
    let mut i: usize = 0;
    while i < buf.len()
        invariant
            i <= buf.len(),
            buf.len() == old(buf).len(),
            seq@ == lfsr_prefix(buf.len() as nat),
            forall|j: int| 0 <= j < i ==> buf[j] == old(buf)[j] ^ lfsr_byte(j as nat),
            forall|j: int| i <= j < buf.len() ==> buf[j] == old(buf)[j],
        decreases buf.len() - i,
    {
        let b = buf[i] ^ seq[i];
        buf.set(i, b);
        i += 1;
    }
    assert(buf@ =~= randomized(old(buf)@));
}

/// The masking is its own inverse: applying it twice gives the body back.
pub proof fn lemma_randomized_involution(s: Seq<u8>)
    ensures
        randomized(randomized(s)) == s,
{
    assert forall|i: int| 0 <= i < s.len() implies randomized(randomized(s))[i] == s[i] by {
        let a = s[i];
        let k = lfsr_byte(i as nat);
        assert((a ^ k) ^ k == a) by (bit_vector);
    }
    assert(randomized(randomized(s)) =~= s);
}

} // verus!
