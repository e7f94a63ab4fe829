//! Executable encoders, each proved to append exactly the byte sequence the
//! spec-level encoder in [`crate::codec`] prescribes.

use vstd::prelude::*;

use crate::codec::{
    varint, le_bytes, zigzag, u64_of_i64, enc_sint_field, enc_len_field, enc_time, enc_parts,
    enc_block_id, enc_proposal, enc_msg_body, enc_wire, msg_prefix, sign_bytes_of,
};
use crate::types::{
    Time, PartsSetHeader, BlockID, Proposal, SignProposalMsg, time_wf, block_id_wf, proposal_wf,
    msg_wf,
};
use crate::laws::lemma_enc_msg_body_len;

verus! {

/// Appends a copy of `src` to `out`.
pub fn push_bytes(out: &mut Vec<u8>, src: &[u8])
    ensures
        final(out)@ == old(out)@ + src@,
{
    let mut k: usize = 0;
    while k < src.len()
        invariant
            k <= src.len(),
            out@ == old(out)@ + src@.subrange(0, k as int),
        decreases src.len() - k,
    {
        out.push(src[k]);
        k = k + 1;
        proof {
            assert(out@ == old(out)@ + src@.subrange(0, k as int)) by {
                assert(src@.subrange(0, k as int) == src@.subrange(0, k - 1) + seq![
                    src@[k - 1],
                ]);
            }
        }
    }
    proof {
        assert(src@.subrange(0, src@.len() as int) == src@);
    }
}

/// Appends the base-128 varint of `x`.
pub fn encode_varint(out: &mut Vec<u8>, x: u64)
    ensures
        final(out)@ == old(out)@ + varint(x as nat),
    decreases x,
{
    if x < 128 {
        out.push(x as u8);
        assert(out@ == old(out)@ + varint(x as nat));
    } else {
        out.push((128 + x % 128) as u8);
        encode_varint(out, x / 128);
        assert(out@ == old(out)@ + varint(x as nat));
    }
}

/// Appends the little-endian encoding of `x` on `n` bytes.
pub fn encode_le(out: &mut Vec<u8>, x: u64, n: usize)
    ensures
        final(out)@ == old(out)@ + le_bytes(x as nat, n as nat),
    decreases n,
{
    if n > 0 {
        out.push((x % 256) as u8);
        encode_le(out, x / 256, n - 1);
        assert(out@ == old(out)@ + le_bytes(x as nat, n as nat));
    } else {
        assert(le_bytes(x as nat, 0) == Seq::<u8>::empty());
        assert(out@ == old(out)@ + le_bytes(x as nat, 0));
    }
}

/// The zig-zag transform of `v`, as executable arithmetic.
pub fn zigzag64(v: i64) -> (r: u64)
    ensures
        r as nat == zigzag(v as int),
{
    if v >= 0 {
        (v as u64) * 2
    } else {
        let m: u64 = (-(v + 1)) as u64;
        m * 2 + 1
    }
}

/// The two's-complement image of `v` below 2^64.
pub fn u64_from_i64(v: i64) -> (r: u64)
    ensures
        r as nat == u64_of_i64(v as int),
{
    if v >= 0 {
        v as u64
    } else {
        let m: u64 = (-(v + 1)) as u64;
        u64::MAX - m
    }
}

/// Appends a zig-zag varint field: tag byte, then the transformed value.
pub fn encode_sint_field(out: &mut Vec<u8>, tag: u8, v: i64)
    ensures
        final(out)@ == old(out)@ + enc_sint_field(tag, v as int),
{
    out.push(tag);
    let z = zigzag64(v);
    encode_varint(out, z);
    assert(out@ == old(out)@ + enc_sint_field(tag, v as int));
}

/// Appends a length-delimited field: tag byte, length varint, payload.
pub fn encode_len_field(out: &mut Vec<u8>, tag: u8, payload: &[u8])
    ensures
        final(out)@ == old(out)@ + enc_len_field(tag, payload@),
{
    out.push(tag);
    encode_varint(out, payload.len() as u64);
    push_bytes(out, payload);
    assert(out@ == old(out)@ + enc_len_field(tag, payload@));
}

impl Time {
    /// Appends the canonical encoding of this timestamp.
    pub fn encode_onto(&self, out: &mut Vec<u8>)
        requires
            time_wf(self@),
        ensures
            final(out)@ == old(out)@ + enc_time(self@),
    {
        out.push(0x09);
        let s = u64_from_i64(self.seconds);
        encode_le(out, s, 8);
        out.push(0x15);
        encode_le(out, self.nanos as u64, 4);
        assert(out@ == old(out)@ + enc_time(self@));
    }
}

impl PartsSetHeader {
    /// Appends the canonical encoding of this parts-set header.
    pub fn encode_onto(&self, out: &mut Vec<u8>)
        ensures
            final(out)@ == old(out)@ + enc_parts(self@),
    {
        encode_sint_field(out, 0x08, self.total);
        encode_len_field(out, 0x12, self.hash.as_slice());
        assert(out@ == old(out)@ + enc_parts(self@));
    }
}

impl BlockID {
    /// Appends the canonical encoding of this block identifier.
    pub fn encode_onto(&self, out: &mut Vec<u8>)
        requires
            block_id_wf(self@),
        ensures
            final(out)@ == old(out)@ + enc_block_id(self@),
    {
        encode_len_field(out, 0x0a, self.hash.as_slice());
        let mut body: Vec<u8> = Vec::new();
        self.parts_header.encode_onto(&mut body);
        encode_len_field(out, 0x12, body.as_slice());
        assert(out@ == old(out)@ + enc_block_id(self@));
    }
}

impl Proposal {
    /// Appends the canonical encoding of this proposal: the sign bytes.
    pub fn encode_onto(&self, out: &mut Vec<u8>)
        requires
            proposal_wf(self@),
        ensures
            final(out)@ == old(out)@ + enc_proposal(self@),
    {
        encode_sint_field(out, 0x08, self.height);
        encode_sint_field(out, 0x10, self.round);
        let mut tbody: Vec<u8> = Vec::new();
        self.timestamp.encode_onto(&mut tbody);
        encode_len_field(out, 0x1a, tbody.as_slice());
        let mut pbody: Vec<u8> = Vec::new();
        self.block_parts_header.encode_onto(&mut pbody);
        encode_len_field(out, 0x22, pbody.as_slice());
        encode_sint_field(out, 0x28, self.pol_round);
        match self.pol_block_id {
            None => {},
            Some(ref b) => {
                let mut bbody: Vec<u8> = Vec::new();
                b.encode_onto(&mut bbody);
                encode_len_field(out, 0x32, bbody.as_slice());
            },
        }
        assert(out@ == old(out)@ + enc_proposal(self@));
    }
}

impl SignProposalMsg {
    /// The sign bytes: the canonical encoding of the proposal alone. The
    /// signature field and the wire frame never contribute, so the result is
    /// the same before and after a signature is attached, and two calls on
    /// the same proposal return the same bytes.
    pub fn sign_bytes(&self) -> (r: Vec<u8>)
        requires
            proposal_wf(self@.proposal),
        ensures
            r@ == sign_bytes_of(self@),
            r@ == enc_proposal(self@.proposal),
    {
        let mut out: Vec<u8> = Vec::new();
        self.proposal.encode_onto(&mut out);
        out
    }

    /// Appends the canonical encoding of the envelope body: the proposal,
    /// then the signature when one is present.
    pub fn encode_body_onto(&self, out: &mut Vec<u8>)
        requires
            proposal_wf(self@.proposal),
        ensures
            final(out)@ == old(out)@ + enc_msg_body(self@),
    {
        let mut pbody: Vec<u8> = Vec::new();
        self.proposal.encode_onto(&mut pbody);
        encode_len_field(out, 0x0a, pbody.as_slice());
        match self.signature {
            None => {},
            Some(ref s) => {
                encode_len_field(out, 0x12, s.as_slice());
            },
        }
        assert(out@ == old(out)@ + enc_msg_body(self@));
    }

    /// Appends the full wire frame: total length, the registry's four-byte
    /// type prefix, then the envelope body.
    pub fn encode(&self, out: &mut Vec<u8>)
        requires
            msg_wf(self@),
        ensures
            final(out)@ == old(out)@ + enc_wire(self@),
    {
        proof {
            lemma_enc_msg_body_len(self@);
        }
        let mut body: Vec<u8> = Vec::new();
        self.encode_body_onto(&mut body);
        encode_varint(out, 4 + body.len() as u64);
        out.push(0x5d);
        out.push(0x48);
        out.push(0x70);
        out.push(0x04);
        push_bytes(out, body.as_slice());
        proof {
            assert(seq![0x5du8, 0x48u8, 0x70u8, 0x04u8] == msg_prefix());
            assert(out@ == old(out)@ + enc_wire(self@));
        }
    }
}

} // verus!
