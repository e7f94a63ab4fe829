//! Executable decoders, each proved to return exactly what the spec-level
//! parser in [`crate::codec`] prescribes. The decoder is strict: it accepts
//! only the canonical encoding of a well-formed envelope.

use vstd::prelude::*;

use crate::codec::{
    pow256, unzigzag, i64_of_u64, parse_varint, parse_fix, parse_time, parse_parts,
    parse_block_id, parse_proposal, parse_msg_body, parse_wire, frame_prefix_unknown, msg_prefix,
};
use crate::codec::enc_wire;
use crate::laws::{lemma_parse_fix_bound, lemma_pow256_le, lemma_parse_wire_sound};
use crate::types::{
    Time, PartsSetHeader, BlockID, Proposal, SignProposalMsg, Error, time_wf, parts_wf,
    block_id_wf, proposal_wf, msg_wf,
};

verus! {

/// Copies `s[i..j)` into a fresh vector.
pub fn copy_range(s: &[u8], i: usize, j: usize) -> (r: Vec<u8>)
    requires
        i <= j <= s@.len(),
    ensures
        r@ == s@.subrange(i as int, j as int),
{
    let mut out: Vec<u8> = Vec::new();
    let mut k: usize = i;
    assert(s@.subrange(i as int, i as int) =~= out@);
    while k < j
        invariant
            i <= k <= j,
            j <= s@.len(),
            out@ == s@.subrange(i as int, k as int),
        decreases j - k,
    {
        out.push(s[k]);
        k = k + 1;
        proof {
            assert(s@.subrange(i as int, k as int) == s@.subrange(i as int, k - 1) + seq![
                s@[k - 1],
            ]);
        }
    }
    out
}

/// Reads a canonical varint, mirroring [`parse_varint`].
pub fn read_varint(s: &[u8], i: usize, end: usize) -> (r: Option<(u64, usize)>)
    requires
        i <= end <= s@.len(),
    ensures
        match r {
            None => parse_varint(s@, i as int, end as int) is None,
            Some((v, j)) => parse_varint(s@, i as int, end as int) == Some((v as nat, j as int))
                && i < j <= end,
        },
    decreases end - i,
{
    if i >= end {
        return None;
    }
    let b = s[i];
    if b < 128 {
        return Some((b as u64, i + 1));
    }
    match read_varint(s, i + 1, end) {
        None => None,
        Some((v, j)) => {
            let c = (b - 128) as u64;
            if v == 0 || v > (u64::MAX - c) / 128 {
                assert(v > (u64::MAX - c) / 128 ==> v * 128 + c >= 0x1_0000_0000_0000_0000);
                None
            } else {
                assert(v * 128 + c < 0x1_0000_0000_0000_0000);
                Some((v * 128 + c, j))
            }
        },
    }
}

/// Reads a fixed-width little-endian natural, mirroring [`parse_fix`].
pub fn read_fix(s: &[u8], i: usize, n: usize, end: usize) -> (r: Option<(u64, usize)>)
    requires
        i <= end <= s@.len(),
        n <= 8,
    ensures
        match r {
            None => parse_fix(s@, i as int, n as nat, end as int) is None,
            Some((v, j)) => parse_fix(s@, i as int, n as nat, end as int) == Some(
                (v as nat, j as int),
            ) && j == i + n,
        },
    decreases n,
{
    if n > end - i {
        return None;
    }
    if n == 0 {
        return Some((0, i));
    }
    let b = s[i];
    match read_fix(s, i + 1, n - 1, end) {
        None => None,
        Some((v, j)) => {
            proof {
                lemma_parse_fix_bound(s@, i + 1 as int, (n - 1) as nat, end as int);
                lemma_pow256_le((n - 1) as nat, 7);
                assert(pow256(7) == 0x100_0000_0000_0000) by {
                    reveal_with_fuel(pow256, 8);
                }
            }
            Some((b as u64 + 256 * v, j))
        },
    }
}

/// Reads a zig-zag-transformed value back into a signed integer.
pub fn unzigzag64(z: u64) -> (r: i64)
    ensures
        r as int == unzigzag(z as nat),
{
    if z % 2 == 0 {
        (z / 2) as i64
    } else {
        -((z / 2) as i64) - 1
    }
}

/// Reads a two's-complement image below 2^64 back into an `i64`.
pub fn i64_from_u64(v: u64) -> (r: i64)
    ensures
        r as int == i64_of_u64(v as nat),
{
    if v < 0x8000_0000_0000_0000 {
        v as i64
    } else {
        -((u64::MAX - v) as i64) - 1
    }
}

/// Reads a timestamp body, mirroring [`parse_time`].
pub fn read_time(s: &[u8], i: usize, end: usize) -> (r: Option<Time>)
    requires
        i <= end <= s@.len(),
    ensures
        match r {
            None => parse_time(s@, i as int, end as int) is None,
            Some(t) => parse_time(s@, i as int, end as int) == Some(t@) && time_wf(t@),
        },
{
    if end - i != 14 {
        return None;
    }
    if s[i] != 0x09 || s[i + 9] != 0x15 {
        return None;
    }
    let rs = read_fix(s, i + 1, 8, end);
    let rn = read_fix(s, i + 10, 4, end);
    match (rs, rn) {
        (Some((sv, _)), Some((nv, _))) => {
            if nv < 1_000_000_000 {
                let seconds = i64_from_u64(sv);
                Some(Time { seconds, nanos: nv as i32 })
            } else {
                None
            }
        },
        _ => None,
    }
}

/// Reads a parts-set-header body, mirroring [`parse_parts`].
pub fn read_parts(s: &[u8], i: usize, end: usize) -> (r: Option<PartsSetHeader>)
    requires
        i <= end <= s@.len(),
    ensures
        match r {
            None => parse_parts(s@, i as int, end as int) is None,
            Some(h) => parse_parts(s@, i as int, end as int) == Some(h@) && parts_wf(h@),
        },
{
    if i >= end || s[i] != 0x08 {
        return None;
    }
    let (z, i1) = match read_varint(s, i + 1, end) {
        None => {
            return None;
        },
        Some(x) => x,
    };
    let total = unzigzag64(z);
    if total < 0 {
        return None;
    }
    if i1 >= end || s[i1] != 0x12 {
        return None;
    }
    let (l, i2) = match read_varint(s, i1 + 1, end) {
        None => {
            return None;
        },
        Some(x) => x,
    };
    if l > (end - i2) as u64 {
        return None;
    }
    let he = i2 + l as usize;
    if he != end || l > 0xFFFF_FFFF {
        return None;
    }
    let hash = copy_range(s, i2, he);
    Some(PartsSetHeader { total, hash })
}

/// Reads a block-identifier body, mirroring [`parse_block_id`].
pub fn read_block_id(s: &[u8], i: usize, end: usize) -> (r: Option<BlockID>)
    requires
        i <= end <= s@.len(),
    ensures
        match r {
            None => parse_block_id(s@, i as int, end as int) is None,
            Some(b) => parse_block_id(s@, i as int, end as int) == Some(b@) && block_id_wf(b@),
        },
{
    if i >= end || s[i] != 0x0a {
        return None;
    }
    let (hl, i2) = match read_varint(s, i + 1, end) {
        None => {
            return None;
        },
        Some(x) => x,
    };
    if hl > (end - i2) as u64 {
        return None;
    }
    let he = i2 + hl as usize;
    if hl > 0xFFFF_FFFF {
        return None;
    }
    if he >= end || s[he] != 0x12 {
        return None;
    }
    let (pl, i4) = match read_varint(s, he + 1, end) {
        None => {
            return None;
        },
        Some(x) => x,
    };
    if pl > (end - i4) as u64 {
        return None;
    }
    let pe = i4 + pl as usize;
    if pe != end {
        return None;
    }
    match read_parts(s, i4, pe) {
        None => None,
        Some(ph) => {
            let hash = copy_range(s, i2, he);
            Some(BlockID { hash, parts_header: ph })
        },
    }
}

/// Reads a proposal body, mirroring [`parse_proposal`].
#[verifier::rlimit(100)]
#[verifier::spinoff_prover]
pub fn read_proposal(s: &[u8], i: usize, end: usize) -> (r: Option<Proposal>)
    requires
        i <= end <= s@.len(),
    ensures
        match r {
            None => parse_proposal(s@, i as int, end as int) is None,
            Some(p) => parse_proposal(s@, i as int, end as int) == Some(p@) && proposal_wf(p@),
        },
{
    if i >= end || s[i] != 0x08 {
        return None;
    }
    let (z1, i1) = match read_varint(s, i + 1, end) {
        None => {
            return None;
        },
        Some(x) => x,
    };
    let height = unzigzag64(z1);
    if height < 1 {
        return None;
    }
    if i1 >= end || s[i1] != 0x10 {
        return None;
    }
    let (z2, i2) = match read_varint(s, i1 + 1, end) {
        None => {
            return None;
        },
        Some(x) => x,
    };
    let round = unzigzag64(z2);
    if round < 0 {
        return None;
    }
    if i2 >= end || s[i2] != 0x1a {
        return None;
    }
    let (tl, i3) = match read_varint(s, i2 + 1, end) {
        None => {
            return None;
        },
        Some(x) => x,
    };
    if tl > (end - i3) as u64 {
        return None;
    }
    let te = i3 + tl as usize;
    let timestamp = match read_time(s, i3, te) {
        None => {
            return None;
        },
        Some(t) => t,
    };
    if te >= end || s[te] != 0x22 {
        return None;
    }
    let (pl, i4) = match read_varint(s, te + 1, end) {
        None => {
            return None;
        },
        Some(x) => x,
    };
    if pl > (end - i4) as u64 {
        return None;
    }
    let pe = i4 + pl as usize;
    let bph = match read_parts(s, i4, pe) {
        None => {
            return None;
        },
        Some(h) => h,
    };
    if pe >= end || s[pe] != 0x28 {
        return None;
    }
    let (z5, i5) = match read_varint(s, pe + 1, end) {
        None => {
            return None;
        },
        Some(x) => x,
    };
    let pol_round = unzigzag64(z5);
    if pol_round < -1 {
        return None;
    }
    if i5 == end {
        return Some(
            Proposal {
                height,
                round,
                timestamp,
                block_parts_header: bph,
                pol_round,
                pol_block_id: None,
            },
        );
    }
    if s[i5] != 0x32 {
        return None;
    }
    let (bl, i6) = match read_varint(s, i5 + 1, end) {
        None => {
            return None;
        },
        Some(x) => x,
    };
    if bl > (end - i6) as u64 {
        return None;
    }
    let be = i6 + bl as usize;
    if be != end {
        return None;
    }
    match read_block_id(s, i6, be) {
        None => None,
        Some(b) => Some(
            Proposal {
                height,
                round,
                timestamp,
                block_parts_header: bph,
                pol_round,
                pol_block_id: Some(b),
            },
        ),
    }
}

/// Reads an envelope body, mirroring [`parse_msg_body`].
pub fn read_msg_body(s: &[u8], i: usize, end: usize) -> (r: Option<SignProposalMsg>)
    requires
        i <= end <= s@.len(),
    ensures
        match r {
            None => parse_msg_body(s@, i as int, end as int) is None,
            Some(m) => parse_msg_body(s@, i as int, end as int) == Some(m@) && msg_wf(m@),
        },
{
    if i >= end || s[i] != 0x0a {
        return None;
    }
    let (pl, i2) = match read_varint(s, i + 1, end) {
        None => {
            return None;
        },
        Some(x) => x,
    };
    if pl > (end - i2) as u64 {
        return None;
    }
    let pe = i2 + pl as usize;
    let proposal = match read_proposal(s, i2, pe) {
        None => {
            return None;
        },
        Some(p) => p,
    };
    if pe == end {
        return Some(SignProposalMsg { proposal, signature: None });
    }
    if s[pe] != 0x12 {
        return None;
    }
    let (sl, i3) = match read_varint(s, pe + 1, end) {
        None => {
            return None;
        },
        Some(x) => x,
    };
    if sl > (end - i3) as u64 {
        return None;
    }
    let se = i3 + sl as usize;
    if se != end || sl != 64 {
        return None;
    }
    let sig = copy_range(s, i3, se);
    Some(SignProposalMsg { proposal, signature: Some(sig) })
}

impl SignProposalMsg {
    /// Decodes a full wire frame. Succeeds exactly on the canonical encoding
    /// of a well-formed envelope, and then returns that envelope; a readable
    /// frame whose four-byte type prefix is not this registry's is refused
    /// as `UnknownMessageType`, every other malformed input as `Encoding`.
    pub fn decode(data: &[u8]) -> (r: Result<SignProposalMsg, Error>)
        ensures
            match r {
                Ok(m) => parse_wire(data@) == Some(m@) && msg_wf(m@) && data@ == enc_wire(m@),
                Err(e) => parse_wire(data@) is None && (e == Error::UnknownMessageType
                    <==> frame_prefix_unknown(data@)) && (e == Error::UnknownMessageType || e
                    == Error::Encoding),
            },
    {
        proof {
            lemma_parse_wire_sound(data@);
        }
        let n = data.len();
        let (l, j) = match read_varint(data, 0, n) {
            None => {
                return Err(Error::Encoding);
            },
            Some(x) => x,
        };
        if n - j < 4 {
            return Err(Error::Encoding);
        }
        if !(data[j] == 0x5d && data[j + 1] == 0x48 && data[j + 2] == 0x70 && data[j + 3] == 0x04) {
            proof {
                let sub = data@.subrange(j as int, j + 4);
                assert(sub[0] == data@[j as int] && sub[1] == data@[j + 1] && sub[2] == data@[j + 2]
                    && sub[3] == data@[j + 3]);
                assert(sub != msg_prefix());
            }
            return Err(Error::UnknownMessageType);
        }
        proof {
            assert(data@.subrange(j as int, j + 4) =~= msg_prefix());
        }
        if l < 4 || (n - j) as u64 != l {
            return Err(Error::Encoding);
        }
        match read_msg_body(data, j + 4, n) {
            None => Err(Error::Encoding),
            Some(m) => Ok(m),
        }
    }
}

} // verus!
