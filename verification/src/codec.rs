//! The canonical encoding, as a mathematical function: spec-level encoders
//! mapping each view to its unique byte sequence, and spec-level parsers
//! mapping byte sequences back.
//!
//! Every field is a tag byte (field number shifted left three bits, combined
//! with the wire-type code) followed by its payload. Signed integers go
//! through the zig-zag transform and then a base-128 varint; nested messages
//! and byte strings are length-delimited; the timestamp's fields are
//! fixed-width little-endian. The optional fields (`pol_block_id`, the
//! envelope's `signature`) contribute zero bytes when absent.

use vstd::prelude::*;

use crate::types::{
    TimeV, PartsSetHeaderV, BlockIdV, ProposalV, SignProposalMsgV,
};

verus! {

/// Base-128 varint: seven low bits per byte, least significant group first,
/// continuation bit set on every byte but the last.
pub open spec fn varint(n: nat) -> Seq<u8>
    decreases n,
{
    if n < 128 {
        seq![n as u8]
    } else {
        seq![(128 + n % 128) as u8] + varint(n / 128)
    }
}

/// Little-endian encoding of `v` on exactly `n` bytes.
pub open spec fn le_bytes(v: nat, n: nat) -> Seq<u8>
    decreases n,
{
    if n == 0 {
        Seq::empty()
    } else {
        seq![(v % 256) as u8] + le_bytes(v / 256, (n - 1) as nat)
    }
}

/// 128 to the power `k`: the number of values a `k`-byte varint can hold.
pub open spec fn pow128(k: nat) -> nat
    decreases k,
{
    if k == 0 {
        1
    } else {
        128 * pow128((k - 1) as nat)
    }
}

/// 256 to the power `n`: the number of values an `n`-byte field can hold.
pub open spec fn pow256(n: nat) -> nat
    decreases n,
{
    if n == 0 {
        1
    } else {
        256 * pow256((n - 1) as nat)
    }
}

/// Zig-zag transform: maps signed integers onto naturals so that small
/// magnitudes of either sign stay small.
pub open spec fn zigzag(v: int) -> nat {
    if v >= 0 {
        (2 * v) as nat
    } else {
        (-2 * v - 1) as nat
    }
}

/// Inverse of [`zigzag`].
pub open spec fn unzigzag(z: nat) -> int {
    if z % 2 == 0 {
        (z / 2) as int
    } else {
        -((z / 2) as int) - 1
    }
}

/// The two's-complement image of an `i64` value as a natural below 2^64.
pub open spec fn u64_of_i64(v: int) -> nat {
    if v >= 0 {
        v as nat
    } else {
        (v + 0x1_0000_0000_0000_0000) as nat
    }
}

/// Inverse of [`u64_of_i64`]: reads a natural below 2^64 as an `i64` value.
pub open spec fn i64_of_u64(v: nat) -> int {
    if v < 0x8000_0000_0000_0000 {
        v as int
    } else {
        v - 0x1_0000_0000_0000_0000
    }
}

/// A zig-zag varint field: tag byte, then the varint of the transform.
pub open spec fn enc_sint_field(tag: u8, v: int) -> Seq<u8> {
    seq![tag] + varint(zigzag(v))
}

/// A length-delimited field: tag byte, payload length as varint, payload.
pub open spec fn enc_len_field(tag: u8, payload: Seq<u8>) -> Seq<u8> {
    seq![tag] + varint(payload.len()) + payload
}

/// Canonical encoding of a timestamp: seconds as a fixed 64-bit field,
/// nanoseconds as a fixed 32-bit field, both little-endian.
pub open spec fn enc_time(t: TimeV) -> Seq<u8> {
    seq![0x09u8] + le_bytes(u64_of_i64(t.seconds), 8) + seq![0x15u8] + le_bytes(t.nanos as nat, 4)
}

/// Canonical encoding of a parts-set header: total then hash.
pub open spec fn enc_parts(h: PartsSetHeaderV) -> Seq<u8> {
    enc_sint_field(0x08, h.total) + enc_len_field(0x12, h.hash)
}

/// Canonical encoding of a block identifier: hash then parts header.
pub open spec fn enc_block_id(b: BlockIdV) -> Seq<u8> {
    enc_len_field(0x0a, b.hash) + enc_len_field(0x12, enc_parts(b.parts_header))
}

/// Canonical encoding of a proposal: its six fields in ascending field
/// number, the absent `pol_block_id` contributing zero bytes. These are the
/// sign bytes: the signature is no field of this message.
pub open spec fn enc_proposal(p: ProposalV) -> Seq<u8> {
    enc_sint_field(0x08, p.height) + enc_sint_field(0x10, p.round) + enc_len_field(
        0x1a,
        enc_time(p.timestamp),
    ) + enc_len_field(0x22, enc_parts(p.block_parts_header)) + enc_sint_field(0x28, p.pol_round)
        + match p.pol_block_id {
        None => Seq::empty(),
        Some(b) => enc_len_field(0x32, enc_block_id(b)),
    }
}

/// Canonical encoding of the envelope body: the proposal as field one, the
/// signature as field two when present.
pub open spec fn enc_msg_body(m: SignProposalMsgV) -> Seq<u8> {
    enc_len_field(0x0a, enc_proposal(m.proposal)) + match m.signature {
        None => Seq::empty(),
        Some(s) => enc_len_field(0x12, s),
    }
}

/// The registry's four-byte type prefix for the sign-proposal envelope,
/// derived once from its well-known protocol name.
pub open spec fn msg_prefix() -> Seq<u8> {
    seq![0x5du8, 0x48u8, 0x70u8, 0x04u8]
}

/// The full wire frame: total length of prefix plus body as a varint, the
/// four-byte type prefix, then the body.
pub open spec fn enc_wire(m: SignProposalMsgV) -> Seq<u8> {
    varint((4 + enc_msg_body(m).len()) as nat) + msg_prefix() + enc_msg_body(m)
}

/// The sign bytes of an envelope: the canonical encoding of its proposal
/// alone — never the signature, never the wire frame.
pub open spec fn sign_bytes_of(m: SignProposalMsgV) -> Seq<u8> {
    enc_proposal(m.proposal)
}

/// Parses a canonical varint inside `s[i..end)`: the value and the cursor
/// after it. Rejects paddings with spurious continuation bytes and values
/// that exceed 64 bits.
pub open spec fn parse_varint(s: Seq<u8>, i: int, end: int) -> Option<(nat, int)>
    decreases end - i,
{
    if i < 0 || end > s.len() || i >= end {
        None
    } else if s[i] < 128 {
        Some((s[i] as nat, i + 1))
    } else {
        match parse_varint(s, i + 1, end) {
            None => None,
            Some((v, j)) => {
                if v == 0 || v * 128 + (s[i] - 128) >= 0x1_0000_0000_0000_0000 {
                    None
                } else {
                    Some(((v * 128 + (s[i] - 128)) as nat, j))
                }
            },
        }
    }
}

/// Parses a fixed-width little-endian natural on `n` bytes.
pub open spec fn parse_fix(s: Seq<u8>, i: int, n: nat, end: int) -> Option<(nat, int)>
    decreases n,
{
    if i < 0 || end > s.len() || i + n > end {
        None
    } else if n == 0 {
        Some((0, i))
    } else {
        match parse_fix(s, i + 1, (n - 1) as nat, end) {
            None => None,
            Some((v, j)) => Some(((s[i] + 256 * v) as nat, j)),
        }
    }
}

/// Parses a zig-zag varint field with the given tag byte.
pub open spec fn parse_sint(s: Seq<u8>, i: int, end: int, tag: u8) -> Option<(int, int)> {
    if i < 0 || end > s.len() || i >= end || s[i] != tag {
        None
    } else {
        match parse_varint(s, i + 1, end) {
            None => None,
            Some((z, j)) => Some((unzigzag(z), j)),
        }
    }
}

/// Parses the header of a length-delimited field with the given tag byte:
/// the payload's start and end cursors.
pub open spec fn parse_len(s: Seq<u8>, i: int, end: int, tag: u8) -> Option<(int, int)> {
    if i < 0 || end > s.len() || i >= end || s[i] != tag {
        None
    } else {
        match parse_varint(s, i + 1, end) {
            None => None,
            Some((l, j)) => if j + l > end {
                None
            } else {
                Some((j, j + l))
            },
        }
    }
}

/// Parses a timestamp body filling `s[i..end)` exactly.
pub open spec fn parse_time(s: Seq<u8>, i: int, end: int) -> Option<TimeV> {
    if i < 0 || end > s.len() || end - i != 14 {
        None
    } else if s[i] != 0x09 || s[i + 9] != 0x15 {
        None
    } else {
        match (parse_fix(s, i + 1, 8, end), parse_fix(s, i + 10, 4, end)) {
            (Some((sec, _)), Some((ns, _))) => {
                if ns < 1_000_000_000 {
                    Some(TimeV { seconds: i64_of_u64(sec), nanos: ns as int })
                } else {
                    None
                }
            },
            _ => None,
        }
    }
}

/// Parses a parts-set header body filling `s[i..end)` exactly.
pub open spec fn parse_parts(s: Seq<u8>, i: int, end: int) -> Option<PartsSetHeaderV> {
    match parse_sint(s, i, end, 0x08) {
        None => None,
        Some((total, i1)) => {
            if !(0 <= total) {
                None
            } else {
                match parse_len(s, i1, end, 0x12) {
                    None => None,
                    Some((hs, he)) => {
                        if he != end || he - hs > 0xFFFF_FFFF {
                            None
                        } else {
                            Some(PartsSetHeaderV { total, hash: s.subrange(hs, he) })
                        }
                    },
                }
            }
        },
    }
}

/// Parses a block-identifier body filling `s[i..end)` exactly.
pub open spec fn parse_block_id(s: Seq<u8>, i: int, end: int) -> Option<BlockIdV> {
    match parse_len(s, i, end, 0x0a) {
        None => None,
        Some((hs, he)) => {
            if he - hs > 0xFFFF_FFFF {
                None
            } else {
                match parse_len(s, he, end, 0x12) {
                    None => None,
                    Some((ps, pe)) => {
                        if pe != end {
                            None
                        } else {
                            match parse_parts(s, ps, pe) {
                                None => None,
                                Some(ph) => Some(
                                    BlockIdV { hash: s.subrange(hs, he), parts_header: ph },
                                ),
                            }
                        }
                    },
                }
            }
        },
    }
}

/// Parses a proposal body filling `s[i..end)` exactly, enforcing the
/// well-formedness bounds on every numeric field.
pub open spec fn parse_proposal(s: Seq<u8>, i: int, end: int) -> Option<ProposalV> {
    match parse_sint(s, i, end, 0x08) {
        None => None,
        Some((height, i1)) => {
            if !(1 <= height) {
                None
            } else {
                match parse_sint(s, i1, end, 0x10) {
                    None => None,
                    Some((round, i2)) => {
                        if !(0 <= round) {
                            None
                        } else {
                            match parse_len(s, i2, end, 0x1a) {
                                None => None,
                                Some((ts, te)) => {
                                    match parse_time(s, ts, te) {
                                        None => None,
                                        Some(timestamp) => parse_proposal_tail(
                                            s, te, end, height, round, timestamp,
                                        ),
                                    }
                                },
                            }
                        }
                    },
                }
            }
        },
    }
}

/// Continues [`parse_proposal`] after the timestamp: the parts header, the
/// proof-of-lock round, and the optional proof-of-lock block identifier.
pub open spec fn parse_proposal_tail(
    s: Seq<u8>,
    i: int,
    end: int,
    height: int,
    round: int,
    timestamp: TimeV,
) -> Option<ProposalV> {
    match parse_len(s, i, end, 0x22) {
        None => None,
        Some((ps, pe)) => {
            match parse_parts(s, ps, pe) {
                None => None,
                Some(bph) => {
                    match parse_sint(s, pe, end, 0x28) {
                        None => None,
                        Some((pol_round, i5)) => {
                            if !(-1 <= pol_round) {
                                None
                            } else if i5 == end {
                                Some(
                                    ProposalV {
                                        height,
                                        round,
                                        timestamp,
                                        block_parts_header: bph,
                                        pol_round,
                                        pol_block_id: None,
                                    },
                                )
                            } else {
                                match parse_len(s, i5, end, 0x32) {
                                    None => None,
                                    Some((bs, be)) => {
                                        if be != end {
                                            None
                                        } else {
                                            match parse_block_id(s, bs, be) {
                                                None => None,
                                                Some(b) => Some(
                                                    ProposalV {
                                                        height,
                                                        round,
                                                        timestamp,
                                                        block_parts_header: bph,
                                                        pol_round,
                                                        pol_block_id: Some(b),
                                                    },
                                                ),
                                            }
                                        }
                                    },
                                }
                            }
                        },
                    }
                },
            }
        },
    }
}

/// Parses an envelope body filling `s[i..end)` exactly: the proposal and,
/// when bytes remain, the 64-byte signature.
pub open spec fn parse_msg_body(s: Seq<u8>, i: int, end: int) -> Option<SignProposalMsgV> {
    match parse_len(s, i, end, 0x0a) {
        None => None,
        Some((ps, pe)) => {
            match parse_proposal(s, ps, pe) {
                None => None,
                Some(proposal) => {
                    if pe == end {
                        Some(SignProposalMsgV { proposal, signature: None })
                    } else {
                        match parse_len(s, pe, end, 0x12) {
                            None => None,
                            Some((ss, se)) => {
                                if se != end || se - ss != 64 {
                                    None
                                } else {
                                    Some(
                                        SignProposalMsgV {
                                            proposal,
                                            signature: Some(s.subrange(ss, se)),
                                        },
                                    )
                                }
                            },
                        }
                    }
                },
            }
        },
    }
}

/// True when `s` opens with a parsable frame length and four prefix bytes
/// that are not this registry's prefix: the unknown-message-type condition.
pub open spec fn frame_prefix_unknown(s: Seq<u8>) -> bool {
    match parse_varint(s, 0, s.len() as int) {
        None => false,
        Some((_, j)) => j + 4 <= s.len() && s.subrange(j, j + 4) != msg_prefix(),
    }
}

/// Parses a whole wire frame: the total length, the type prefix, the body,
/// with nothing left over.
pub open spec fn parse_wire(s: Seq<u8>) -> Option<SignProposalMsgV> {
    match parse_varint(s, 0, s.len() as int) {
        None => None,
        Some((l, j)) => {
            if l < 4 || j + l != s.len() || j + 4 > s.len() {
                None
            } else if s.subrange(j, j + 4) != msg_prefix() {
                None
            } else {
                parse_msg_body(s, j + 4, s.len() as int)
            }
        },
    }
}

} // verus!
