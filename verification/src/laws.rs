//! The codec's laws: helper lemmas about the spec-level encoders and
//! parsers, and the public statements that the encoding is injective, that
//! decoding inverts encoding, that sign bytes ignore the signature, that an
//! absent proof-of-lock block identifier costs strictly fewer bytes, and
//! that the zig-zag transform keeps small negative rounds one byte long.

use vstd::prelude::*;

use crate::codec::{
    varint, le_bytes, pow128, pow256, zigzag, unzigzag, u64_of_i64, i64_of_u64, enc_sint_field,
    enc_len_field, enc_time, enc_parts, enc_block_id, enc_proposal, enc_msg_body, enc_wire,
    msg_prefix, sign_bytes_of, parse_varint, parse_fix, parse_sint, parse_len, parse_time,
    parse_parts, parse_block_id, parse_proposal, parse_proposal_tail, parse_msg_body, parse_wire,
};
use crate::types::{
    TimeV, PartsSetHeaderV, BlockIdV, ProposalV, SignProposalMsgV, time_wf, parts_wf, block_id_wf,
    proposal_wf, msg_wf,
};

verus! {

/// A sequence that holds a concatenation splits into its two parts.
pub proof fn lemma_split(s: Seq<u8>, i: int, a: Seq<u8>, b: Seq<u8>)
    requires
        0 <= i,
        i + a.len() + b.len() <= s.len(),
        s.subrange(i, i + a.len() + b.len()) == a + b,
    ensures
        s.subrange(i, i + a.len()) == a,
        s.subrange(i + a.len(), i + a.len() + b.len()) == b,
{
    let ab = a + b;
    assert(s.subrange(i, i + a.len()) =~= a) by {
        assert forall|k: int| 0 <= k < a.len() implies s.subrange(i, i + a.len())[k] == a[k] by {
            assert(s[i + k] == ab[k]);
        }
    }
    assert(s.subrange(i + a.len(), i + a.len() + b.len()) =~= b) by {
        assert forall|k: int| 0 <= k < b.len() implies s.subrange(
            i + a.len(),
            i + a.len() + b.len(),
        )[k] == b[k] by {
            assert(s[i + a.len() + k] == ab[a.len() + k]);
        }
    }
}

pub proof fn lemma_varint_len(n: nat, k: nat)
    requires
        1 <= k,
        n < pow128(k),
    ensures
        1 <= varint(n).len() <= k,
    decreases n,
{
    if n >= 128 {
        assert(pow128(k) == 128 * pow128((k - 1) as nat));
        if k == 1 {
            assert(pow128(1) == 128 * pow128(0));
            assert(false);
        }
        assert(n / 128 < pow128((k - 1) as nat)) by {
            assert(n < 128 * pow128((k - 1) as nat));
        }
        lemma_varint_len(n / 128, (k - 1) as nat);
    }
}

/// Every 64-bit value's varint takes at most ten bytes.
pub proof fn lemma_varint_len64(n: nat)
    requires
        n < 0x1_0000_0000_0000_0000,
    ensures
        1 <= varint(n).len() <= 10,
{
    assert(pow128(10) == 0x40_0000_0000_0000_0000) by {
        reveal_with_fuel(pow128, 11);
    }
    lemma_varint_len(n, 10);
}

pub proof fn lemma_le_len(v: nat, n: nat)
    ensures
        le_bytes(v, n).len() == n,
    decreases n,
{
    if n > 0 {
        lemma_le_len(v / 256, (n - 1) as nat);
    }
}

/// A value in an `i64`'s range zig-zags to a 64-bit natural, and back.
pub proof fn lemma_zigzag_roundtrip(v: int)
    ensures
        unzigzag(zigzag(v)) == v,
        -0x8000_0000_0000_0000 <= v < 0x8000_0000_0000_0000 ==> zigzag(v)
            < 0x1_0000_0000_0000_0000,
{
}

/// A 64-bit natural un-zig-zags into the `i64` range.
pub proof fn lemma_unzigzag_range(z: nat)
    requires
        z < 0x1_0000_0000_0000_0000,
    ensures
        -0x8000_0000_0000_0000 <= unzigzag(z) < 0x8000_0000_0000_0000,
        zigzag(unzigzag(z)) == z,
{
}

/// Two's-complement image and reading are mutually inverse.
pub proof fn lemma_u64_i64_roundtrip(v: int)
    requires
        -0x8000_0000_0000_0000 <= v < 0x8000_0000_0000_0000,
    ensures
        u64_of_i64(v) < 0x1_0000_0000_0000_0000,
        i64_of_u64(u64_of_i64(v)) == v,
{
}

pub proof fn lemma_enc_time_len(t: TimeV)
    ensures
        enc_time(t).len() == 14,
{
    lemma_le_len(u64_of_i64(t.seconds), 8);
    lemma_le_len(t.nanos as nat, 4);
}

pub proof fn lemma_enc_sint_len(tag: u8, v: int)
    requires
        -0x8000_0000_0000_0000 <= v < 0x8000_0000_0000_0000,
    ensures
        2 <= enc_sint_field(tag, v).len() <= 11,
{
    lemma_zigzag_roundtrip(v);
    lemma_varint_len64(zigzag(v));
}

pub proof fn lemma_enc_len_len(tag: u8, payload: Seq<u8>)
    requires
        payload.len() < 0x1_0000_0000_0000_0000,
    ensures
        2 + payload.len() <= enc_len_field(tag, payload).len() <= 11 + payload.len(),
{
    lemma_varint_len64(payload.len());
}

pub proof fn lemma_enc_parts_len(h: PartsSetHeaderV)
    requires
        parts_wf(h),
    ensures
        4 <= enc_parts(h).len() <= 22 + h.hash.len(),
{
    lemma_enc_sint_len(0x08, h.total);
    lemma_enc_len_len(0x12, h.hash);
}

pub proof fn lemma_enc_block_id_len(b: BlockIdV)
    requires
        block_id_wf(b),
    ensures
        6 <= enc_block_id(b).len() <= 0x2_0000_0040,
{
    lemma_enc_len_len(0x0a, b.hash);
    lemma_enc_parts_len(b.parts_header);
    lemma_enc_len_len(0x12, enc_parts(b.parts_header));
}

pub proof fn lemma_enc_proposal_len(p: ProposalV)
    requires
        proposal_wf(p),
    ensures
        enc_proposal(p).len() <= 0x4_0000_0100,
{
    lemma_enc_sint_len(0x08, p.height);
    lemma_enc_sint_len(0x10, p.round);
    lemma_enc_time_len(p.timestamp);
    lemma_enc_len_len(0x1a, enc_time(p.timestamp));
    lemma_enc_parts_len(p.block_parts_header);
    lemma_enc_len_len(0x22, enc_parts(p.block_parts_header));
    lemma_enc_sint_len(0x28, p.pol_round);
    match p.pol_block_id {
        None => {},
        Some(b) => {
            lemma_enc_block_id_len(b);
            lemma_enc_len_len(0x32, enc_block_id(b));
        },
    }
}

/// A well-formed envelope's body is far smaller than 2^64 bytes, so its
/// length always fits the frame's varint.
pub proof fn lemma_enc_msg_body_len(m: SignProposalMsgV)
    requires
        msg_wf(m),
    ensures
        enc_msg_body(m).len() <= 0x8_0000_0200,
{
    lemma_enc_proposal_len(m.proposal);
    lemma_enc_len_len(0x0a, enc_proposal(m.proposal));
    match m.signature {
        None => {},
        Some(s) => {
            lemma_enc_len_len(0x12, s);
        },
    }
}

/// A canonical varint sitting at `i` parses back to its value.
pub proof fn lemma_parse_varint(s: Seq<u8>, i: int, end: int, n: nat)
    requires
        0 <= i,
        end <= s.len(),
        n < 0x1_0000_0000_0000_0000,
        i + varint(n).len() <= end,
        s.subrange(i, i + varint(n).len()) == varint(n),
    ensures
        parse_varint(s, i, end) == Some((n, i + varint(n).len())),
    decreases n,
{
    if n < 128 {
        assert(s[i] == varint(n)[0]);
    } else {
        let tail = varint(n / 128);
        lemma_split(s, i, seq![(128 + n % 128) as u8], tail);
        assert(s[i] == (128 + n % 128) as u8) by {
            assert(s.subrange(i, i + 1)[0] == s[i]);
        }
        lemma_parse_varint(s, i + 1, end, n / 128);
        assert((n / 128) * 128 + (n % 128) == n);
    }
}

pub proof fn lemma_pow256_le(n: nat, m: nat)
    requires
        n <= m,
    ensures
        pow256(n) <= pow256(m),
    decreases m,
{
    if n < m && m > 0 {
        lemma_pow256_le(n, (m - 1) as nat);
        assert(pow256(m) == 256 * pow256((m - 1) as nat));
    }
}

/// Whatever the fixed-width parser returns is bounded by the field's width.
pub proof fn lemma_parse_fix_bound(s: Seq<u8>, i: int, n: nat, end: int)
    ensures
        match parse_fix(s, i, n, end) {
            None => true,
            Some((v, j)) => v < pow256(n) && j == i + n,
        },
    decreases n,
{
    if !(i < 0 || end > s.len() || i + n > end) && n > 0 {
        lemma_parse_fix_bound(s, i + 1, (n - 1) as nat, end);
        assert(pow256(n) == 256 * pow256((n - 1) as nat));
    }
}

/// A canonical fixed-width little-endian field parses back to its value.
pub proof fn lemma_parse_fix(s: Seq<u8>, i: int, end: int, n: nat, v: nat)
    requires
        0 <= i,
        end <= s.len(),
        v < pow256(n),
        i + n <= end,
        s.subrange(i, i + n) == le_bytes(v, n),
    ensures
        parse_fix(s, i, n, end) == Some((v, i + n)),
    decreases n,
{
    lemma_le_len(v, n);
    if n == 0 {
        assert(pow256(0) == 1);
    } else {
        let tail = le_bytes(v / 256, (n - 1) as nat);
        lemma_le_len(v / 256, (n - 1) as nat);
        lemma_split(s, i, seq![(v % 256) as u8], tail);
        assert(s[i] == (v % 256) as u8) by {
            assert(s.subrange(i, i + 1)[0] == s[i]);
        }
        assert(v / 256 < pow256((n - 1) as nat)) by {
            assert(pow256(n) == 256 * pow256((n - 1) as nat));
        }
        lemma_parse_fix(s, i + 1, end, (n - 1) as nat, v / 256);
        assert((v % 256) + 256 * (v / 256) == v);
    }
}

/// Every value the varint parser returns is below 2^64.
pub proof fn lemma_parse_varint_bound(s: Seq<u8>, i: int, end: int)
    ensures
        match parse_varint(s, i, end) {
            None => true,
            Some((v, j)) => v < 0x1_0000_0000_0000_0000 && i < j <= end,
        },
    decreases end - i,
{
    if 0 <= i && end <= s.len() && i < end && s[i] >= 128 {
        lemma_parse_varint_bound(s, i + 1, end);
    }
}

/// A canonical zig-zag varint field parses back to its value.
pub proof fn lemma_parse_sint(s: Seq<u8>, i: int, end: int, tag: u8, v: int)
    requires
        0 <= i,
        end <= s.len(),
        -0x8000_0000_0000_0000 <= v < 0x8000_0000_0000_0000,
        i + enc_sint_field(tag, v).len() <= end,
        s.subrange(i, i + enc_sint_field(tag, v).len()) == enc_sint_field(tag, v),
    ensures
        parse_sint(s, i, end, tag) == Some((v, i + enc_sint_field(tag, v).len())),
{
    lemma_zigzag_roundtrip(v);
    lemma_split(s, i, seq![tag], varint(zigzag(v)));
    assert(s[i] == tag) by {
        assert(s.subrange(i, i + 1)[0] == s[i]);
    }
    lemma_parse_varint(s, i + 1, end, zigzag(v));
}

/// A canonical length-delimited field parses back to its payload bounds.
pub proof fn lemma_parse_len(s: Seq<u8>, i: int, end: int, tag: u8, payload: Seq<u8>)
    requires
        0 <= i,
        end <= s.len(),
        payload.len() < 0x1_0000_0000_0000_0000,
        i + enc_len_field(tag, payload).len() <= end,
        s.subrange(i, i + enc_len_field(tag, payload).len()) == enc_len_field(tag, payload),
    ensures
        ({
            let bs = i + 1 + varint(payload.len()).len();
            parse_len(s, i, end, tag) == Some((bs, bs + payload.len())) && s.subrange(
                bs,
                bs + payload.len(),
            ) == payload && bs + payload.len() == i + enc_len_field(tag, payload).len()
        }),
{
    lemma_split(s, i, seq![tag] + varint(payload.len()), payload);
    lemma_split(s, i, seq![tag], varint(payload.len()));
    assert(s[i] == tag) by {
        assert(s.subrange(i, i + 1)[0] == s[i]);
    }
    lemma_parse_varint(s, i + 1, end, payload.len());
}

/// A canonical timestamp body parses back to its value.
pub proof fn lemma_parse_time(s: Seq<u8>, i: int, t: TimeV)
    requires
        time_wf(t),
        0 <= i,
        i + 14 <= s.len(),
        s.subrange(i, i + 14) == enc_time(t),
    ensures
        parse_time(s, i, i + 14) == Some(t),
{
    let le8 = le_bytes(u64_of_i64(t.seconds), 8);
    let le4 = le_bytes(t.nanos as nat, 4);
    lemma_le_len(u64_of_i64(t.seconds), 8);
    lemma_le_len(t.nanos as nat, 4);
    lemma_split(s, i, seq![0x09u8] + le8 + seq![0x15u8], le4);
    lemma_split(s, i, seq![0x09u8] + le8, seq![0x15u8]);
    lemma_split(s, i, seq![0x09u8], le8);
    assert(s[i] == 0x09u8) by {
        assert(s.subrange(i, i + 1)[0] == s[i]);
    }
    assert(s[i + 9] == 0x15u8) by {
        assert(s.subrange(i + 9, i + 10) == seq![0x15u8]);
        assert(s.subrange(i + 9, i + 10)[0] == s[i + 9]);
    }
    lemma_u64_i64_roundtrip(t.seconds);
    assert(pow256(8) == 0x1_0000_0000_0000_0000) by {
        reveal_with_fuel(pow256, 9);
    }
    assert(pow256(4) == 0x1_0000_0000) by {
        reveal_with_fuel(pow256, 5);
    }
    lemma_parse_fix(s, i + 1, i + 14, 8, u64_of_i64(t.seconds));
    lemma_parse_fix(s, i + 10, i + 14, 4, t.nanos as nat);
    assert(parse_time(s, i, i + 14) == Some(TimeV { seconds: t.seconds, nanos: t.nanos }));
    assert(TimeV { seconds: t.seconds, nanos: t.nanos } =~= t);
}

/// A canonical parts-set-header body parses back to its value.
pub proof fn lemma_parse_parts(s: Seq<u8>, i: int, h: PartsSetHeaderV)
    requires
        parts_wf(h),
        0 <= i,
        i + enc_parts(h).len() <= s.len(),
        s.subrange(i, i + enc_parts(h).len()) == enc_parts(h),
    ensures
        parse_parts(s, i, i + enc_parts(h).len()) == Some(h),
{
    let end = i + enc_parts(h).len();
    let f1 = enc_sint_field(0x08, h.total);
    let f2 = enc_len_field(0x12, h.hash);
    lemma_split(s, i, f1, f2);
    lemma_parse_sint(s, i, end, 0x08, h.total);
    lemma_parse_len(s, i + f1.len(), end, 0x12, h.hash);
    assert(parse_parts(s, i, end) == Some(PartsSetHeaderV { total: h.total, hash: h.hash }));
    assert(PartsSetHeaderV { total: h.total, hash: h.hash } =~= h);
}

/// A canonical block-identifier body parses back to its value.
pub proof fn lemma_parse_block_id(s: Seq<u8>, i: int, b: BlockIdV)
    requires
        block_id_wf(b),
        0 <= i,
        i + enc_block_id(b).len() <= s.len(),
        s.subrange(i, i + enc_block_id(b).len()) == enc_block_id(b),
    ensures
        parse_block_id(s, i, i + enc_block_id(b).len()) == Some(b),
{
    let end = i + enc_block_id(b).len();
    let f1 = enc_len_field(0x0a, b.hash);
    let parts = enc_parts(b.parts_header);
    let f2 = enc_len_field(0x12, parts);
    lemma_enc_parts_len(b.parts_header);
    lemma_split(s, i, f1, f2);
    lemma_parse_len(s, i, end, 0x0a, b.hash);
    lemma_parse_len(s, i + f1.len(), end, 0x12, parts);
    let ps = i + f1.len() + 1 + varint(parts.len()).len();
    lemma_parse_parts(s, ps, b.parts_header);
    assert(parse_block_id(s, i, end) == Some(
        BlockIdV { hash: b.hash, parts_header: b.parts_header },
    ));
    assert(BlockIdV { hash: b.hash, parts_header: b.parts_header } =~= b);
}

/// A canonical proposal body parses back to its value.
#[verifier::rlimit(100)]
#[verifier::spinoff_prover]
pub proof fn lemma_parse_proposal(s: Seq<u8>, i: int, p: ProposalV)
    requires
        proposal_wf(p),
        0 <= i,
        i + enc_proposal(p).len() <= s.len(),
        s.subrange(i, i + enc_proposal(p).len()) == enc_proposal(p),
    ensures
        parse_proposal(s, i, i + enc_proposal(p).len()) == Some(p),
{
    let end = i + enc_proposal(p).len();
    let f1 = enc_sint_field(0x08, p.height);
    let f2 = enc_sint_field(0x10, p.round);
    let f3 = enc_len_field(0x1a, enc_time(p.timestamp));
    let f4 = enc_len_field(0x22, enc_parts(p.block_parts_header));
    let f5 = enc_sint_field(0x28, p.pol_round);
    let f6 = match p.pol_block_id {
        None => Seq::<u8>::empty(),
        Some(b) => enc_len_field(0x32, enc_block_id(b)),
    };
    lemma_enc_time_len(p.timestamp);
    lemma_enc_parts_len(p.block_parts_header);
    lemma_split(s, i, f1 + f2 + f3 + f4 + f5, f6);
    lemma_split(s, i, f1 + f2 + f3 + f4, f5);
    lemma_split(s, i, f1 + f2 + f3, f4);
    lemma_split(s, i, f1 + f2, f3);
    lemma_split(s, i, f1, f2);
    let i1 = i + f1.len();
    let i2 = i1 + f2.len();
    let i3 = i2 + f3.len();
    let i4 = i3 + f4.len();
    let i5 = i4 + f5.len();
    lemma_parse_sint(s, i, end, 0x08, p.height);
    lemma_parse_sint(s, i1, end, 0x10, p.round);
    lemma_parse_len(s, i2, end, 0x1a, enc_time(p.timestamp));
    let ts = i2 + 1 + varint(enc_time(p.timestamp).len()).len();
    lemma_parse_time(s, ts, p.timestamp);
    lemma_parse_len(s, i3, end, 0x22, enc_parts(p.block_parts_header));
    let ps = i3 + 1 + varint(enc_parts(p.block_parts_header).len()).len();
    lemma_parse_parts(s, ps, p.block_parts_header);
    lemma_parse_sint(s, i4, end, 0x28, p.pol_round);
    match p.pol_block_id {
        None => {
            assert(i5 == end);
            assert(parse_proposal(s, i, end) == Some(
                ProposalV {
                    height: p.height,
                    round: p.round,
                    timestamp: p.timestamp,
                    block_parts_header: p.block_parts_header,
                    pol_round: p.pol_round,
                    pol_block_id: None,
                },
            ));
        },
        Some(b) => {
            lemma_enc_block_id_len(b);
            lemma_parse_len(s, i5, end, 0x32, enc_block_id(b));
            let bs = i5 + 1 + varint(enc_block_id(b).len()).len();
            lemma_parse_block_id(s, bs, b);
            assert(i5 != end);
            assert(parse_proposal(s, i, end) == Some(
                ProposalV {
                    height: p.height,
                    round: p.round,
                    timestamp: p.timestamp,
                    block_parts_header: p.block_parts_header,
                    pol_round: p.pol_round,
                    pol_block_id: Some(b),
                },
            ));
        },
    }
    assert(parse_proposal(s, i, end) == Some(p)) by {
        assert(Some(p) is Some);
        assert(p =~= ProposalV {
            height: p.height,
            round: p.round,
            timestamp: p.timestamp,
            block_parts_header: p.block_parts_header,
            pol_round: p.pol_round,
            pol_block_id: p.pol_block_id,
        });
    }
}

/// A canonical envelope body parses back to its value.
pub proof fn lemma_parse_msg_body(s: Seq<u8>, i: int, m: SignProposalMsgV)
    requires
        msg_wf(m),
        0 <= i,
        i + enc_msg_body(m).len() <= s.len(),
        s.subrange(i, i + enc_msg_body(m).len()) == enc_msg_body(m),
    ensures
        parse_msg_body(s, i, i + enc_msg_body(m).len()) == Some(m),
{
    let end = i + enc_msg_body(m).len();
    let f1 = enc_len_field(0x0a, enc_proposal(m.proposal));
    let f2 = match m.signature {
        None => Seq::<u8>::empty(),
        Some(sig) => enc_len_field(0x12, sig),
    };
    lemma_enc_proposal_len(m.proposal);
    lemma_split(s, i, f1, f2);
    lemma_parse_len(s, i, end, 0x0a, enc_proposal(m.proposal));
    let ps = i + 1 + varint(enc_proposal(m.proposal).len()).len();
    lemma_parse_proposal(s, ps, m.proposal);
    let pe = i + f1.len();
    match m.signature {
        None => {
            assert(pe == end);
        },
        Some(sig) => {
            lemma_parse_len(s, pe, end, 0x12, sig);
            assert(pe != end);
            assert(parse_msg_body(s, i, end) == Some(
                SignProposalMsgV { proposal: m.proposal, signature: Some(sig) },
            ));
        },
    }
    assert(parse_msg_body(s, i, end) == Some(m)) by {
        assert(m =~= SignProposalMsgV { proposal: m.proposal, signature: m.signature });
    }
}

/// Round trip (decode of encode): the canonical wire frame of every
/// well-formed envelope parses back to that envelope, the absent optional
/// fields included.
#[verifier::rlimit(100)]
#[verifier::spinoff_prover]
pub proof fn lemma_wire_round_trip(m: SignProposalMsgV)
    requires
        msg_wf(m),
    ensures
        parse_wire(enc_wire(m)) == Some(m),
{
    let body = enc_msg_body(m);
    let s = enc_wire(m);
    let lv = varint((4 + body.len()) as nat);
    lemma_enc_msg_body_len(m);
    lemma_varint_len64((4 + body.len()) as nat);
    assert(s == lv + msg_prefix() + body);
    assert(s.subrange(0, s.len() as int) == s);
    lemma_split(s, 0, lv + msg_prefix(), body);
    lemma_split(s, 0, lv, msg_prefix());
    lemma_parse_varint(s, 0, s.len() as int, (4 + body.len()) as nat);
    let j = lv.len() as int;
    assert(s.subrange(j, j + 4) == msg_prefix());
    lemma_parse_msg_body(s, j + 4, m);
}

/// Reading a two's-complement image back gives the image's value.
pub proof fn lemma_i64_u64_roundtrip(v: nat)
    requires
        v < 0x1_0000_0000_0000_0000,
    ensures
        -0x8000_0000_0000_0000 <= i64_of_u64(v) < 0x8000_0000_0000_0000,
        u64_of_i64(i64_of_u64(v)) == v,
{
}

/// Whatever the varint parser accepts was a canonical varint.
pub proof fn lemma_parse_varint_sound(s: Seq<u8>, i: int, end: int)
    ensures
        match parse_varint(s, i, end) {
            None => true,
            Some((v, j)) => v < 0x1_0000_0000_0000_0000 && 0 <= i < j <= end <= s.len()
                && s.subrange(i, j) == varint(v),
        },
    decreases end - i,
{
    if !(i < 0 || end > s.len() || i >= end) {
        if s[i] < 128 {
            assert(s.subrange(i, i + 1) =~= varint(s[i] as nat));
        } else {
            lemma_parse_varint_sound(s, i + 1, end);
            match parse_varint(s, i + 1, end) {
                None => {},
                Some((v, j)) => {
                    let n = v * 128 + (s[i] - 128);
                    if v != 0 && n < 0x1_0000_0000_0000_0000 {
                        assert(n >= 128);
                        assert(n % 128 == s[i] - 128 && n / 128 == v) by {
                            assert(n == v * 128 + (s[i] - 128));
                        }
                        assert(s.subrange(i, j) =~= seq![s[i]] + s.subrange(i + 1, j));
                        assert(varint(n as nat) == seq![(128 + n % 128) as u8] + varint(v as nat));
                        assert(s.subrange(i, j) == varint(n as nat));
                    }
                },
            }
        }
    }
}

/// Whatever the fixed-width parser accepts was the value's little-endian
/// bytes.
pub proof fn lemma_parse_fix_sound(s: Seq<u8>, i: int, n: nat, end: int)
    ensures
        match parse_fix(s, i, n, end) {
            None => true,
            Some((v, j)) => v < pow256(n) && 0 <= i && j == i + n && end <= s.len() && j <= end
                && s.subrange(i, j) == le_bytes(v, n),
        },
    decreases n,
{
    lemma_parse_fix_bound(s, i, n, end);
    if !(i < 0 || end > s.len() || i + n > end) {
        if n == 0 {
            assert(s.subrange(i, i) =~= le_bytes(0, 0));
        } else {
            lemma_parse_fix_sound(s, i + 1, (n - 1) as nat, end);
            match parse_fix(s, i + 1, (n - 1) as nat, end) {
                None => {},
                Some((v, j)) => {
                    let w = s[i] + 256 * v;
                    assert(w % 256 == s[i] && w / 256 == v) by {
                        assert(w == v * 256 + s[i]);
                    }
                    assert(s.subrange(i, j) =~= seq![s[i]] + s.subrange(i + 1, j));
                    assert(pow256(n) == 256 * pow256((n - 1) as nat));
                },
            }
        }
    }
}

/// Whatever the zig-zag field parser accepts was a canonical field.
pub proof fn lemma_parse_sint_sound(s: Seq<u8>, i: int, end: int, tag: u8)
    ensures
        match parse_sint(s, i, end, tag) {
            None => true,
            Some((v, j)) => -0x8000_0000_0000_0000 <= v < 0x8000_0000_0000_0000 && 0 <= i < j <= end
                <= s.len() && s.subrange(i, j) == enc_sint_field(tag, v),
        },
{
    if !(i < 0 || end > s.len() || i >= end || s[i] != tag) {
        lemma_parse_varint_sound(s, i + 1, end);
        match parse_varint(s, i + 1, end) {
            None => {},
            Some((z, j)) => {
                lemma_unzigzag_range(z);
                assert(s.subrange(i, j) =~= seq![tag] + s.subrange(i + 1, j));
            },
        }
    }
}

/// Whatever the length-delimited parser accepts was a canonical field whose
/// payload sits between the returned cursors.
pub proof fn lemma_parse_len_sound(s: Seq<u8>, i: int, end: int, tag: u8)
    ensures
        match parse_len(s, i, end, tag) {
            None => true,
            Some((bs, be)) => 0 <= i < bs <= be <= end <= s.len() && be - bs
                < 0x1_0000_0000_0000_0000 && s.subrange(i, be) == enc_len_field(
                tag,
                s.subrange(bs, be),
            ),
        },
{
    if !(i < 0 || end > s.len() || i >= end || s[i] != tag) {
        lemma_parse_varint_sound(s, i + 1, end);
        match parse_varint(s, i + 1, end) {
            None => {},
            Some((l, j)) => {
                if j + l <= end {
                    let payload = s.subrange(j, j + l);
                    assert(s.subrange(i, j + l) =~= seq![tag] + s.subrange(i + 1, j) + payload);
                }
            },
        }
    }
}

/// Whatever the timestamp parser accepts was a canonical timestamp body.
pub proof fn lemma_parse_time_sound(s: Seq<u8>, i: int, end: int)
    ensures
        match parse_time(s, i, end) {
            None => true,
            Some(t) => time_wf(t) && 0 <= i && end == i + 14 && end <= s.len() && s.subrange(
                i,
                end,
            ) == enc_time(t),
        },
{
    if !(i < 0 || end > s.len() || end - i != 14) && s[i] == 0x09 && s[i + 9] == 0x15 {
        lemma_parse_fix_sound(s, i + 1, 8, end);
        lemma_parse_fix_sound(s, i + 10, 4, end);
        match (parse_fix(s, i + 1, 8, end), parse_fix(s, i + 10, 4, end)) {
            (Some((sec, _)), Some((ns, _))) => {
                if ns < 1_000_000_000 {
                    let t = TimeV { seconds: i64_of_u64(sec), nanos: ns as int };
                    assert(pow256(8) == 0x1_0000_0000_0000_0000) by {
                        reveal_with_fuel(pow256, 9);
                    }
                    lemma_i64_u64_roundtrip(sec);
                    assert(s.subrange(i, end) =~= seq![s[i]] + s.subrange(i + 1, i + 9) + seq![
                        s[i + 9],
                    ] + s.subrange(i + 10, i + 14));
                    assert(s.subrange(i, end) == enc_time(t));
                }
            },
            _ => {},
        }
    }
}

/// Whatever the parts-set-header parser accepts was a canonical body.
pub proof fn lemma_parse_parts_sound(s: Seq<u8>, i: int, end: int)
    ensures
        match parse_parts(s, i, end) {
            None => true,
            Some(h) => parts_wf(h) && 0 <= i < end <= s.len() && s.subrange(i, end) == enc_parts(
                h,
            ),
        },
{
    lemma_parse_sint_sound(s, i, end, 0x08);
    match parse_sint(s, i, end, 0x08) {
        None => {},
        Some((total, i1)) => {
            if 0 <= total {
                lemma_parse_len_sound(s, i1, end, 0x12);
                match parse_len(s, i1, end, 0x12) {
                    None => {},
                    Some((hs, he)) => {
                        if he == end && he - hs <= 0xFFFF_FFFF {
                            let h = PartsSetHeaderV { total, hash: s.subrange(hs, he) };
                            assert(s.subrange(i, end) =~= s.subrange(i, i1) + s.subrange(i1, end));
                            assert(s.subrange(i, end) == enc_parts(h));
                        }
                    },
                }
            }
        },
    }
}

/// Whatever the block-identifier parser accepts was a canonical body.
pub proof fn lemma_parse_block_id_sound(s: Seq<u8>, i: int, end: int)
    ensures
        match parse_block_id(s, i, end) {
            None => true,
            Some(b) => block_id_wf(b) && 0 <= i < end <= s.len() && s.subrange(i, end)
                == enc_block_id(b),
        },
{
    lemma_parse_len_sound(s, i, end, 0x0a);
    match parse_len(s, i, end, 0x0a) {
        None => {},
        Some((hs, he)) => {
            if he - hs <= 0xFFFF_FFFF {
                lemma_parse_len_sound(s, he, end, 0x12);
                match parse_len(s, he, end, 0x12) {
                    None => {},
                    Some((ps, pe)) => {
                        if pe == end {
                            lemma_parse_parts_sound(s, ps, pe);
                            match parse_parts(s, ps, pe) {
                                None => {},
                                Some(ph) => {
                                    let b = BlockIdV {
                                        hash: s.subrange(hs, he),
                                        parts_header: ph,
                                    };
                                    assert(s.subrange(i, end) =~= s.subrange(i, he) + s.subrange(
                                        he,
                                        end,
                                    ));
                                    assert(s.subrange(i, end) == enc_block_id(b));
                                },
                            }
                        }
                    },
                }
            }
        },
    }
}

/// Whatever the proposal parser accepts is well formed and was the canonical
/// proposal body: the decoder admits no second spelling of any proposal.
#[verifier::rlimit(100)]
#[verifier::spinoff_prover]
pub proof fn lemma_parse_proposal_sound(s: Seq<u8>, i: int, end: int)
    ensures
        match parse_proposal(s, i, end) {
            None => true,
            Some(p) => proposal_wf(p) && 0 <= i < end <= s.len() && s.subrange(i, end)
                == enc_proposal(p),
        },
{
    lemma_parse_sint_sound(s, i, end, 0x08);
    match parse_sint(s, i, end, 0x08) {
        None => {},
        Some((height, i1)) => {
            if 1 <= height {
                lemma_parse_sint_sound(s, i1, end, 0x10);
                match parse_sint(s, i1, end, 0x10) {
                    None => {},
                    Some((round, i2)) => {
                        if 0 <= round {
                            lemma_parse_len_sound(s, i2, end, 0x1a);
                            match parse_len(s, i2, end, 0x1a) {
                                None => {},
                                Some((ts, te)) => {
                                    lemma_parse_time_sound(s, ts, te);
                                    match parse_time(s, ts, te) {
                                        None => {},
                                        Some(timestamp) => {
                                            lemma_parse_proposal_tail_sound(
                                                s, i, i1, i2, te, end, height, round, timestamp,
                                            );
                                        },
                                    }
                                },
                            }
                        }
                    },
                }
            }
        },
    }
}

/// Continues [`lemma_parse_proposal_sound`] past the timestamp.
#[verifier::rlimit(100)]
#[verifier::spinoff_prover]
proof fn lemma_parse_proposal_tail_sound(
    s: Seq<u8>,
    i: int,
    i1: int,
    i2: int,
    te: int,
    end: int,
    height: int,
    round: int,
    timestamp: TimeV,
)
    requires
        0 <= i < i1 < i2 < te <= end <= s.len(),
        time_wf(timestamp),
        -0x8000_0000_0000_0000 <= height < 0x8000_0000_0000_0000,
        1 <= height,
        -0x8000_0000_0000_0000 <= round < 0x8000_0000_0000_0000,
        0 <= round,
        s.subrange(i, i1) == enc_sint_field(0x08, height),
        s.subrange(i1, i2) == enc_sint_field(0x10, round),
        s.subrange(i2, te) == enc_len_field(0x1a, enc_time(timestamp)),
    ensures
        match parse_proposal_tail(s, te, end, height, round, timestamp) {
            None => true,
            Some(p) => proposal_wf(p) && s.subrange(i, end) == enc_proposal(p),
        },
{
    lemma_parse_len_sound(s, te, end, 0x22);
    match parse_len(s, te, end, 0x22) {
        None => {},
        Some((ps, pe)) => {
            lemma_parse_parts_sound(s, ps, pe);
            match parse_parts(s, ps, pe) {
                None => {},
                Some(bph) => {
                    lemma_parse_sint_sound(s, pe, end, 0x28);
                    match parse_sint(s, pe, end, 0x28) {
                        None => {},
                        Some((pol_round, i5)) => {
                            if -1 <= pol_round {
                                if i5 == end {
                                    let p = ProposalV {
                                        height,
                                        round,
                                        timestamp,
                                        block_parts_header: bph,
                                        pol_round,
                                        pol_block_id: None,
                                    };
                                    assert(s.subrange(i, end) =~= s.subrange(i, i1) + s.subrange(
                                        i1,
                                        i2,
                                    ) + s.subrange(i2, te) + s.subrange(te, pe) + s.subrange(
                                        pe,
                                        i5,
                                    ));
                                    assert(enc_proposal(p) == enc_sint_field(0x08, height)
                                        + enc_sint_field(0x10, round) + enc_len_field(
                                        0x1a,
                                        enc_time(timestamp),
                                    ) + enc_len_field(0x22, enc_parts(bph)) + enc_sint_field(
                                        0x28,
                                        pol_round,
                                    ) + Seq::<u8>::empty());
                                    assert(enc_len_field(0x22, enc_parts(bph)) + enc_sint_field(
                                        0x28,
                                        pol_round,
                                    ) + Seq::<u8>::empty() =~= enc_len_field(0x22, enc_parts(bph))
                                        + enc_sint_field(0x28, pol_round));
                                    assert(s.subrange(i, end) == enc_proposal(p));
                                } else {
                                    lemma_parse_len_sound(s, i5, end, 0x32);
                                    match parse_len(s, i5, end, 0x32) {
                                        None => {},
                                        Some((bs, be)) => {
                                            if be == end {
                                                lemma_parse_block_id_sound(s, bs, be);
                                                match parse_block_id(s, bs, be) {
                                                    None => {},
                                                    Some(b) => {
                                                        let p = ProposalV {
                                                            height,
                                                            round,
                                                            timestamp,
                                                            block_parts_header: bph,
                                                            pol_round,
                                                            pol_block_id: Some(b),
                                                        };
                                                        assert(s.subrange(i, end) =~= s.subrange(
                                                            i,
                                                            i1,
                                                        ) + s.subrange(i1, i2) + s.subrange(i2, te)
                                                            + s.subrange(te, pe) + s.subrange(
                                                            pe,
                                                            i5,
                                                        ) + s.subrange(i5, end));
                                                        assert(s.subrange(i, end) == enc_proposal(
                                                            p,
                                                        ));
                                                    },
                                                }
                                            }
                                        },
                                    }
                                }
                            }
                        },
                    }
                },
            }
        },
    }
}

/// Whatever the envelope-body parser accepts was the canonical body.
pub proof fn lemma_parse_msg_body_sound(s: Seq<u8>, i: int, end: int)
    ensures
        match parse_msg_body(s, i, end) {
            None => true,
            Some(m) => msg_wf(m) && 0 <= i < end <= s.len() && s.subrange(i, end) == enc_msg_body(
                m,
            ),
        },
{
    lemma_parse_len_sound(s, i, end, 0x0a);
    match parse_len(s, i, end, 0x0a) {
        None => {},
        Some((ps, pe)) => {
            lemma_parse_proposal_sound(s, ps, pe);
            match parse_proposal(s, ps, pe) {
                None => {},
                Some(proposal) => {
                    if pe == end {
                        let m = SignProposalMsgV { proposal, signature: None };
                        assert(enc_msg_body(m) =~= enc_len_field(0x0a, enc_proposal(proposal)));
                        assert(s.subrange(i, end) == enc_msg_body(m));
                    } else {
                        lemma_parse_len_sound(s, pe, end, 0x12);
                        match parse_len(s, pe, end, 0x12) {
                            None => {},
                            Some((ss, se)) => {
                                if se == end && se - ss == 64 {
                                    let m = SignProposalMsgV {
                                        proposal,
                                        signature: Some(s.subrange(ss, se)),
                                    };
                                    assert(s.subrange(i, end) =~= s.subrange(i, pe) + s.subrange(
                                        pe,
                                        end,
                                    ));
                                    assert(s.subrange(i, end) == enc_msg_body(m));
                                }
                            },
                        }
                    }
                },
            }
        },
    }
}

/// Strictness of decoding: whatever the wire parser accepts is a well-formed
/// envelope, and the input was exactly its canonical encoding — a verifier
/// that decodes a frame has reconstructed the one byte string that envelope
/// signs and transmits as.
#[verifier::rlimit(100)]
#[verifier::spinoff_prover]
pub proof fn lemma_parse_wire_sound(s: Seq<u8>)
    ensures
        match parse_wire(s) {
            None => true,
            Some(m) => msg_wf(m) && s == enc_wire(m),
        },
{
    lemma_parse_varint_sound(s, 0, s.len() as int);
    match parse_varint(s, 0, s.len() as int) {
        None => {},
        Some((l, j)) => {
            if !(l < 4 || j + l != s.len() || j + 4 > s.len()) && s.subrange(j, j + 4)
                == msg_prefix() {
                lemma_parse_msg_body_sound(s, j + 4, s.len() as int);
                match parse_msg_body(s, j + 4, s.len() as int) {
                    None => {},
                    Some(m) => {
                        assert(enc_msg_body(m).len() == s.len() - j - 4);
                        assert(s =~= s.subrange(0, j) + s.subrange(j, j + 4) + s.subrange(
                            j + 4,
                            s.len() as int,
                        ));
                        assert(s == enc_wire(m));
                    },
                }
            }
        },
    }
}

/// Sign bytes are injective: two well-formed proposals with the same sign
/// bytes are the same proposal, so no two distinct proposals can ever
/// validate against one signature.
pub proof fn lemma_sign_bytes_injective(p1: ProposalV, p2: ProposalV)
    requires
        proposal_wf(p1),
        proposal_wf(p2),
        enc_proposal(p1) == enc_proposal(p2),
    ensures
        p1 == p2,
{
    let s = enc_proposal(p1);
    assert(s.subrange(0, s.len() as int) == s);
    lemma_parse_proposal(s, 0, p1);
    lemma_parse_proposal(s, 0, p2);
}

/// The whole wire encoding is injective on well-formed envelopes.
pub proof fn lemma_encode_injective(m1: SignProposalMsgV, m2: SignProposalMsgV)
    requires
        msg_wf(m1),
        msg_wf(m2),
        enc_wire(m1) == enc_wire(m2),
    ensures
        m1 == m2,
{
    lemma_wire_round_trip(m1);
    lemma_wire_round_trip(m2);
}

/// Signature exclusion: sign bytes depend on the proposal alone, so they are
/// the same before and after a signature is attached.
pub proof fn lemma_sign_bytes_exclude_signature(m1: SignProposalMsgV, m2: SignProposalMsgV)
    requires
        m1.proposal == m2.proposal,
    ensures
        sign_bytes_of(m1) == sign_bytes_of(m2),
{
}

/// Omission encoding: leaving the proof-of-lock block identifier absent
/// yields strictly fewer bytes than any otherwise-identical proposal that
/// carries one.
pub proof fn lemma_omission_shorter(p1: ProposalV, p2: ProposalV)
    requires
        proposal_wf(p1),
        proposal_wf(p2),
        p1.pol_block_id is None,
        p2.pol_block_id is Some,
        p1.height == p2.height,
        p1.round == p2.round,
        p1.timestamp == p2.timestamp,
        p1.block_parts_header == p2.block_parts_header,
        p1.pol_round == p2.pol_round,
    ensures
        enc_proposal(p1).len() < enc_proposal(p2).len(),
{
    let b = p2.pol_block_id->Some_0;
    lemma_enc_block_id_len(b);
    lemma_enc_len_len(0x32, enc_block_id(b));
}

/// Zig-zag compactness: a proof-of-lock round of -1 costs exactly as many
/// bytes as one of 0 — a single varint byte each.
pub proof fn lemma_zigzag_compact()
    ensures
        varint(zigzag(-1)).len() == 1,
        varint(zigzag(0)).len() == 1,
        enc_sint_field(0x28, -1).len() == enc_sint_field(0x28, 0).len(),
{
    assert(zigzag(-1) == 1);
    assert(zigzag(0) == 0);
}

} // verus!
