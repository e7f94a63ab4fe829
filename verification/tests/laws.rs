//! Concrete checks of the codec's stated laws: determinism, injectivity,
//! round trips with and without a signature, signature exclusion, omission
//! encoding, zig-zag compactness, and each error on an input that causes it.

use proposal_codec::{
    BlockID, Ed25519Signature, Error, PartsSetHeader, Proposal, SignProposalMsg, Time,
};

fn sample_proposal() -> Proposal {
    Proposal {
        height: 7,
        round: 0,
        timestamp: Time {
            seconds: 1_518_332_962,
            nanos: 765_000_000,
        },
        block_parts_header: PartsSetHeader {
            total: 3,
            hash: vec![0xaa, 0xbb, 0xcc],
        },
        pol_round: -1,
        pol_block_id: None,
    }
}

fn encode_msg(msg: &SignProposalMsg) -> Vec<u8> {
    let mut out = vec![];
    msg.encode(&mut out);
    out
}

#[test]
fn sign_bytes_deterministic() {
    let msg = SignProposalMsg::new(sample_proposal());
    assert_eq!(msg.sign_bytes(), msg.sign_bytes());
}

#[test]
fn sign_bytes_differ_when_any_field_differs() {
    let base = SignProposalMsg::new(sample_proposal());
    let mut taller = sample_proposal();
    taller.height = 8;
    let mut later = sample_proposal();
    later.timestamp.nanos = 765_000_001;
    let mut locked = sample_proposal();
    locked.pol_round = 2;
    locked.pol_block_id = Some(BlockID {
        hash: vec![1, 2, 3],
        parts_header: PartsSetHeader {
            total: 1,
            hash: vec![9],
        },
    });
    for other in [taller, later, locked] {
        assert_ne!(base.sign_bytes(), SignProposalMsg::new(other).sign_bytes());
    }
}

#[test]
fn round_trip_unsigned() {
    let msg = SignProposalMsg::new(sample_proposal());
    let wire = encode_msg(&msg);
    assert_eq!(SignProposalMsg::decode(&wire).unwrap(), msg);
}

#[test]
fn round_trip_signed() {
    let mut msg = SignProposalMsg::new(sample_proposal());
    let sig = Ed25519Signature {
        bytes: (0..64u8).collect(),
    };
    msg.set_signature(&sig).unwrap();
    let wire = encode_msg(&msg);
    let back = SignProposalMsg::decode(&wire).unwrap();
    assert_eq!(back, msg);
    assert_eq!(back.signature, Some((0..64u8).collect::<Vec<u8>>()));
}

#[test]
fn sign_bytes_exclude_signature() {
    let mut msg = SignProposalMsg::new(sample_proposal());
    let before = msg.sign_bytes();
    let sig = Ed25519Signature {
        bytes: vec![0x11; 64],
    };
    msg.set_signature(&sig).unwrap();
    assert_eq!(msg.sign_bytes(), before);
}

#[test]
fn second_signature_is_refused() {
    let mut msg = SignProposalMsg::new(sample_proposal());
    let sig = Ed25519Signature {
        bytes: vec![0x11; 64],
    };
    assert_eq!(msg.set_signature(&sig), Ok(()));
    assert_eq!(msg.set_signature(&sig), Err(Error::AlreadySigned));
    // The first signature is still the one attached.
    assert_eq!(msg.signature, Some(vec![0x11; 64]));
}

#[test]
fn absent_pol_block_id_is_strictly_shorter() {
    let absent = sample_proposal();
    let mut present = sample_proposal();
    present.pol_block_id = Some(BlockID {
        hash: vec![],
        parts_header: PartsSetHeader {
            total: 0,
            hash: vec![],
        },
    });
    let short = SignProposalMsg::new(absent).sign_bytes();
    let long = SignProposalMsg::new(present).sign_bytes();
    assert!(short.len() < long.len());
    // Decoding the shorter form yields an absent identifier exactly.
    let wire = encode_msg(&SignProposalMsg::new(sample_proposal()));
    let back = SignProposalMsg::decode(&wire).unwrap();
    assert!(back.proposal.pol_block_id.is_none());
}

#[test]
fn zigzag_keeps_minus_one_compact() {
    let mut minus = sample_proposal();
    minus.pol_round = -1;
    let mut zero = sample_proposal();
    zero.pol_round = 0;
    let a = SignProposalMsg::new(minus).sign_bytes();
    let b = SignProposalMsg::new(zero).sign_bytes();
    assert_eq!(a.len(), b.len());
}

#[test]
fn unknown_prefix_is_its_own_error() {
    let mut wire = encode_msg(&SignProposalMsg::new(sample_proposal()));
    wire[1] ^= 0xff;
    assert_eq!(SignProposalMsg::decode(&wire), Err(Error::UnknownMessageType));
}

#[test]
fn malformed_inputs_are_encoding_errors() {
    let wire = encode_msg(&SignProposalMsg::new(sample_proposal()));
    // Truncated frame.
    assert_eq!(
        SignProposalMsg::decode(&wire[..wire.len() - 1]),
        Err(Error::Encoding)
    );
    // Empty input.
    assert_eq!(SignProposalMsg::decode(&[]), Err(Error::Encoding));
    // Trailing garbage.
    let mut long = wire.clone();
    long.push(0);
    assert_eq!(SignProposalMsg::decode(&long), Err(Error::Encoding));
}

#[test]
fn non_canonical_varint_is_refused() {
    let wire = encode_msg(&SignProposalMsg::new(sample_proposal()));
    // Rewrite the one-byte frame length as a padded two-byte varint: the
    // same value with a spurious continuation byte.
    assert!(wire[0] < 0x80);
    let mut padded = vec![wire[0] | 0x80, 0x00];
    padded.extend_from_slice(&wire[1..]);
    assert_eq!(SignProposalMsg::decode(&padded), Err(Error::Encoding));
}

#[test]
fn well_formed_checks_the_invariants() {
    let good = SignProposalMsg::new(sample_proposal());
    assert!(good.well_formed());
    let mut bad_nanos = sample_proposal();
    bad_nanos.timestamp.nanos = 1_000_000_000;
    assert!(!SignProposalMsg::new(bad_nanos).well_formed());
    let mut bad_height = sample_proposal();
    bad_height.height = 0;
    assert!(!SignProposalMsg::new(bad_height).well_formed());
}
