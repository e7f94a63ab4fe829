//! The reference fixture: the proposal at height 12345 must encode to the
//! exact wire bytes the protocol fixes, and those bytes must decode back to
//! the same envelope.

use chrono::{DateTime, Utc};
use proposal_codec::{PartsSetHeader, Proposal, SignProposalMsg, Time};

fn fixture_proposal() -> Proposal {
    let dt = "2018-02-11T07:09:22.765Z".parse::<DateTime<Utc>>().unwrap();
    let t = Time {
        seconds: dt.timestamp(),
        nanos: dt.timestamp_subsec_nanos() as i32,
    };
    Proposal {
        height: 12345,
        round: 23456,
        timestamp: t,
        block_parts_header: PartsSetHeader {
            total: 111,
            hash: "blockparts".as_bytes().to_vec(),
        },
        pol_round: -1,
        pol_block_id: None,
    }
}

fn fixture_wire() -> Vec<u8> {
    vec![
        0x31, 0x5d, 0x48, 0x70, 0x4, 0xa, 0x2b, 0x8, 0xf2, 0xc0, 0x1, 0x10, 0xc0, 0xee, 0x2,
        0x1a, 0xe, 0x9, 0x22, 0xec, 0x7f, 0x5a, 0x0, 0x0, 0x0, 0x0, 0x15, 0x40, 0xf9, 0x98,
        0x2d, 0x22, 0xf, 0x8, 0xde, 0x1, 0x12, 0xa, 0x62, 0x6c, 0x6f, 0x63, 0x6b, 0x70, 0x61,
        0x72, 0x74, 0x73, 0x28, 0x1,
    ]
}

#[test]
fn test_serialization() {
    let proposal = fixture_proposal();
    let mut got = vec![];

    let have = SignProposalMsg {
        proposal,
        signature: None,
    };
    have.encode(&mut got);
    let want = fixture_wire();

    assert_eq!(got, want)
}

#[test]
fn test_deserialization() {
    let proposal = fixture_proposal();
    let want = SignProposalMsg {
        proposal,
        signature: None,
    };

    let data = fixture_wire();

    match SignProposalMsg::decode(&data) {
        Ok(have) => assert_eq!(have, want),
        Err(err) => panic!("{:?}", err),
    }
}

#[test]
fn sign_bytes_are_the_proposal_body() {
    let msg = SignProposalMsg {
        proposal: fixture_proposal(),
        signature: None,
    };
    // The sign bytes are the canonical proposal encoding alone: the wire
    // fixture minus its length byte, four-byte prefix, and field framing.
    let wire = fixture_wire();
    assert_eq!(msg.sign_bytes(), wire[7..].to_vec());
}

#[test]
fn sign_bytes_hex_renders_upper_case() {
    let msg = SignProposalMsg {
        proposal: fixture_proposal(),
        signature: None,
    };
    assert_eq!(
        msg.sign_bytes_hex(),
        "08F2C00110C0EE021A0E0922EC7F5A000000001540F9982D220F08DE01120A626C6F636B70617274732801"
    );
}
