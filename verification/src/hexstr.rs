//! Upper-case hexadecimal rendering of sign bytes, for operators' logs and
//! audit trails: the one place this crate leans on the `hex` crate.

use vstd::prelude::*;

use crate::codec::sign_bytes_of;
use crate::types::{SignProposalMsg, proposal_wf};

verus! {

/// The upper-case hexadecimal digit of a nibble.
pub open spec fn hex_digit(n: nat) -> char {
    if n == 0 {
        '0'
    } else if n == 1 {
        '1'
    } else if n == 2 {
        '2'
    } else if n == 3 {
        '3'
    } else if n == 4 {
        '4'
    } else if n == 5 {
        '5'
    } else if n == 6 {
        '6'
    } else if n == 7 {
        '7'
    } else if n == 8 {
        '8'
    } else if n == 9 {
        '9'
    } else if n == 10 {
        'A'
    } else if n == 11 {
        'B'
    } else if n == 12 {
        'C'
    } else if n == 13 {
        'D'
    } else if n == 14 {
        'E'
    } else {
        'F'
    }
}

/// Upper-case hexadecimal rendering: two digits per byte, most significant
/// nibble first.
pub open spec fn hex_upper_of(b: Seq<u8>) -> Seq<char>
    decreases b.len(),
{
    if b.len() == 0 {
        Seq::empty()
    } else {
        seq![hex_digit((b[0] / 16) as nat), hex_digit((b[0] % 16) as nat)] + hex_upper_of(
            b.drop_first(),
        )
    }
}

/// Relies on hex::encode_upper: two upper-case hexadecimal digits per byte,
/// most significant nibble first, no separators.
#[verifier::external_body]
fn to_hex_upper(b: &[u8]) -> (r: String)
    ensures
        r@ == hex_upper_of(b@),
{
    hex::encode_upper(b)
}

impl SignProposalMsg {
    /// The envelope's sign bytes as an upper-case hexadecimal string, the
    /// form logs and audit trails quote them in.
    pub fn sign_bytes_hex(&self) -> (r: String)
        requires
            proposal_wf(self@.proposal),
        ensures
            r@ == hex_upper_of(sign_bytes_of(self@)),
    {
        let b = self.sign_bytes();
        to_hex_upper(b.as_slice())
    }
}

} // verus!
