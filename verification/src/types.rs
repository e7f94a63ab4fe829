//! The canonical value types of the remote-signer protocol: a validator's
//! `Proposal`, the pieces it is built from, and the `SignProposalMsg`
//! envelope that carries a proposal together with an optional signature.
//!
//! Each executable type has a ghost view (`TimeV`, `ProposalV`, ...) over
//! mathematical integers and sequences; every contract in this crate is
//! stated over those views.

use vstd::prelude::*;

verus! {

/// Ghost view of [`Time`].
#[verifier::ext_equal]
pub ghost struct TimeV {
    pub seconds: int,
    pub nanos: int,
}

/// Ghost view of [`PartsSetHeader`].
#[verifier::ext_equal]
pub ghost struct PartsSetHeaderV {
    pub total: int,
    pub hash: Seq<u8>,
}

/// Ghost view of [`BlockID`].
#[verifier::ext_equal]
pub ghost struct BlockIdV {
    pub hash: Seq<u8>,
    pub parts_header: PartsSetHeaderV,
}

/// Ghost view of [`Proposal`].
#[verifier::ext_equal]
pub ghost struct ProposalV {
    pub height: int,
    pub round: int,
    pub timestamp: TimeV,
    pub block_parts_header: PartsSetHeaderV,
    pub pol_round: int,
    pub pol_block_id: Option<BlockIdV>,
}

/// Ghost view of [`SignProposalMsg`].
#[verifier::ext_equal]
pub ghost struct SignProposalMsgV {
    pub proposal: ProposalV,
    pub signature: Option<Seq<u8>>,
}

/// A UTC instant: seconds and nanoseconds since the epoch.
#[derive(Clone, Copy, Debug, PartialEq, Eq, Structural)]
pub struct Time {
    pub seconds: i64,
    pub nanos: i32,
}

impl View for Time {
    type V = TimeV;

    open spec fn view(&self) -> TimeV {
        TimeV { seconds: self.seconds as int, nanos: self.nanos as int }
    }
}

/// Commitment to the split-into-parts encoding of a block: the number of
/// parts and a hash over them.
#[derive(Clone, Debug)]
pub struct PartsSetHeader {
    pub total: i64,
    pub hash: Vec<u8>,
}

impl View for PartsSetHeader {
    type V = PartsSetHeaderV;

    open spec fn view(&self) -> PartsSetHeaderV {
        PartsSetHeaderV { total: self.total as int, hash: self.hash@ }
    }
}

/// Unique identifier of a block: its hash plus the parts-set commitment.
#[derive(Clone, Debug)]
pub struct BlockID {
    pub hash: Vec<u8>,
    pub parts_header: PartsSetHeader,
}

impl View for BlockID {
    type V = BlockIdV;

    open spec fn view(&self) -> BlockIdV {
        BlockIdV { hash: self.hash@, parts_header: self.parts_header@ }
    }
}

/// A validator's claim that a specific block should be committed at a given
/// height and round. `pol_round == -1` and `pol_block_id == None` mean
/// "no prior lock".
#[derive(Clone, Debug)]
pub struct Proposal {
    pub height: i64,
    pub round: i64,
    pub timestamp: Time,
    pub block_parts_header: PartsSetHeader,
    pub pol_round: i64,
    pub pol_block_id: Option<BlockID>,
}

impl View for Proposal {
    type V = ProposalV;

    open spec fn view(&self) -> ProposalV {
        ProposalV {
            height: self.height as int,
            round: self.round as int,
            timestamp: self.timestamp@,
            block_parts_header: self.block_parts_header@,
            pol_round: self.pol_round as int,
            pol_block_id: match self.pol_block_id {
                None => None,
                Some(b) => Some(b@),
            },
        }
    }
}

/// The wire envelope: a proposal plus the signature over its sign bytes,
/// absent until the remote signer has answered.
#[derive(Clone, Debug)]
pub struct SignProposalMsg {
    pub proposal: Proposal,
    pub signature: Option<Vec<u8>>,
}

impl View for SignProposalMsg {
    type V = SignProposalMsgV;

    open spec fn view(&self) -> SignProposalMsgV {
        SignProposalMsgV {
            proposal: self.proposal@,
            signature: match self.signature {
                None => None,
                Some(ref s) => Some(s@),
            },
        }
    }
}

/// A signature produced by the remote signer over the sign bytes of a
/// proposal; always exactly 64 bytes.
#[derive(Clone, Debug)]
pub struct Ed25519Signature {
    pub bytes: Vec<u8>,
}

/// Errors surfaced by encoding, decoding and signature attachment.
#[derive(Clone, Copy, Debug, PartialEq, Eq, Structural)]
pub enum Error {
    /// The input bytes are not a canonical encoding of any well-formed
    /// envelope.
    Encoding,
    /// A signature is already attached; envelopes are signed at most once.
    AlreadySigned,
    /// The wire bytes carry a type prefix this registry does not know.
    UnknownMessageType,
}

/// The well-known protocol name this envelope is registered under; its
/// four-byte wire prefix is fixed in [`crate::codec::msg_prefix`].
pub const AMINO_NAME: &'static str = "tendermint/socketpv/SignProposalMsg";

/// Number of bytes in an Ed25519 signature.
pub const SIGNATURE_LEN: usize = 64;

/// Largest admitted hash length; it keeps every frame far below the 64-bit
/// ceiling of the length varints.
pub const MAX_HASH_LEN: usize = 0xFFFF_FFFF;

pub open spec fn time_wf(t: TimeV) -> bool {
    &&& -0x8000_0000_0000_0000 <= t.seconds < 0x8000_0000_0000_0000
    &&& 0 <= t.nanos < 1_000_000_000
}

pub open spec fn parts_wf(h: PartsSetHeaderV) -> bool {
    &&& 0 <= h.total < 0x8000_0000_0000_0000
    &&& h.hash.len() <= MAX_HASH_LEN
}

pub open spec fn block_id_wf(b: BlockIdV) -> bool {
    &&& b.hash.len() <= MAX_HASH_LEN
    &&& parts_wf(b.parts_header)
}

pub open spec fn proposal_wf(p: ProposalV) -> bool {
    &&& 1 <= p.height < 0x8000_0000_0000_0000
    &&& 0 <= p.round < 0x8000_0000_0000_0000
    &&& time_wf(p.timestamp)
    &&& parts_wf(p.block_parts_header)
    &&& -1 <= p.pol_round < 0x8000_0000_0000_0000
    &&& match p.pol_block_id {
        None => true,
        Some(b) => block_id_wf(b),
    }
}

pub open spec fn msg_wf(m: SignProposalMsgV) -> bool {
    &&& proposal_wf(m.proposal)
    &&& match m.signature {
        None => true,
        Some(s) => s.len() == SIGNATURE_LEN,
    }
}

impl Time {
    /// True exactly when the view satisfies `time_wf`.
    pub fn well_formed(&self) -> (r: bool)
        ensures
            r == time_wf(self@),
    {
        0 <= self.nanos && self.nanos < 1_000_000_000
    }
}

impl PartsSetHeader {
    /// True exactly when the view satisfies `parts_wf`.
    pub fn well_formed(&self) -> (r: bool)
        ensures
            r == parts_wf(self@),
    {
        0 <= self.total && self.hash.len() as u64 <= MAX_HASH_LEN as u64
    }
}

impl BlockID {
    /// True exactly when the view satisfies `block_id_wf`.
    pub fn well_formed(&self) -> (r: bool)
        ensures
            r == block_id_wf(self@),
    {
        self.hash.len() as u64 <= MAX_HASH_LEN as u64 && self.parts_header.well_formed()
    }
}

impl Proposal {
    /// True exactly when the view satisfies `proposal_wf`.
    pub fn well_formed(&self) -> (r: bool)
        ensures
            r == proposal_wf(self@),
    {
        1 <= self.height && 0 <= self.round && self.timestamp.well_formed()
            && self.block_parts_header.well_formed() && -1 <= self.pol_round
            && match self.pol_block_id {
                None => true,
                Some(ref b) => b.well_formed(),
            }
    }
}

impl SignProposalMsg {
    /// True exactly when the view satisfies `msg_wf`.
    pub fn well_formed(&self) -> (r: bool)
        ensures
            r == msg_wf(self@),
    {
        self.proposal.well_formed() && match self.signature {
            None => true,
            Some(ref s) => s.len() == SIGNATURE_LEN,
        }
    }

    /// Builds a fresh, unsigned envelope around a proposal.
    pub fn new(proposal: Proposal) -> (r: SignProposalMsg)
        ensures
            r@.proposal == proposal@,
            r@.signature is None,
    {
        SignProposalMsg { proposal, signature: None }
    }

    /// Attaches the signature the remote signer computed over this
    /// envelope's sign bytes. The proposal is left untouched — signing never
    /// mutates what was signed — and an envelope that already carries a
    /// signature is refused, so each envelope is signed at most once.
    pub fn set_signature(&mut self, sig: &Ed25519Signature) -> (r: Result<(), Error>)
        requires
            sig.bytes@.len() == SIGNATURE_LEN,
        ensures
            match r {
                Ok(_) => old(self)@.signature is None && final(self)@.proposal == old(
                    self,
                )@.proposal && final(self)@.signature == Some(sig.bytes@),
                Err(e) => e == Error::AlreadySigned && old(self)@.signature is Some && final(self)@
                    == old(self)@,
            },
    {
        match self.signature {
            Some(_) => Err(Error::AlreadySigned),
            None => {
                let mut copy: Vec<u8> = Vec::new();
                crate::encode::push_bytes(&mut copy, sig.bytes.as_slice());
                self.signature = Some(copy);
                Ok(())
            },
        }
    }
}

/// Compares two byte strings for equality.
pub fn bytes_eq(a: &[u8], b: &[u8]) -> (r: bool)
    ensures
        r <==> a@ == b@,
{
    if a.len() != b.len() {
        return false;
    }
    let mut k: usize = 0;
    while k < a.len()
        invariant
            k <= a.len(),
            a@.len() == b@.len(),
            forall|m: int| 0 <= m < k ==> a@[m] == b@[m],
        decreases a.len() - k,
    {
        if a[k] != b[k] {
            return false;
        }
        k = k + 1;
    }
    proof {
        assert(a@ =~= b@);
    }
    true
}

impl PartialEq for PartsSetHeader {
    /// Structural equality: same total, same hash bytes.
    fn eq(&self, o: &PartsSetHeader) -> (r: bool) {
        let r = self.total == o.total && bytes_eq(self.hash.as_slice(), o.hash.as_slice());
        proof {
            if r {
                assert(self@ =~= o@);
            }
        }
        r
    }
}

impl vstd::std_specs::cmp::PartialEqSpecImpl for PartsSetHeader {
    open spec fn obeys_eq_spec() -> bool {
        true
    }

    open spec fn eq_spec(&self, o: &PartsSetHeader) -> bool {
        self@ == o@
    }
}

impl PartialEq for BlockID {
    /// Structural equality: same hash, same parts header.
    fn eq(&self, o: &BlockID) -> (r: bool) {
        let r = bytes_eq(self.hash.as_slice(), o.hash.as_slice()) && self.parts_header
            == o.parts_header;
        proof {
            if r {
                assert(self@ =~= o@);
            }
        }
        r
    }
}

impl vstd::std_specs::cmp::PartialEqSpecImpl for BlockID {
    open spec fn obeys_eq_spec() -> bool {
        true
    }

    open spec fn eq_spec(&self, o: &BlockID) -> bool {
        self@ == o@
    }
}

impl PartialEq for Proposal {
    /// Structural equality of every field, the optional block identifier
    /// included.
    fn eq(&self, o: &Proposal) -> (r: bool) {
        let r = self.height == o.height && self.round == o.round && self.timestamp == o.timestamp
            && self.block_parts_header == o.block_parts_header && self.pol_round == o.pol_round
            && match (&self.pol_block_id, &o.pol_block_id) {
            (None, None) => true,
            (Some(a), Some(b)) => a == b,
            _ => false,
        };
        proof {
            if r {
                assert(self@ =~= o@);
            }
        }
        r
    }
}

impl vstd::std_specs::cmp::PartialEqSpecImpl for Proposal {
    open spec fn obeys_eq_spec() -> bool {
        true
    }

    open spec fn eq_spec(&self, o: &Proposal) -> bool {
        self@ == o@
    }
}

impl PartialEq for SignProposalMsg {
    /// Structural equality: same proposal, same optional signature.
    fn eq(&self, o: &SignProposalMsg) -> (r: bool) {
        let r = self.proposal == o.proposal && match (&self.signature, &o.signature) {
            (None, None) => true,
            (Some(a), Some(b)) => bytes_eq(a.as_slice(), b.as_slice()),
            _ => false,
        };
        proof {
            if r {
                assert(self@ =~= o@);
            }
        }
        r
    }
}

impl vstd::std_specs::cmp::PartialEqSpecImpl for SignProposalMsg {
    open spec fn obeys_eq_spec() -> bool {
        true
    }

    open spec fn eq_spec(&self, o: &SignProposalMsg) -> bool {
        self@ == o@
    }
}

} // verus!
