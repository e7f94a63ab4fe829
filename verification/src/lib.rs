pub mod types;
pub mod codec;
pub mod encode;
pub mod decode;
pub mod laws;
pub mod hexstr;

pub use types::{
    Time, PartsSetHeader, BlockID, Proposal, SignProposalMsg, Ed25519Signature, Error, AMINO_NAME,
    SIGNATURE_LEN, MAX_HASH_LEN,
};
