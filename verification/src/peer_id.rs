use vstd::prelude::*;
use std::str::FromStr;

verus! {

/// Whether `text` is the base-58 form of a libp2p peer identifier, as
/// `libp2p::PeerId::from_str` decides it.
pub uninterp spec fn peer_id_parses(text: Seq<char>) -> bool;

/// Calls `libp2p::PeerId::from_str` and tells whether it succeeded. The answer
/// depends on the text alone (base-58 decoding, then a multihash whose code is
/// SHA-256, or identity with a digest of at most 42 bytes); that check is
/// named, not written out.
#[verifier::external_body]
pub(crate) fn is_valid_peer_id(text: &str) -> (valid: bool)
    ensures
        valid == peer_id_parses(text@),
{
    libp2p::PeerId::from_str(text).is_ok()
}

} // verus!
