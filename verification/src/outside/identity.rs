//! Network identities and addresses.
use vstd::prelude::*;

verus! {

/// The peer id that belongs to an ed25519 secret, or the message of the error
/// that a malformed secret gives.
pub uninterp spec fn ed25519_peer_id(secret: Seq<u8>) -> std::result::Result<Seq<char>, Seq<char>>;

/// Calls `libp2p::identity` (`SecretKey::try_from_bytes`, `Keypair::from`,
/// `to_peer_id`): a secret of 32 bytes, and no other, has a peer id, and that id
/// depends on the secret alone.
#[verifier::external_body]
pub(crate) fn peer_id_of_secret(secret: &Vec<u8>) -> (r: std::result::Result<String, String>)
    ensures
        r is Ok == (secret@.len() == 32),
        match r {
            Ok(id) => ed25519_peer_id(secret@) is Ok && ed25519_peer_id(secret@)->Ok_0 == id@,
            Err(e) => ed25519_peer_id(secret@) is Err && ed25519_peer_id(secret@)->Err_0 == e@,
        },
{
    match libp2p::identity::ed25519::SecretKey::try_from_bytes(secret.clone()) {
        Ok(key) => {
            let pair = libp2p::identity::ed25519::Keypair::from(key);
            Ok(libp2p::identity::Keypair::from(pair).public().to_peer_id().to_string())
        },
        Err(e) => Err(e.to_string()),
    }
}

/// The canonical notation of a multiaddress, or the message of the error that a
/// malformed one gives.
pub uninterp spec fn multiaddr_notation(text: Seq<char>) -> std::result::Result<
    Seq<char>,
    Seq<char>,
>;

/// Calls `multiaddr::Multiaddr`'s `FromStr`: whether the text is a multiaddress,
/// and what it is written as, depends on the text alone.
#[verifier::external_body]
pub(crate) fn parse_multiaddr(text: &str) -> (r: std::result::Result<String, String>)
    ensures
        match r {
            Ok(a) => multiaddr_notation(text@) is Ok && multiaddr_notation(text@)->Ok_0 == a@,
            Err(e) => multiaddr_notation(text@) is Err && multiaddr_notation(text@)->Err_0 == e@,
        },
{
    match text.parse::<multiaddr::Multiaddr>() {
        Ok(a) => Ok(a.to_string()),
        Err(e) => Err(e.to_string()),
    }
}

} // verus!
