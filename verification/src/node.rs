//! A node's identity: its signing key, and the public key and identifier
//! derived from it.

use libp2p::identity::Keypair;
use vstd::prelude::*;

use crate::identity::{
    encode_public_key, generate_keypair, keypair_public_encoding, peer_id_of, peer_id_text, public_key_of,
};

verus! {

/// The identity of a node. The identifier is the sortition candidate key and
/// the sender name on every envelope.
#[derive(Debug)]
pub struct Node {
    pub id: String,
    pub public_key: Vec<u8>,
    pub private_key: Keypair,
}

impl Clone for Node {
    fn clone(&self) -> (out: Self)
        ensures
            out.id@ == self.id@,
            out.public_key@ == self.public_key@,
            out.private_key == self.private_key,
    {
        Node {
            id: self.id.clone(),
            public_key: self.public_key.clone(),
            private_key: self.private_key.clone(),
        }
    }
}

impl Node {
    /// The identifier is the one that the public key determines.
    pub open spec fn id_matches_key(&self) -> bool {
        self.id@ == peer_id_text(self.public_key@)
    }

    /// The public key is the one that belongs to the private key.
    pub open spec fn key_matches_keypair(&self) -> bool {
        self.public_key@ == keypair_public_encoding(self.private_key)
    }

    /// The identity that belongs to `keypair`: its public key in protobuf
    /// encoding, and the peer identifier derived from that key.
    pub fn from_keypair(keypair: Keypair) -> (node: Self)
        ensures
            node.private_key == keypair,
            node.public_key@ == keypair_public_encoding(keypair),
            node.id@ == peer_id_text(keypair_public_encoding(keypair)),
            node.key_matches_keypair(),
            node.id_matches_key(),
    {
        let public = public_key_of(&keypair);
        let id = peer_id_of(&public);
        let public_key = encode_public_key(&public);
        Node { id, public_key, private_key: keypair }
    }

    /// A fresh identity with a newly generated Ed25519 key.
    pub fn new() -> (node: Self)
        ensures
            node.key_matches_keypair(),
            node.id_matches_key(),
    {
        Node::from_keypair(generate_keypair())
    }
}

} // verus!
