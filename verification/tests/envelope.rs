use storage_ledger::data::{Data, EnvelopeError};
use storage_ledger::node::Node;
use storage_ledger::signed_data::SignedData;

use libp2p::identity::{Keypair, PublicKey};
use libp2p::PeerId;

#[test]
fn node_identity_is_derived_from_its_key() {
    let node = Node::new();
    let public = node.private_key.public();
    assert_eq!(node.id, PeerId::from(public.clone()).to_string());
    assert_eq!(node.public_key, public.encode_protobuf());
    assert_eq!(PublicKey::try_decode_protobuf(&node.public_key).unwrap(), public);
}

#[test]
fn node_from_keypair_keeps_the_key() {
    let keypair = Keypair::generate_ed25519();
    let public = keypair.public();
    let node = Node::from_keypair(keypair);
    assert_eq!(node.private_key.public(), public);
    assert_eq!(node.id, public.to_peer_id().to_string());
    assert_eq!(node.public_key, public.encode_protobuf());
}

#[test]
fn nodes_differ() {
    let a = Node::new();
    let b = Node::new();
    assert_ne!(a.id, b.id);
    assert_ne!(a.public_key, b.public_key);
}

#[test]
fn cloned_node_is_the_same_identity() {
    let node = Node::new();
    let copy = node.clone();
    assert_eq!(copy.id, node.id);
    assert_eq!(copy.public_key, node.public_key);
    assert_eq!(copy.private_key.public(), node.private_key.public());
}

#[test]
fn sealed_envelope_verifies() {
    let node = Node::new();
    let envelope = Data::seal(&node, b"payload".to_vec()).unwrap();
    assert_eq!(envelope.node_id, node.id);
    assert_eq!(envelope.data, b"payload".to_vec());
    assert_eq!(envelope.public_key, node.public_key);
    assert!(node.private_key.public().verify(b"payload", &envelope.signature));
    assert_eq!(envelope.verify(), Ok(true));
}

#[test]
fn tampered_payload_fails() {
    let node = Node::new();
    let mut envelope = Data::seal(&node, b"payload".to_vec()).unwrap();
    envelope.data[0] ^= 1;
    assert_eq!(envelope.verify(), Ok(false));
}

#[test]
fn tampered_signature_fails() {
    let node = Node::new();
    let mut envelope = Data::seal(&node, b"payload".to_vec()).unwrap();
    envelope.signature[3] ^= 1;
    assert_eq!(envelope.verify(), Ok(false));
    envelope.signature.clear();
    assert_eq!(envelope.verify(), Ok(false));
}

#[test]
fn foreign_sender_name_fails() {
    let node = Node::new();
    let other = Node::new();
    let mut envelope = Data::seal(&node, b"payload".to_vec()).unwrap();
    envelope.node_id = other.id.clone();
    assert_eq!(envelope.verify(), Ok(false));
}

#[test]
fn foreign_key_fails() {
    let node = Node::new();
    let other = Node::new();
    let mut envelope = Data::seal(&node, b"payload".to_vec()).unwrap();
    envelope.public_key = other.public_key.clone();
    assert_eq!(envelope.verify(), Ok(false));
    envelope.node_id = other.id.clone();
    assert_eq!(envelope.verify(), Ok(false));
}

#[test]
fn undecodable_key_is_an_error() {
    let node = Node::new();
    let mut envelope = Data::seal(&node, b"payload".to_vec()).unwrap();
    envelope.public_key = vec![0xff, 0xff, 0xff];
    assert_eq!(envelope.verify(), Err(EnvelopeError::UndecodableKey));
    envelope.public_key = vec![];
    assert!(envelope.verify().is_err());
}

#[test]
fn envelope_from_a_failed_signature_is_an_error() {
    let node = Node::new();
    let signature = node.private_key.sign(b"x").unwrap();
    let ok = Data::from_signature(&node, b"x".to_vec(), Ok(signature.clone())).unwrap();
    assert_eq!(ok.signature, signature);
    assert_eq!(ok.verify(), Ok(true));
}

#[test]
fn cloned_envelope_keeps_every_field() {
    let node = Node::new();
    let envelope = Data::seal(&node, b"payload".to_vec()).unwrap();
    let copy = envelope.clone();
    assert_eq!(copy.node_id, envelope.node_id);
    assert_eq!(copy.data, envelope.data);
    assert_eq!(copy.signature, envelope.signature);
    assert_eq!(copy.public_key, envelope.public_key);
}

#[test]
fn signed_data_verifies_under_the_signer() {
    let keypair = Keypair::generate_ed25519();
    let signed = SignedData::new(b"hello".to_vec(), &keypair, "signer".to_string()).unwrap();
    assert_eq!(signed.data, b"hello".to_vec());
    assert_eq!(signed.id, "signer");
    assert!(signed.verify(&keypair.public()));
}

#[test]
fn signed_data_fails_under_another_key() {
    let keypair = Keypair::generate_ed25519();
    let other = Keypair::generate_ed25519();
    let mut signed = SignedData::new(b"hello".to_vec(), &keypair, "signer".to_string()).unwrap();
    assert!(!signed.verify(&other.public()));
    signed.data.push(0);
    assert!(!signed.verify(&keypair.public()));
}

#[test]
fn signed_data_from_signature_keeps_the_parts() {
    let keypair = Keypair::generate_ed25519();
    let signature = keypair.sign(b"hello").unwrap();
    let signed = SignedData::from_signature(b"hello".to_vec(), Ok(signature.clone()), "signer".to_string()).unwrap();
    assert_eq!(signed.signature, signature);
    assert!(signed.verify(&keypair.public()));
    let copy = signed.clone();
    assert_eq!(copy.data, signed.data);
    assert_eq!(copy.signature, signed.signature);
    assert_eq!(copy.id, signed.id);
}

#[test]
fn sealed_signature_is_the_one_the_key_puts_on_the_payload() {
    let node = Node::new();
    let first = Data::seal(&node, b"payload".to_vec()).unwrap();
    let second = Data::seal(&node, b"payload".to_vec()).unwrap();
    assert_eq!(first.signature, node.private_key.sign(b"payload").unwrap());
    assert_eq!(first.signature, second.signature);
    assert!(!first.signature.is_empty());
    let other = Data::seal(&node, b"payloae".to_vec()).unwrap();
    assert_ne!(first.signature, other.signature);
}

#[test]
fn signed_data_carries_the_signature_of_the_key() {
    let keypair = Keypair::generate_ed25519();
    let signed = SignedData::new(b"hello".to_vec(), &keypair, "signer".to_string()).unwrap();
    assert_eq!(signed.signature, keypair.sign(b"hello").unwrap());
    let again = SignedData::new(b"hello".to_vec(), &keypair, "signer".to_string()).unwrap();
    assert_eq!(signed.signature, again.signature);
}

#[test]
fn node_public_key_belongs_to_its_private_key() {
    for _ in 0..5 {
        let node = Node::new();
        assert_eq!(node.public_key, node.private_key.public().encode_protobuf());
        assert_eq!(node.id, PeerId::from_public_key(&node.private_key.public()).to_string());
        let envelope = Data::seal(&node, b"x".to_vec()).unwrap();
        assert_eq!(envelope.verify(), Ok(true));
    }
}
