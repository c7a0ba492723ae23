use bft_core::keys::{bytes_equal, Digest, PublicKey, Signature};
use ed25519_dalek::{Signer, SigningKey};

fn keypair(seed: u8) -> (SigningKey, PublicKey) {
    let secret = SigningKey::from_bytes(&[seed; 32]);
    let public = PublicKey(secret.verifying_key().to_bytes());
    (secret, public)
}

fn sign(secret: &SigningKey, digest: &Digest) -> Signature {
    Signature(secret.sign(&digest.0).to_bytes())
}

#[test]
fn signature_of_the_signer_verifies() {
    let (secret, public) = keypair(1);
    let digest = Digest([7; 32]);
    let signature = sign(&secret, &digest);
    assert!(signature.verify(&digest, &public));
}

#[test]
fn signature_over_another_digest_fails() {
    let (secret, public) = keypair(1);
    let signature = sign(&secret, &Digest([7; 32]));
    assert!(!signature.verify(&Digest([8; 32]), &public));
}

#[test]
fn signature_under_another_key_fails() {
    let (secret, _) = keypair(1);
    let (_, other) = keypair(2);
    let digest = Digest([7; 32]);
    let signature = sign(&secret, &digest);
    assert!(!signature.verify(&digest, &other));
}

#[test]
fn zero_signature_fails() {
    let (_, public) = keypair(1);
    assert!(!Signature::default().verify(&Digest([7; 32]), &public));
}

#[test]
fn bytes_that_are_no_key_verify_nothing() {
    let (secret, _) = keypair(1);
    let digest = Digest([7; 32]);
    let signature = sign(&secret, &digest);
    // A y-coordinate that is not on the curve.
    let mut bytes = [0xff; 32];
    bytes[0] = 0xfe;
    let decodes = ed25519_dalek::VerifyingKey::from_bytes(&bytes).is_ok();
    let verdict = signature.verify(&digest, &PublicKey(bytes));
    assert!(!verdict || decodes);
    assert!(!verdict);
}

#[test]
fn keys_compare_by_their_bytes() {
    let (_, a) = keypair(1);
    let (_, b) = keypair(2);
    assert!(a == a);
    assert!(a != b);
    assert!(bytes_equal(&a.0, &a.0));
    assert!(!bytes_equal(&a.0, &b.0));
    assert_eq!(a.precedes(&b), a.0 < b.0);
    assert_eq!(b.precedes(&a), b.0 < a.0);
    assert!(!a.precedes(&a));
}

#[test]
fn default_digest_is_all_zero() {
    assert_eq!(Digest::default(), Digest([0; 32]));
    assert_eq!(Digest::default().size(), 32);
}
