use bore_core::auth::{bytes_equal, Authenticator};
use hmac::Mac;

#[test]
fn correct_tag_verifies() {
    let a = Authenticator::new(Some(b"s1".to_vec()));
    let nonce: u128 = 0xdead_beef;
    let tag = a.tag_for(nonce);
    assert_eq!(tag.len(), 32);
    assert!(a.verify_tag(nonce, &tag));
}

#[test]
fn wrong_secret_fails() {
    let server = Authenticator::new(Some(b"s1".to_vec()));
    let client = Authenticator::new(Some(b"s2".to_vec()));
    let nonce: u128 = 12345;
    let tag = client.tag_for(nonce);
    assert!(!server.verify_tag(nonce, &tag));
}

#[test]
fn replayed_tag_fails_on_new_nonce() {
    let a = Authenticator::new(Some(b"shared".to_vec()));
    let nonce: u128 = 1;
    let replayed = a.tag_for(nonce);
    assert!(a.verify_tag(nonce, &replayed));
    let fresh_nonce: u128 = 2;
    assert!(!a.verify_tag(fresh_nonce, &replayed));
}

#[test]
fn tampered_tag_fails() {
    let a = Authenticator::new(Some(b"s".to_vec()));
    let nonce: u128 = 99;
    let mut tag = a.tag_for(nonce);
    tag[0] ^= 1;
    assert!(!a.verify_tag(nonce, &tag));
    tag[0] ^= 1;
    let mut short = tag.clone();
    short.pop();
    assert!(!a.verify_tag(nonce, &short));
}

#[test]
fn tag_is_real_hmac_sha256_of_nonce_bytes() {
    // Computed independently of the library, so a tag function that echoed
    // its input (or hashed something else) would fail here.
    let secret = b"my secret and secure key".to_vec();
    let nonce: u128 = 0x0011_2233_4455_6677_8899_aabb_ccdd_eeff;
    let a = Authenticator::new(Some(secret.clone()));
    let tag = a.tag_for(nonce);
    let mut mac = hmac::Hmac::<sha2::Sha256>::new_from_slice(&secret).unwrap();
    mac.update(&nonce.to_be_bytes());
    let expected = mac.finalize().into_bytes().to_vec();
    assert_eq!(tag, expected);
    assert_ne!(tag, secret);
    assert_ne!(tag, nonce.to_be_bytes().to_vec());
}

#[test]
fn required_reflects_configuration() {
    assert!(Authenticator::new(Some(b"x".to_vec())).required());
    assert!(!Authenticator::new(None).required());
}

#[test]
fn bytes_equal_accumulates_over_whole_input() {
    assert!(bytes_equal(&vec![], &vec![]));
    assert!(bytes_equal(&vec![1, 2, 3], &vec![1, 2, 3]));
    assert!(!bytes_equal(&vec![1, 2, 3], &vec![1, 2, 4]));
    assert!(!bytes_equal(&vec![9, 2, 3], &vec![1, 2, 3]));
    assert!(!bytes_equal(&vec![1, 2], &vec![1, 2, 3]));
}
