use federation_config::ids::PeerId;
use federation_config::keys::{deal_keys, PublicKeySet, SecretKeyShare};
use federation_config::tls::{
    certificate_request, certified, gen_cert_and_key, CertError, Certificate, IsCa, PrivateKey,
    SignatureAlgorithm,
};
use rand::SeedableRng;

fn occurrences(haystack: &[u8], needle: &[u8]) -> usize {
    haystack.windows(needle.len()).filter(|w| *w == needle).count()
}

fn rng(seed: u8) -> rand::rngs::StdRng {
    rand::rngs::StdRng::from_seed([seed; 32])
}

#[test]
fn certificate_is_for_the_key_and_in_the_name() {
    let (cert, key) = gen_cert_and_key("peer-17").unwrap();
    // both are ASN.1 sequences
    assert_eq!(cert.0[0], 0x30);
    assert_eq!(key.0[0], 0x30);
    // as common name and as alternative name; the default subject's name is replaced
    assert!(occurrences(&cert.0, b"peer-17") >= 2);
    assert_eq!(occurrences(&cert.0, b"rcgen self signed cert"), 0);
    // the uncompressed public key ends the PKCS#8 document
    let public = &key.0[key.0.len() - 65..];
    assert_eq!(public[0], 0x04);
    assert_eq!(occurrences(&cert.0, public), 1);
}

#[test]
fn keys_are_new_each_time() {
    let (cert_a, key_a) = gen_cert_and_key("a").unwrap();
    let (cert_b, key_b) = gen_cert_and_key("a").unwrap();
    assert_ne!(key_a, key_b);
    assert_ne!(cert_a, cert_b);
}

#[test]
fn request_names_the_peer_twice() {
    let request = certificate_request("alpha");
    assert_eq!(request.common_name, "alpha");
    assert_eq!(request.subject_alt_names, vec!["alpha".to_owned()]);
    assert_eq!(request.algorithm, SignatureAlgorithm::EcdsaP256Sha256);
    assert_eq!(request.is_ca, IsCa::NoCa);
}

#[test]
fn missing_key_or_certificate_is_an_error() {
    assert_eq!(
        certified(Err(rcgen::RcgenError::RingUnspecified)),
        Err(CertError::KeyPair(rcgen::RcgenError::RingUnspecified))
    );
    assert_eq!(
        certified(Ok((vec![1], Err(rcgen::RcgenError::CouldNotParseKeyPair)))),
        Err(CertError::Certificate(rcgen::RcgenError::CouldNotParseKeyPair))
    );
    assert_eq!(
        certified(Ok((vec![1], Ok(vec![2])))),
        Ok((Certificate(vec![2]), PrivateKey(vec![1])))
    );
}

#[test]
fn each_peer_is_dealt_its_own_share() {
    let peers: Vec<PeerId> = vec![2, 0, 3, 1];
    let keys = deal_keys(&peers, &mut rng(1));
    assert_eq!(keys.keys().copied().collect::<Vec<_>>(), vec![0, 1, 2, 3]);
    for (id, key) in &keys {
        assert_eq!(key.set.as_json(), keys[&0].set.as_json());
        for index in 0..4usize {
            assert_eq!(
                key.secret.public_key_share() == key.set.public_key_share(index),
                index == usize::from(*id)
            );
        }
    }
}

#[test]
fn shares_follow_positions_where_numbers_have_gaps() {
    let keys = deal_keys(&[30, 10, 10], &mut rng(2));
    assert_eq!(keys.keys().copied().collect::<Vec<_>>(), vec![10, 30]);
    for (position, key) in keys.values().enumerate() {
        assert_eq!(key.secret.public_key_share(), key.set.public_key_share(position));
    }
}

#[test]
fn dealt_key_needs_one_more_share_than_may_misbehave() {
    for (total, threshold) in [(1u16, 0usize), (3, 0), (4, 1), (7, 2)] {
        let peers: Vec<PeerId> = (0..total).collect();
        let keys = deal_keys(&peers, &mut rng(3));
        let set: hbbft::crypto::PublicKeySet =
            serde_json::from_str(keys[&0].set.as_json()).unwrap();
        assert_eq!(set.threshold(), threshold);
    }
}

#[test]
fn two_deals_differ() {
    let mut rng = rng(4);
    let a = deal_keys(&[0], &mut rng);
    let b = deal_keys(&[0], &mut rng);
    assert_ne!(a[&0].set.as_json(), b[&0].set.as_json());
    assert_ne!(a[&0].secret.public_key_share(), b[&0].set.public_key_share(0));
}

#[test]
fn encoded_keys_are_read_back() {
    let keys = deal_keys(&[0, 1], &mut rng(5));
    let key = keys[&1].clone();
    let secret = SecretKeyShare::from_json(key.secret.as_json().to_owned()).unwrap();
    let set = PublicKeySet::from_json(key.set.as_json().to_owned()).unwrap();
    assert_eq!(secret.public_key_share(), set.public_key_share(1));
    assert_eq!(secret.public_key_share().len(), 48);
}

#[test]
fn other_text_is_no_key() {
    assert!(SecretKeyShare::from_json("".to_owned()).is_none());
    assert!(SecretKeyShare::from_json("\"share\"".to_owned()).is_none());
    assert!(PublicKeySet::from_json("{}".to_owned()).is_none());
    let keys = deal_keys(&[0], &mut rng(6));
    assert!(PublicKeySet::from_json(keys[&0].secret.as_json().to_owned()).is_none());
    assert!(SecretKeyShare::from_json(keys[&0].set.as_json().to_owned()).is_none());
}
