use kitsune_types::cert::{CertDigest, CertDigestExt, Tx2Cert};
use std::collections::hash_map::DefaultHasher;
use std::hash::{Hash, Hasher};
use std::sync::Arc;

#[test]
fn test_tx2_digest() {
    let d: Tx2Cert = Tx2Cert::from_vec(vec![0xdb; 32]);
    println!("raw_debug: {}", d.to_debug_string());
    println!("as_digest: {:?}", d.as_digest());
    println!("as_bytes: {:?}", d.as_bytes());
    println!("as_str: {:?}", d.as_str());
    println!("as_nick: {:?}", d.as_nick());
    assert_eq!(d.as_bytes(), &[0xdb; 32][..]);
    assert_eq!(d.as_digest(), &CertDigest([0xdb; 32]));
}

#[test]
fn cert_text_is_url_safe_base64_without_padding() {
    let d = Tx2Cert::from_vec(vec![0xdb; 32]);
    assert_eq!(d.as_str(), "29vb29vb29vb29vb29vb29vb29vb29vb29vb29vb29s");
    assert_eq!(d.as_str().len(), 43);
    assert_eq!(d.as_nick(), "29vb29..9vb29s");
    assert_eq!(d.to_debug_string(), "Cert(29vb29..9vb29s)");
}

#[test]
fn cert_text_uses_url_safe_alphabet() {
    // 0xfb 0xff 0xbf encodes to "-_-_" in the URL-safe alphabet.
    let mut bytes = Vec::new();
    for _ in 0..10 {
        bytes.extend_from_slice(&[0xfb, 0xff, 0xbf]);
    }
    bytes.extend_from_slice(&[0x00, 0x01]);
    let d = Tx2Cert::from_vec(bytes);
    assert_eq!(d.as_str(), "-_-_-_-_-_-_-_-_-_-_-_-_-_-_-_-_-_-_-_-_AAE");
    assert_eq!(d.as_nick(), "-_-_-_.._-_AAE");
}

#[test]
fn cert_from_digest_and_back() {
    let mut raw = [0u8; 32];
    for (i, b) in raw.iter_mut().enumerate() {
        *b = i as u8;
    }
    let digest = CertDigest(raw);
    let cert = Tx2Cert::from(digest);
    let cert2 = Tx2Cert::from(&digest);
    assert_eq!(cert.as_str(), "AAECAwQFBgcICQoLDA0ODxAREhMUFRYXGBkaGxwdHh8");
    assert_eq!(cert.as_nick(), "AAECAw..xwdHh8");
    assert!(cert == cert2);
    let back: CertDigest = CertDigest::from(cert.clone());
    assert_eq!(back, digest);
    let back_ref: CertDigest = CertDigest::from(&cert2);
    assert_eq!(back_ref, digest);
    assert_eq!(*cert, digest);
    let as_ref_str: &str = cert.as_ref();
    assert_eq!(as_ref_str, cert.as_str());
    let as_ref_bytes: &[u8] = cert.as_ref();
    assert_eq!(as_ref_bytes, &raw[..]);
    let as_ref_digest: &CertDigest = cert.as_ref();
    assert_eq!(as_ref_digest, &digest);
}

#[test]
fn cert_from_slice_and_arc_vec() {
    let v: Vec<u8> = (0u8..32).rev().collect();
    let d = CertDigest::from_slice(&v);
    assert_eq!(&d.0[..], &v[..]);
    let c = Tx2Cert::from_arc_vec(Arc::new(v.clone()));
    assert_eq!(c.as_bytes(), &v[..]);
    assert_eq!(c.as_digest(), &d);
}

#[test]
fn cert_equality_and_order_follow_digest() {
    let a = Tx2Cert::from_vec(vec![1; 32]);
    let b = Tx2Cert::from_vec(vec![2; 32]);
    let mut c_bytes = vec![1; 32];
    c_bytes[31] = 0;
    let c = Tx2Cert::from_vec(c_bytes);
    let a2 = Tx2Cert::from_vec(vec![1; 32]);
    assert!(a == a2);
    assert!(a != b);
    assert_eq!(a.partial_cmp(&b), Some(std::cmp::Ordering::Less));
    assert_eq!(b.partial_cmp(&a), Some(std::cmp::Ordering::Greater));
    assert_eq!(a.partial_cmp(&a2), Some(std::cmp::Ordering::Equal));
    assert_eq!(c.partial_cmp(&a), Some(std::cmp::Ordering::Less));
    assert_eq!(a.cmp(&b), std::cmp::Ordering::Less);
    assert!(c < a);
}

#[test]
fn cert_into_node_cert() {
    let a = Tx2Cert::from_vec(vec![7; 32]);
    let n: kitsune_p2p_bin_data::NodeCert = a.into();
    assert_eq!(&**n, &[7u8; 32]);
}

#[test]
fn nick_of_takes_both_ends() {
    assert_eq!(kitsune_types::cert::nick_of("abcdefghijklmnop"), "abcdef..klmnop");
    assert_eq!(kitsune_types::cert::nick_of("abcdef"), "abcdef..abcdef");
}

#[test]
fn cert_hash_is_digest_hash() {
    let a = Tx2Cert::from_vec(vec![9; 32]);
    let mut h1 = DefaultHasher::new();
    a.hash(&mut h1);
    let mut h2 = DefaultHasher::new();
    [9u8; 32].hash(&mut h2);
    assert_eq!(h1.finish(), h2.finish());
}

#[test]
fn cert_clone_and_order_of_equal_digests() {
    let a = Tx2Cert::from_vec(vec![3; 32]);
    let b = a.clone();
    let c = Tx2Cert::from(CertDigest([3; 32]));
    assert!(a == b);
    assert_eq!(a.cmp(&b), std::cmp::Ordering::Equal);
    assert_eq!(a.cmp(&c), std::cmp::Ordering::Equal);
    assert_eq!(a.partial_cmp(&c), Some(a.cmp(&c)));
    assert_eq!(b.as_str(), a.as_str());
}
