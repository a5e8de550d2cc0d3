use animecix::xeh::{sign_query, sign_query_with_nonce};
use base64::Engine as _;

const KEY: &[u8; 32] = b"i4C7R2fXGocdYgFLzCbDlsJjukf8G58b";

#[test]
fn sign_roundtrip_decrypts() {
    let query = "genre=drama,action&onlyStreamable=true&page=1&perPage=16";
    let v = sign_query(query).unwrap();
    let mut it = v.split('.');
    let ct_b64 = it.next().unwrap();
    let iv_b64 = it.next().unwrap();
    assert!(it.next().is_none(), "iki parçalı olmalı");
    let eng = base64::engine::general_purpose::STANDARD;
    let iv: [u8; 12] = eng
        .decode(iv_b64)
        .unwrap()
        .try_into()
        .expect("12 bayt IV");
    let key = ring::aead::LessSafeKey::new(
        ring::aead::UnboundKey::new(&ring::aead::AES_256_GCM, KEY).unwrap(),
    );
    let mut data = eng.decode(ct_b64).unwrap();
    let pt = key
        .open_in_place(
            ring::aead::Nonce::assume_unique_for_key(iv),
            ring::aead::Aad::empty(),
            &mut data,
        )
        .unwrap();
    assert_eq!(pt, format!("{{version}}{query}").as_bytes());
}

#[test]
fn fixed_nonce_gives_ciphertext_and_nonce_in_base64() {
    let nonce = [7u8; 12];
    let v = sign_query_with_nonce("page=1", nonce).unwrap();
    let (ct, iv) = v.split_once('.').unwrap();
    assert_eq!(iv, "BwcHBwcHBwcHBwcH");
    let eng = base64::engine::general_purpose::STANDARD;
    let data = eng.decode(ct).unwrap();
    // "{version}page=1" is 15 bytes; the tag adds 16.
    assert_eq!(data.len(), 15 + 16);
    // The same nonce gives the same signature.
    assert_eq!(sign_query_with_nonce("page=1", nonce).unwrap(), v);
    // The encrypted text is not the plain text.
    assert_ne!(&data[..15], b"{version}page=1");
}

#[test]
fn signatures_differ_between_calls() {
    let a = sign_query("q=1").unwrap();
    let b = sign_query("q=1").unwrap();
    assert_ne!(a, b, "her imza yeni bir IV kullanmalı");
}
