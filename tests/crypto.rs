use des::cipher::block_padding::Pkcs7;
use des::cipher::{BlockDecryptMut, KeyInit};
use iptv_proxy::{decrypt_auth_blob, encode_auth, encode_auth_with_nonce};

fn is_upper_hex(s: &str) -> bool {
    s.chars().all(|c| c.is_ascii_digit() || ('A'..='F').contains(&c))
}

#[test]
fn short_plaintext_gives_48_hex_digits() {
    let blob = encode_auth_with_nonce(5, "123456", "t", "u", "i", "p", "m");
    assert_eq!(blob.len(), 48);
    assert!(is_upper_hex(&blob));
}

#[test]
fn blob_decrypts_to_template() {
    let blob = encode_auth_with_nonce(1234567, "secret", "TOKEN", "user01", "default_imei", "0.0.0.0", "AA:BB");
    let plain = decrypt_auth_blob("secret", &blob).unwrap();
    assert_eq!(String::from_utf8(plain).unwrap(), "1234567$TOKEN$user01$default_imei$0.0.0.0$AA:BB$$CTC");
}

#[test]
fn blob_decrypts_with_md5_key_independently() {
    let blob = encode_auth_with_nonce(42, "123456", "tk", "us", "im", "ip", "mc");
    // MD5("123456") in upper-case hex starts with these 24 characters.
    let key = b"E10ADC3949BA59ABBE56E057";
    let bytes = hex::decode(&blob).unwrap();
    let dec = ecb::Decryptor::<des::TdesEde3>::new_from_slice(key).unwrap();
    let plain = dec.decrypt_padded_vec_mut::<Pkcs7>(&bytes).unwrap();
    assert_eq!(String::from_utf8(plain).unwrap(), "42$tk$us$im$ip$mc$$CTC");
}

#[test]
fn blob_length_follows_padding() {
    // 34 bytes of plaintext pad to 40 bytes of ciphertext, 80 hex digits.
    let blob = encode_auth_with_nonce(1, "p", "0123456789012345678", "u", "i", "p", "m");
    assert_eq!("1$0123456789012345678$u$i$p$m$$CTC".len(), 34);
    assert_eq!(blob.len(), 80);
    assert!(is_upper_hex(&blob));
}

#[test]
fn random_nonce_blob_decrypts_to_template() {
    let blob = encode_auth("pw", "T", "U", "I", "P", "M");
    let plain = String::from_utf8(decrypt_auth_blob("pw", &blob).unwrap()).unwrap();
    let (nonce, rest) = plain.split_once('$').unwrap();
    assert!(nonce.parse::<u32>().unwrap() < 10_000_000);
    assert_eq!(rest, "T$U$I$P$M$$CTC");
}

#[test]
fn wrong_blob_does_not_decrypt_to_template() {
    assert!(decrypt_auth_blob("pw", "XYZ").is_none());
    assert!(decrypt_auth_blob("pw", "ABC").is_none());
}
