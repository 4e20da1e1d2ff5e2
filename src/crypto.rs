//! The authentication blob of the handshake: 3DES-EDE3 in ECB mode with PKCS#7
//! padding, keyed by the first 24 characters of the password's MD5 digest in
//! upper-case hex, over `{nonce}${token}${user}${imei}${ip}${mac}$$CTC`.

use vstd::prelude::*;
use vstd::utf8::encode_utf8;
use des::cipher::block_padding::Pkcs7;
use des::cipher::{BlockDecryptMut, BlockEncryptMut, KeyInit};
use des::TdesEde3;
use rand::Rng;
use crate::text::{chars_of, decimal_chars, push_decimal, push_str};

verus! {

/// The upper-case hex digit of `n < 16`.
pub open spec fn hex_digit(n: u8) -> char {
    if n < 10 {
        ('0' as u8 + n) as char
    } else {
        ('A' as u8 + n - 10) as char
    }
}

/// Two upper-case hex digits per byte, high nibble first.
pub open spec fn upper_hex(b: Seq<u8>) -> Seq<char>
    decreases b.len(),
{
    if b.len() == 0 {
        Seq::empty()
    } else {
        upper_hex(b.drop_last()).push(hex_digit(b.last() / 16)).push(hex_digit(b.last() % 16))
    }
}

pub open spec fn is_upper_hex_digit(c: char) -> bool {
    ('0' <= c && c <= '9') || ('A' <= c && c <= 'F')
}

/// The MD5 digest of `data`.
pub uninterp spec fn md5_digest(data: Seq<u8>) -> Seq<u8>;

/// The 3DES-EDE3 encryption of `msg` under `key`, in ECB mode, after PKCS#7
/// padding.
pub uninterp spec fn tdes_ecb_pkcs7(key: Seq<u8>, msg: Seq<u8>) -> Seq<u8>;

/// Relies on `md5::compute` and the `UpperHex` format of its digest: the
/// sixteen digest bytes, two upper-case hex digits each.
#[verifier::external_body]
fn md5_upper_hex(data: &[u8]) -> (r: String)
    ensures
        r@ == upper_hex(md5_digest(data@)),
        r@.len() == 32,
{
    format!("{:X}", md5::compute(data))
}

/// Relies on `ecb::Encryptor::<TdesEde3>::new_from_slice`, which accepts a key
/// of 24 bytes exactly, and on `encrypt_padded_vec_mut::<Pkcs7>`, whose output
/// is the message padded to the next whole 8-byte block, encrypted.
#[verifier::external_body]
fn tdes_encrypt(key: &[u8], msg: &[u8]) -> (r: Option<Vec<u8>>)
    ensures
        r is Some <==> key@.len() == 24,
        r matches Some(c) ==> c@ == tdes_ecb_pkcs7(key@, msg@) && c@.len() == 8 * (msg@.len() / 8 + 1),
{
    ecb::Encryptor::<TdesEde3>::new_from_slice(key).ok().map(|e| e.encrypt_padded_vec_mut::<Pkcs7>(msg))
}

/// Relies on `ecb::Decryptor::<TdesEde3>::new_from_slice` and
/// `decrypt_padded_vec_mut::<Pkcs7>`: decryption under the same 24-byte key
/// gives back the message that was encrypted.
#[verifier::external_body]
fn tdes_decrypt(key: &[u8], cipher: &[u8]) -> (r: Option<Vec<u8>>)
    ensures
        r is None ==> forall|m: Seq<u8>| !(key@.len() == 24 && cipher@ == #[trigger] tdes_ecb_pkcs7(key@, m)),
        r matches Some(p) ==> forall|m: Seq<u8>|
            key@.len() == 24 && cipher@ == #[trigger] tdes_ecb_pkcs7(key@, m) ==> p@ == m,
{
    ecb::Decryptor::<TdesEde3>::new_from_slice(key).ok().and_then(|d| d.decrypt_padded_vec_mut::<Pkcs7>(cipher).ok())
}

/// Relies on `hex::encode_upper`: two upper-case hex digits per byte.
#[verifier::external_body]
fn hex_encode_upper(data: &[u8]) -> (r: String)
    ensures
        r@ == upper_hex(data@),
{
    hex::encode_upper(data)
}

/// Relies on `rand::thread_rng().gen_range`: a number drawn from `0..10_000_000`.
#[verifier::external_body]
pub(crate) fn draw_nonce() -> (r: u32)
    ensures
        r < 10_000_000,
{
    rand::thread_rng().gen_range(0..10_000_000u32)
}

/// The cipher key: the first 24 characters of the upper-case hex MD5 digest
/// of the password, as ASCII bytes.
pub open spec fn auth_key(password: Seq<char>) -> Seq<u8> {
    upper_hex(md5_digest(encode_utf8(password))).subrange(0, 24).map_values(|c: char| c as u8)
}

/// The text that is encrypted.
pub open spec fn auth_plaintext(
    nonce: nat,
    token: Seq<char>,
    user: Seq<char>,
    imei: Seq<char>,
    ip: Seq<char>,
    mac: Seq<char>,
) -> Seq<char> {
    decimal_chars(nonce) + seq!['$'] + token + seq!['$'] + user + seq!['$'] + imei + seq!['$'] + ip
        + seq!['$'] + mac + seq!['$', '$', 'C', 'T', 'C']
}

/// The authentication blob: upper-case hex of the ciphertext.
pub open spec fn auth_blob(
    nonce: nat,
    password: Seq<char>,
    token: Seq<char>,
    user: Seq<char>,
    imei: Seq<char>,
    ip: Seq<char>,
    mac: Seq<char>,
) -> Seq<char> {
    upper_hex(tdes_ecb_pkcs7(auth_key(password), encode_utf8(auth_plaintext(nonce, token, user, imei, ip, mac))))
}

proof fn lemma_upper_hex(b: Seq<u8>)
    ensures
        upper_hex(b).len() == 2 * b.len(),
        forall|i: int| 0 <= i < upper_hex(b).len() ==> is_upper_hex_digit(#[trigger] upper_hex(b)[i]),
    decreases b.len(),
{
    if b.len() > 0 {
        lemma_upper_hex(b.drop_last());
        let x = b.last();
        assert(x / 16 < 16 && x % 16 < 16);
        assert(is_upper_hex_digit(hex_digit(x / 16)));
        assert(is_upper_hex_digit(hex_digit(x % 16)));
    }
}

/// Every character of an authentication blob is an upper-case hex digit.
pub proof fn lemma_auth_blob_upper_hex(
    nonce: nat,
    password: Seq<char>,
    token: Seq<char>,
    user: Seq<char>,
    imei: Seq<char>,
    ip: Seq<char>,
    mac: Seq<char>,
)
    ensures
        forall|i: int|
            0 <= i < auth_blob(nonce, password, token, user, imei, ip, mac).len() ==> is_upper_hex_digit(
                #[trigger] auth_blob(nonce, password, token, user, imei, ip, mac)[i],
            ),
{
    lemma_upper_hex(
        tdes_ecb_pkcs7(auth_key(password), encode_utf8(auth_plaintext(nonce, token, user, imei, ip, mac))),
    );
}

/// The cipher key for `password`.
fn derive_key(password: &str) -> (r: Vec<u8>)
    ensures
        r@ == auth_key(password@),
        r@.len() == 24,
{
    let digest = md5_upper_hex(password.as_bytes());
    let ghost hx = digest@;
    proof {
        lemma_upper_hex(md5_digest(encode_utf8(password@)));
    }
    let mut key: Vec<u8> = Vec::new();
    let mut i: usize = 0;
    while i < 24
        invariant
            i <= 24,
            hx == digest@,
            hx.len() == 32,
            hx == upper_hex(md5_digest(encode_utf8(password@))),
            forall|j: int| 0 <= j < hx.len() ==> is_upper_hex_digit(#[trigger] hx[j]),
            key@ == hx.subrange(0, i as int).map_values(|c: char| c as u8),
        decreases 24 - i,
    {
        let c = digest.as_str().get_char(i);
        assert(is_upper_hex_digit(hx[i as int]));
        key.push(c as u8);
        assert(hx.subrange(0, i + 1).map_values(|c: char| c as u8)
            == hx.subrange(0, i as int).map_values(|c: char| c as u8).push(c as u8));
        i += 1;
    }
    key
}

/// The text to encrypt for the given nonce and credentials.
fn build_plaintext(nonce: u32, token: &str, user: &str, imei: &str, ip: &str, mac: &str) -> (r: String)
    ensures
        r@ == auth_plaintext(nonce as nat, token@, user@, imei@, ip@, mac@),
{
    let mut s = String::new();
    push_decimal(&mut s, nonce as u64);
    push_str(&mut s, "$");
    push_str(&mut s, token);
    push_str(&mut s, "$");
    push_str(&mut s, user);
    push_str(&mut s, "$");
    push_str(&mut s, imei);
    push_str(&mut s, "$");
    push_str(&mut s, ip);
    push_str(&mut s, "$");
    push_str(&mut s, mac);
    push_str(&mut s, "$$CTC");
    proof {
        reveal_strlit("$");
        reveal_strlit("$$CTC");
        assert("$"@ == seq!['$']);
        assert("$$CTC"@ == seq!['$', '$', 'C', 'T', 'C']);
        assert(Seq::<char>::empty() + decimal_chars(nonce as nat) == decimal_chars(nonce as nat));
    }
    s
}

/// The authentication blob for a given nonce: upper-case hex, two digits per
/// ciphertext byte; the ciphertext is the UTF-8 plaintext padded to the next
/// whole 8-byte block, so a plaintext of 16 to 23 bytes gives 48 digits.
pub fn encode_auth_with_nonce(
    nonce: u32,
    password: &str,
    token: &str,
    user: &str,
    imei: &str,
    ip: &str,
    mac: &str,
) -> (r: String)
    ensures
        r@ == auth_blob(nonce as nat, password@, token@, user@, imei@, ip@, mac@),
        r@.len() == 16 * (encode_utf8(auth_plaintext(nonce as nat, token@, user@, imei@, ip@, mac@)).len() / 8 + 1),
        forall|i: int| 0 <= i < r@.len() ==> is_upper_hex_digit(#[trigger] r@[i]),
{
    let key = derive_key(password);
    let plain = build_plaintext(nonce, token, user, imei, ip, mac);
    let bytes = plain.as_str().as_bytes();
    match tdes_encrypt(key.as_slice(), bytes) {
        Some(c) => {
            let r = hex_encode_upper(c.as_slice());
            proof {
                lemma_upper_hex(c@);
            }
            r
        },
        None => {
            assert(false);
            String::new()
        },
    }
}

/// The authentication blob, with a fresh nonce below 10,000,000.
pub fn encode_auth(password: &str, token: &str, user: &str, imei: &str, ip: &str, mac: &str) -> (r: String)
    ensures
        exists|n: nat| n < 10_000_000 && r@ == #[trigger] auth_blob(n, password@, token@, user@, imei@, ip@, mac@),
{
    let nonce = draw_nonce();
    let r = encode_auth_with_nonce(nonce, password, token, user, imei, ip, mac);
    assert(r@ == auth_blob(nonce as nat, password@, token@, user@, imei@, ip@, mac@));
    r
}

/// The value of an upper-case hex digit.
pub open spec fn hex_value(c: char) -> u8 {
    if '0' <= c && c <= '9' {
        (c as u32 - '0' as u32) as u8
    } else {
        (c as u32 - 'A' as u32 + 10) as u8
    }
}

proof fn lemma_hex_digit_value(n: u8)
    requires
        n < 16,
    ensures
        hex_value(hex_digit(n)) == n,
        is_upper_hex_digit(hex_digit(n)),
{
}

proof fn lemma_byte_split(x: u8)
    ensures
        x / 16 < 16,
        x % 16 < 16,
        (x / 16) * 16 + x % 16 == x,
{
}

/// Two byte strings with the same hex text are equal.
proof fn lemma_upper_hex_injective(a: Seq<u8>, b: Seq<u8>)
    requires
        upper_hex(a) == upper_hex(b),
    ensures
        a == b,
    decreases a.len(),
{
    lemma_upper_hex(a);
    lemma_upper_hex(b);
    if a.len() > 0 {
        let ha = upper_hex(a);
        let n = ha.len();
        assert(upper_hex(a.drop_last()) == ha.subrange(0, n - 2));
        assert(upper_hex(b.drop_last()) == upper_hex(b).subrange(0, n - 2));
        lemma_upper_hex_injective(a.drop_last(), b.drop_last());
        let (x, y) = (a.last(), b.last());
        lemma_byte_split(x);
        lemma_byte_split(y);
        assert(ha[n - 2] == hex_digit(x / 16) && upper_hex(b)[n - 2] == hex_digit(y / 16));
        assert(ha[n - 1] == hex_digit(x % 16) && upper_hex(b)[n - 1] == hex_digit(y % 16));
        lemma_hex_digit_value(x / 16);
        lemma_hex_digit_value(y / 16);
        lemma_hex_digit_value(x % 16);
        lemma_hex_digit_value(y % 16);
        assert(a == a.drop_last().push(x));
        assert(b == b.drop_last().push(y));
    }
}

/// The bytes whose upper-case hex text is `s`, if there are any.
fn decode_upper_hex(s: &Vec<char>) -> (r: Option<Vec<u8>>)
    ensures
        r matches Some(b) ==> upper_hex(b@) == s@,
        forall|b: Seq<u8>| #[trigger] upper_hex(b) == s@ ==> r is Some,
{
    if s.len() % 2 != 0 {
        proof {
            assert forall|b: Seq<u8>| #[trigger] upper_hex(b) == s@ implies false by {
                lemma_upper_hex(b);
            }
        }
        return None;
    }
    let mut out: Vec<u8> = Vec::new();
    let mut i: usize = 0;
    while i < s.len()
        invariant
            s.len() % 2 == 0,
            i % 2 == 0,
            i <= s.len(),
            upper_hex(out@) == s@.subrange(0, i as int),
        decreases s.len() - i,
    {
        let hi = s[i];
        let lo = s[i + 1];
        let ok_hi = ('0' <= hi && hi <= '9') || ('A' <= hi && hi <= 'F');
        let ok_lo = ('0' <= lo && lo <= '9') || ('A' <= lo && lo <= 'F');
        if !ok_hi || !ok_lo {
            proof {
                assert forall|b: Seq<u8>| #[trigger] upper_hex(b) == s@ implies false by {
                    lemma_upper_hex(b);
                    assert(is_upper_hex_digit(upper_hex(b)[i as int]));
                    assert(is_upper_hex_digit(upper_hex(b)[i + 1]));
                }
            }
            return None;
        }
        let hv: u8 = if hi <= '9' { (hi as u32 - '0' as u32) as u8 } else { (hi as u32 - 'A' as u32 + 10) as u8 };
        let lv: u8 = if lo <= '9' { (lo as u32 - '0' as u32) as u8 } else { (lo as u32 - 'A' as u32 + 10) as u8 };
        let x: u8 = hv * 16 + lv;
        assert(x / 16 == hv && x % 16 == lv) by (nonlinear_arith)
            requires
                x == hv * 16 + lv,
                hv < 16,
                lv < 16,
        ;
        assert(hex_digit(hv) == hi && hex_digit(lv) == lo);
        let ghost before = out@;
        out.push(x);
        assert(out@.drop_last() == before);
        assert(s@.subrange(0, i + 2) == s@.subrange(0, i as int).push(hi).push(lo));
        i += 2;
    }
    assert(s@.subrange(0, s.len() as int) == s@);
    Some(out)
}

/// The plaintext of an authentication blob, given the password it was made
/// with: when `blob` is the hex text of the encryption of some `m` under the
/// password's key, the result is `m`.
pub fn decrypt_auth_blob(password: &str, blob: &str) -> (r: Option<Vec<u8>>)
    ensures
        forall|m: Seq<u8>|
            blob@ == upper_hex(#[trigger] tdes_ecb_pkcs7(auth_key(password@), m)) ==> (r matches Some(p) && p@ == m),
{
    let key = derive_key(password);
    let text = chars_of(blob);
    match decode_upper_hex(&text) {
        None => None,
        Some(c) => {
            let r = tdes_decrypt(key.as_slice(), c.as_slice());
            proof {
                assert forall|m: Seq<u8>|
                    blob@ == upper_hex(#[trigger] tdes_ecb_pkcs7(auth_key(password@), m)) implies c@
                    == tdes_ecb_pkcs7(key@, m) by {
                    lemma_upper_hex_injective(c@, tdes_ecb_pkcs7(key@, m));
                }
            }
            r
        },
    }
}

} // verus!
