//! The site's request signature (`X-E-H` header): the query string,
//! prefixed with `{version}`, sealed with AES-256-GCM under the site key and
//! a fresh 12-byte nonce, written as `base64(sealed).base64(nonce)`.

use vstd::prelude::*;
use vstd::string::*;
use vstd::utf8::encode_utf8;
use ring::aead;
use ring::rand::SecureRandom;
use base64::Engine;

verus! {

// ---------------------------------------------------------------------------
// Specifications
// ---------------------------------------------------------------------------

/// The signing key: "i4C7R2fXGocdYg" + "FLzCbDlsJ" + "jukf8G58b" in ASCII.
pub open spec fn signing_key() -> Seq<u8> {
    seq![
        105u8, 52, 67, 55, 82, 50, 102, 88, 71, 111, 99, 100, 89, 103, 70, 76, 122, 67, 98, 68,
        108, 115, 74, 106, 117, 107, 102, 56, 71, 53, 56, 98,
    ]
}

/// AES-256-GCM sealing with an empty associated data: the ciphertext with
/// the 16-byte tag appended.
pub uninterp spec fn aes256gcm_seal(key: Seq<u8>, nonce: Seq<u8>, plaintext: Seq<u8>) -> Seq<u8>;

/// One character of the standard base64 alphabet.
pub open spec fn b64_digit(v: int) -> char {
    if v < 26 {
        (65 + v) as char
    } else if v < 52 {
        (71 + v) as char
    } else if v < 62 {
        (v - 4) as char
    } else if v == 62 {
        '+'
    } else {
        '/'
    }
}

/// Standard base64 with `=` padding (RFC 4648, section 4).
pub open spec fn base64_std(b: Seq<u8>) -> Seq<char>
    decreases b.len(),
{
    if b.len() == 0 {
        seq![]
    } else if b.len() == 1 {
        let x = b[0] as int;
        seq![b64_digit(x / 4), b64_digit((x % 4) * 16), '=', '=']
    } else if b.len() == 2 {
        let x = b[0] as int;
        let y = b[1] as int;
        seq![b64_digit(x / 4), b64_digit((x % 4) * 16 + y / 16), b64_digit((y % 16) * 4), '=']
    } else {
        let x = b[0] as int;
        let y = b[1] as int;
        let z = b[2] as int;
        seq![
            b64_digit(x / 4),
            b64_digit((x % 4) * 16 + y / 16),
            b64_digit((y % 16) * 4 + z / 64),
            b64_digit(z % 64),
        ] + base64_std(b.skip(3))
    }
}

/// "{version}" in ASCII, the prefix of every sealed query.
pub open spec fn version_prefix() -> Seq<u8> {
    seq![123u8, 118, 101, 114, 115, 105, 111, 110, 125]
}

/// The bytes that are sealed for a query: the prefix, then the query in
/// UTF-8.
pub open spec fn signed_plaintext(query: Seq<char>) -> Seq<u8> {
    version_prefix() + encode_utf8(query)
}

/// The header value for a query and a nonce.
pub open spec fn signature_spec(query: Seq<char>, nonce: Seq<u8>) -> Seq<char> {
    base64_std(aes256gcm_seal(signing_key(), nonce, signed_plaintext(query))) + "."@
        + base64_std(nonce)
}

// ---------------------------------------------------------------------------
// Outside calls
// ---------------------------------------------------------------------------

/// The longest input ring seals with AES-GCM: (2^32 - 2) blocks of 16
/// bytes.
pub const MAX_SEAL_LEN: u64 = 68_719_476_704;

/// Which step of sealing failed.
#[derive(Clone, Copy, Debug, PartialEq, Eq, Structural)]
pub enum SealError {
    Key,
    Seal,
}

/// Fresh random nonce from `ring::rand::SystemRandom::fill`. Nothing is
/// claimed of the bytes: they come from the operating system.
#[verifier::external_body]
fn random_nonce() -> (r: Result<[u8; 12], ()>) {
    let mut iv = [0u8; 12];
    match ring::rand::SystemRandom::new().fill(&mut iv) {
        Ok(()) => Ok(iv),
        Err(_) => Err(()),
    }
}

/// Seals `data` in place with `ring`: `UnboundKey::new(&AES_256_GCM, key)`,
/// `LessSafeKey::new`, then `seal_in_place_append_tag` with the nonce and an
/// empty associated data. On success `data` holds the AES-256-GCM ciphertext
/// followed by ring's 16-byte tag. The key is refused (`Key`) exactly when
/// it is not 32 bytes long: ring turns the bytes into a 32-byte array and
/// its key schedule fails only on a wrong length. Sealing is refused
/// (`Seal`) only for inputs longer than ring's `MAX_IN_OUT_LEN`,
/// (2^32 - 2) * 16 bytes, the most a 32-bit block counter reaches. Nothing
/// is claimed of `data` after an error.
#[verifier::external_body]
fn seal_aes256gcm(key: &[u8], nonce: [u8; 12], data: &mut Vec<u8>) -> (r: Result<(), SealError>)
    ensures
        r is Ok ==> final(data)@ == aes256gcm_seal(key@, nonce@, old(data)@),
        r is Ok ==> final(data)@.len() == old(data)@.len() + 16,
        (r == Err::<(), SealError>(SealError::Key)) == (key@.len() != 32),
        r == Err::<(), SealError>(SealError::Seal) ==> old(data)@.len() > MAX_SEAL_LEN,
{
    let unbound = match aead::UnboundKey::new(&aead::AES_256_GCM, key) {
        Ok(k) => k,
        Err(_) => return Err(SealError::Key),
    };
    let sealing = aead::LessSafeKey::new(unbound);
    match sealing.seal_in_place_append_tag(
        aead::Nonce::assume_unique_for_key(nonce),
        aead::Aad::empty(),
        data,
    ) {
        Ok(()) => Ok(()),
        Err(_) => Err(SealError::Seal),
    }
}

/// Standard padded base64 of the bytes
/// (`base64::engine::general_purpose::STANDARD.encode`). The encoder panics
/// when the output length overflows, so the input is bounded.
#[verifier::external_body]
fn base64_encode(bytes: &[u8]) -> (s: String)
    requires
        bytes@.len() <= usize::MAX / 2,
    ensures
        s@ == base64_std(bytes@),
{
    base64::engine::general_purpose::STANDARD.encode(bytes)
}

// ---------------------------------------------------------------------------
// Signing
// ---------------------------------------------------------------------------

fn signing_key_bytes() -> (k: [u8; 32])
    ensures
        k@ == signing_key(),
{
    let k: [u8; 32] = [
        105u8, 52, 67, 55, 82, 50, 102, 88, 71, 111, 99, 100, 89, 103, 70, 76, 122, 67, 98, 68,
        108, 115, 74, 106, 117, 107, 102, 56, 71, 53, 56, 98,
    ];
    assert(k@ =~= signing_key());
    k
}

fn append_bytes(v: &mut Vec<u8>, b: &[u8])
    ensures
        final(v)@ == old(v)@ + b@,
{
    let ghost start = v@;
    let mut i: usize = 0;
    while i < b.len()
        invariant
            i <= b@.len(),
            v@ == start + b@.take(i as int),
        decreases b@.len() - i,
    {
        v.push(b[i]);
        i = i + 1;
        assert(v@ =~= start + b@.take(i as int));
    }
    assert(b@.take(b@.len() as int) =~= b@);
}

/// Signs a query string with a given nonce.
///
/// Always succeeds for a query that fits ring's limit; beyond it fails with
/// "istek imzalanamadı".
pub fn sign_query_with_nonce(query: &str, nonce: [u8; 12]) -> (r: Result<String, String>)
    requires
        encode_utf8(query@).len() <= usize::MAX / 4,
    ensures
        match r {
            Ok(s) => s@ == signature_spec(query@, nonce@) && aes256gcm_seal(
                signing_key(),
                nonce@,
                signed_plaintext(query@),
            ).len() == signed_plaintext(query@).len() + 16,
            Err(e) => signed_plaintext(query@).len() > MAX_SEAL_LEN && e@ == "istek imzalanamadı"@,
        },
        signed_plaintext(query@).len() <= MAX_SEAL_LEN ==> r is Ok,
{
    let key = signing_key_bytes();
    let prefix: [u8; 9] = [123u8, 118, 101, 114, 115, 105, 111, 110, 125];
    assert(prefix@ =~= version_prefix());
    let mut data: Vec<u8> = Vec::new();
    append_bytes(&mut data, &prefix);
    append_bytes(&mut data, query.as_bytes());
    assert(data@ =~= signed_plaintext(query@));
    assert(key@.len() == 32);
    match seal_aes256gcm(&key, nonce, &mut data) {
        Err(SealError::Key) => Err(String::from_str("imza anahtarı geçersiz")),
        Err(SealError::Seal) => Err(String::from_str("istek imzalanamadı")),
        Ok(()) => {
            let mut out = base64_encode(data.as_slice());
            out.append(".");
            let tail = base64_encode(&nonce);
            out.append(tail.as_str());
            Ok(out)
        },
    }
}

/// Signs a query string: the `X-E-H` header value.
///
/// Fails with "rastgele IV üretilemedi" when no random nonce can be had;
/// otherwise the result is that of `sign_query_with_nonce` for the nonce
/// that was drawn, which succeeds for every query within ring's limit.
pub fn sign_query(query: &str) -> (r: Result<String, String>)
    requires
        encode_utf8(query@).len() <= usize::MAX / 4,
    ensures
        match r {
            Ok(s) => exists|nonce: Seq<u8>|
                nonce.len() == 12 && s@ == #[trigger] signature_spec(query@, nonce) && aes256gcm_seal(
                    signing_key(),
                    nonce,
                    signed_plaintext(query@),
                ).len() == signed_plaintext(query@).len() + 16,
            Err(e) => e@ == "rastgele IV üretilemedi"@ || (signed_plaintext(query@).len()
                > MAX_SEAL_LEN && e@ == "istek imzalanamadı"@),
        },
{
    let nonce = match random_nonce() {
        Ok(n) => n,
        Err(()) => return Err(String::from_str("rastgele IV üretilemedi")),
    };
    sign_query_with_nonce(query, nonce)
}

// ---------------------------------------------------------------------------
// Laws
// ---------------------------------------------------------------------------

/// Base64 text never holds a dot, and four characters stand for every
/// started group of three bytes.
pub proof fn lemma_base64_shape(b: Seq<u8>)
    ensures
        forall|i: int| 0 <= i < base64_std(b).len() ==> #[trigger] base64_std(b)[i] != '.',
        base64_std(b).len() == 4 * ((b.len() + 2) / 3),
    decreases b.len(),
{
    if b.len() >= 3 {
        lemma_base64_shape(b.skip(3));
        let x = b[0] as int;
        let y = b[1] as int;
        let z = b[2] as int;
        let head = seq![
            b64_digit(x / 4),
            b64_digit((x % 4) * 16 + y / 16),
            b64_digit((y % 16) * 4 + z / 64),
            b64_digit(z % 64),
        ];
        let tail = base64_std(b.skip(3));
        assert forall|i: int| 0 <= i < (head + tail).len() implies (head + tail)[i] != '.' by {
            if i < 4 {
                assert((head + tail)[i] == head[i]);
            } else {
                assert((head + tail)[i] == tail[i - 4]);
            }
        }
    }
}

/// A signature splits at its only dot into the base64 of the sealed query
/// and the base64 of the nonce, and the nonce part is sixteen characters.
pub proof fn lemma_signature_parts(query: Seq<char>, nonce: Seq<u8>)
    requires
        nonce.len() == 12,
    ensures
        crate::text::before_first(signature_spec(query, nonce), "."@) == base64_std(
            aes256gcm_seal(signing_key(), nonce, signed_plaintext(query)),
        ),
        crate::text::after_first(signature_spec(query, nonce), "."@) == Some(base64_std(nonce)),
        base64_std(nonce).len() == 16,
        forall|i: int|
            0 <= i < base64_std(nonce).len() ==> #[trigger] base64_std(nonce)[i] != '.',
{
    reveal_strlit(".");
    let a = base64_std(aes256gcm_seal(signing_key(), nonce, signed_plaintext(query)));
    let n = base64_std(nonce);
    lemma_base64_shape(aes256gcm_seal(signing_key(), nonce, signed_plaintext(query)));
    lemma_base64_shape(nonce);
    let sig = a + "."@ + n;
    assert(sig == signature_spec(query, nonce));
    assert forall|j: int| 0 <= j < a.len() implies sig[j] != '.' by {
        assert(sig[j] == a[j]);
    }
    assert(sig[a.len() as int] == '.');
    crate::text::lemma_first_char(sig, '.', a.len() as int);
    assert("."@ =~= seq!['.']);
    assert(sig.take(a.len() as int) =~= a);
    assert(sig.skip(a.len() + 1int) =~= n);
}

} // verus!
