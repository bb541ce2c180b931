//! The bot-detection data of the sign-in page: a fixed browser fingerprint,
//! encrypted with a fresh AES key that is itself encrypted with the
//! service's RSA key, and the `rid` that the service answers with.

use vstd::prelude::*;

use aes::cipher::{block_padding::Pkcs7, BlockEncryptMut, KeyIvInit};
use rand::Rng;

use crate::http;
use crate::json::{self, Json};
use crate::text;
use crate::text::{append_str, i64_to_decimal};

verus! {

broadcast use vstd::string::group_string_axioms;

/// The browser fingerprint that is sent, as JSON text.
pub const FINGERPRINT: &'static str = "{\"bh\":{\"kt\":{\"down\":0,\"up\":0},\"mt\":[]},\"fp\":{\"0\":\"1.2.1\",\"1\":{\"s\":1,\"v\":true},\"10\":{\"s\":1,\"v\":true},\"11\":{\"s\":1,\"v\":5},\"12\":{\"e\":\"\",\"s\":-1},\"13\":{\"s\":1,\"v\":\"20030107\"},\"14\":{\"s\":1,\"v\":100},\"15\":{\"s\":1,\"v\":\"Mozilla/5.0 (Windows NT 10.0; Win64; x64) AppleWebKit/537.36 (KHTML, like Gecko) Chrome/148.0.0.0 Safari/537.36\"},\"16\":{\"s\":1,\"v\":{\"renderer\":\"WebKit WebGL\",\"vendor\":\"WebKit\"}},\"17\":{\"s\":1,\"v\":\"[object External]\"},\"18\":{\"s\":1,\"v\":{\"ih\":720,\"iw\":1280,\"oh\":808,\"ow\":1296}},\"19\":{\"s\":1,\"v\":\"chrome\"},\"2\":{\"s\":1,\"v\":[\"lang\"]},\"20\":{\"s\":1,\"v\":\"chromium\"},\"21\":{\"s\":1,\"v\":true},\"22\":{\"s\":1,\"v\":true},\"23\":{\"s\":1,\"v\":{\"mmtp\":-1,\"mtp\":20,\"ots\":false}},\"3\":{\"s\":1,\"v\":\"5.0 (Windows NT 10.0; Win64; x64) AppleWebKit/537.36 (KHTML, like Gecko) Chrome/148.0.0.0 Safari/537.36\"},\"4\":{\"s\":1,\"v\":\"Error\\n    at Object.<anonymous>\"},\"5\":{\"s\":1,\"v\":33},\"6\":{\"s\":1,\"v\":\"function bind() { [native code] }\"},\"7\":{\"s\":1,\"v\":[[\"zh-CN\"]]},\"8\":{\"s\":1,\"v\":true},\"9\":{\"s\":1,\"v\":false}},\"meta\":{\"isTraceKeyboard\":true,\"isTraceMouse\":true}}";

/// The fingerprint takes fewer than 4096 bytes.
proof fn lemma_fingerprint_len()
    ensures
        vstd::utf8::encode_utf8(FINGERPRINT@).len() < 4096,
{
    reveal_strlit("{\"bh\":{\"kt\":{\"down\":0,\"up\":0},\"mt\":[]},\"fp\":{\"0\":\"1.2.1\",\"1\":{\"s\":1,\"v\":true},\"10\":{\"s\":1,\"v\":true},\"11\":{\"s\":1,\"v\":5},\"12\":{\"e\":\"\",\"s\":-1},\"13\":{\"s\":1,\"v\":\"20030107\"},\"14\":{\"s\":1,\"v\":100},\"15\":{\"s\":1,\"v\":\"Mozilla/5.0 (Windows NT 10.0; Win64; x64) AppleWebKit/537.36 (KHTML, like Gecko) Chrome/148.0.0.0 Safari/537.36\"},\"16\":{\"s\":1,\"v\":{\"renderer\":\"WebKit WebGL\",\"vendor\":\"WebKit\"}},\"17\":{\"s\":1,\"v\":\"[object External]\"},\"18\":{\"s\":1,\"v\":{\"ih\":720,\"iw\":1280,\"oh\":808,\"ow\":1296}},\"19\":{\"s\":1,\"v\":\"chrome\"},\"2\":{\"s\":1,\"v\":[\"lang\"]},\"20\":{\"s\":1,\"v\":\"chromium\"},\"21\":{\"s\":1,\"v\":true},\"22\":{\"s\":1,\"v\":true},\"23\":{\"s\":1,\"v\":{\"mmtp\":-1,\"mtp\":20,\"ots\":false}},\"3\":{\"s\":1,\"v\":\"5.0 (Windows NT 10.0; Win64; x64) AppleWebKit/537.36 (KHTML, like Gecko) Chrome/148.0.0.0 Safari/537.36\"},\"4\":{\"s\":1,\"v\":\"Error\\n    at Object.<anonymous>\"},\"5\":{\"s\":1,\"v\":33},\"6\":{\"s\":1,\"v\":\"function bind() { [native code] }\"},\"7\":{\"s\":1,\"v\":[[\"zh-CN\"]]},\"8\":{\"s\":1,\"v\":true},\"9\":{\"s\":1,\"v\":false}},\"meta\":{\"isTraceKeyboard\":true,\"isTraceMouse\":true}}");
    assert(FINGERPRINT@ == "{\"bh\":{\"kt\":{\"down\":0,\"up\":0},\"mt\":[]},\"fp\":{\"0\":\"1.2.1\",\"1\":{\"s\":1,\"v\":true},\"10\":{\"s\":1,\"v\":true},\"11\":{\"s\":1,\"v\":5},\"12\":{\"e\":\"\",\"s\":-1},\"13\":{\"s\":1,\"v\":\"20030107\"},\"14\":{\"s\":1,\"v\":100},\"15\":{\"s\":1,\"v\":\"Mozilla/5.0 (Windows NT 10.0; Win64; x64) AppleWebKit/537.36 (KHTML, like Gecko) Chrome/148.0.0.0 Safari/537.36\"},\"16\":{\"s\":1,\"v\":{\"renderer\":\"WebKit WebGL\",\"vendor\":\"WebKit\"}},\"17\":{\"s\":1,\"v\":\"[object External]\"},\"18\":{\"s\":1,\"v\":{\"ih\":720,\"iw\":1280,\"oh\":808,\"ow\":1296}},\"19\":{\"s\":1,\"v\":\"chrome\"},\"2\":{\"s\":1,\"v\":[\"lang\"]},\"20\":{\"s\":1,\"v\":\"chromium\"},\"21\":{\"s\":1,\"v\":true},\"22\":{\"s\":1,\"v\":true},\"23\":{\"s\":1,\"v\":{\"mmtp\":-1,\"mtp\":20,\"ots\":false}},\"3\":{\"s\":1,\"v\":\"5.0 (Windows NT 10.0; Win64; x64) AppleWebKit/537.36 (KHTML, like Gecko) Chrome/148.0.0.0 Safari/537.36\"},\"4\":{\"s\":1,\"v\":\"Error\\n    at Object.<anonymous>\"},\"5\":{\"s\":1,\"v\":33},\"6\":{\"s\":1,\"v\":\"function bind() { [native code] }\"},\"7\":{\"s\":1,\"v\":[[\"zh-CN\"]]},\"8\":{\"s\":1,\"v\":true},\"9\":{\"s\":1,\"v\":false}},\"meta\":{\"isTraceKeyboard\":true,\"isTraceMouse\":true}}"@);
    text::lemma_utf8_len_encode(FINGERPRINT@);
    text::lemma_utf8_len_le(FINGERPRINT@);
}

/// Modulus of the service's RSA public key, in hexadecimal.
pub const RSA_MODULUS_HEX: &'static str = "b4f9654ae3f7dee618dc0a95b783a4b914a6a4729e472e974d47e2174e43b1f6c5f9d527f33726701140879b6d32b93d15696af594d47f0712e3ff28c7f141d3a7b9e805babdf53ba1d630a0fb155cbbac53980b5548258957683f275606965406b2e5dc908583d42f8be8b9c0615989aa8d2713550499ee4b5df360ce48875b";

/// Public exponent of the service's RSA key.
pub const RSA_EXPONENT: u64 = 65537;

// ---------------------------------------------------------------------------
// Outside calls
// ---------------------------------------------------------------------------

/// Calls `rand::thread_rng().gen::<[u8; 16]>()`. Claimed: 16 bytes;
/// nothing of their values.
#[verifier::external_body]
fn random_block() -> (r: Vec<u8>)
    ensures
        r@.len() == 16,
{
    let b: [u8; 16] = rand::thread_rng().gen();
    b.to_vec()
}

/// Names what AES-128 in CBC mode with PKCS#7 padding gives for a key, an
/// IV and a plaintext.
pub uninterp spec fn aes128_cbc_pkcs7(key: Seq<u8>, iv: Seq<u8>, plaintext: Seq<u8>) -> Seq<u8>;

/// Calls `cbc::Encryptor::<aes::Aes128>::new` and
/// `encrypt_padded_vec_mut::<Pkcs7>`. Claimed: the ciphertext is named
/// `aes128_cbc_pkcs7` of the arguments, and PKCS#7 padding makes it the
/// plaintext length rounded up to the next whole 16-byte block.
#[verifier::external_body]
fn aes128_cbc_encrypt(key: &[u8], iv: &[u8], plaintext: &[u8]) -> (r: Vec<u8>)
    requires
        key@.len() == 16,
        iv@.len() == 16,
        plaintext@.len() + 16 <= usize::MAX,
    ensures
        r@ == aes128_cbc_pkcs7(key@, iv@, plaintext@),
        r@.len() == 16 * (plaintext@.len() / 16 + 1),
{
    cbc::Encryptor::<aes::Aes128>::new(key.into(), iv.into()).encrypt_padded_vec_mut::<Pkcs7>(plaintext)
}

/// `rsa::RsaPublicKey`, carried from `rsa_public_key` to `oaep_encrypt`
/// inside an `RsaKey`.
#[verifier::external_type_specification]
#[verifier::external_body]
pub struct ExRsaPublicKey(rsa::RsaPublicKey);

/// `rsa::Error`, returned by the RSA calls.
#[verifier::external_type_specification]
#[verifier::external_body]
pub struct ExRsaError(rsa::Error);

/// Value of an ASCII hexadecimal digit, or -1 for any other character.
pub open spec fn hex_digit_value(c: char) -> int {
    if '0' <= c <= '9' {
        c as int - '0' as int
    } else if 'a' <= c <= 'f' {
        c as int - 'a' as int + 10
    } else if 'A' <= c <= 'F' {
        c as int - 'A' as int + 10
    } else {
        -1
    }
}

/// A public key that `RsaPublicKey::new` accepts, written as the modulus in
/// hexadecimal and the exponent: 9 to 1024 hexadecimal digits without a
/// leading zero (so the modulus has at most 4096 bits and exceeds every
/// exponent below 2^32), an odd modulus, and an odd exponent from 3 below
/// 2^32.
pub open spec fn rsa_key_text_ok(hex: Seq<char>, e: u64) -> bool {
    &&& 9 <= hex.len() <= 1024
    &&& forall|i: int| 0 <= i < hex.len() ==> hex_digit_value(#[trigger] hex[i]) >= 0
    &&& hex[0] != '0'
    &&& hex_digit_value(hex.last()) % 2 == 1
    &&& e % 2 == 1
    &&& 3 <= e < 0x1_0000_0000
}

/// Bits of a nonzero hexadecimal digit value.
pub open spec fn digit_bits(d: int) -> int {
    if d >= 8 {
        4
    } else if d >= 4 {
        3
    } else if d >= 2 {
        2
    } else {
        1
    }
}

/// Bytes of the modulus written in hexadecimal as `hex` (without a leading
/// zero): `RsaPublicKey::size`.
pub open spec fn modulus_bytes(hex: Seq<char>) -> int {
    (4 * (hex.len() - 1) + digit_bits(hex_digit_value(hex[0])) + 7) / 8
}

/// Names whether `blob` is an RSA-OAEP (SHA-256, no label) encryption of
/// `msg` under the public key with this hexadecimal modulus and this
/// exponent.
pub uninterp spec fn oaep_encrypts(modulus_hex: Seq<char>, e: u64, msg: Seq<u8>, blob: Seq<u8>) -> bool;

/// Calls `BigUint::parse_bytes` (radix 16) on the modulus text and
/// `RsaPublicKey::new` with it and the exponent; `Err(None)` when the text
/// does not parse, `Err(Some(e))` when the key is refused. Claimed: a key
/// text that `rsa_key_text_ok` describes parses (`from_str_radix` takes any
/// non-empty run of digits of the radix) and passes the checks of `new`
/// (size at most 4096 bits, odd modulus, odd exponent from 2 to 2^33 - 1,
/// exponent below the modulus).
#[verifier::external_body]
fn rsa_public_key(modulus_hex: &str, e: u64) -> (r: Result<rsa::RsaPublicKey, Option<rsa::Error>>)
    ensures
        rsa_key_text_ok(modulus_hex@, e) ==> r is Ok,
{
    match rsa::BigUint::parse_bytes(modulus_hex.as_bytes(), 16) {
        None => Err(None),
        Some(n) => rsa::RsaPublicKey::new(n, rsa::BigUint::from(e)).map_err(Some),
    }
}

/// An RSA public key, with the text of its modulus and its exponent. Only
/// `build_rsa_pubkey` makes one, from the same text and exponent.
pub struct RsaKey {
    key: rsa::RsaPublicKey,
    modulus_hex: Ghost<Seq<char>>,
    exponent: u64,
}

impl RsaKey {
    /// The modulus in hexadecimal.
    pub closed spec fn modulus(&self) -> Seq<char> {
        self.modulus_hex@
    }

    /// The public exponent.
    pub closed spec fn exponent(&self) -> u64 {
        self.exponent
    }
}

/// Calls `RsaPublicKey::encrypt` with `rand::thread_rng()` and
/// `Oaep::new::<sha2::Sha256>()`. Claimed: the ciphertext is an OAEP
/// encryption of the data under the key (named `oaep_encrypts`; the padding
/// is random, so nothing more is said of its bytes). For a key text that
/// `rsa_key_text_ok` describes, the ciphertext is `RsaPublicKey::size`
/// bytes long (the source pads the result to the key size), and the call
/// succeeds when the data leaves room for the padding (at most the key
/// size less 66 bytes: the source refuses only a longer message, a label
/// over 2^61 - 1 bytes, which is never passed, or a key that `new` would
/// have refused; the raw RSA step and the padding to the key size do not
/// fail for a value below the modulus).
#[verifier::external_body]
fn oaep_encrypt(key: &RsaKey, data: &[u8]) -> (r: Result<Vec<u8>, rsa::Error>)
    ensures
        r matches Ok(b) ==> oaep_encrypts(key.modulus(), key.exponent(), data@, b@),
        rsa_key_text_ok(key.modulus(), key.exponent()) ==> (r matches Ok(b) ==> b@.len() == modulus_bytes(key.modulus())),
        rsa_key_text_ok(key.modulus(), key.exponent()) && data@.len() + 66 <= modulus_bytes(key.modulus()) ==> r is Ok,
{
    key.key.encrypt(&mut rand::thread_rng(), rsa::Oaep::new::<sha2::Sha256>(), data)
}

/// The public key with this hexadecimal modulus and exponent: the modulus
/// error when the text does not parse, the key error when `rsa` refuses
/// the key; neither for a text that `rsa_key_text_ok` describes.
fn build_rsa_pubkey(modulus_hex: &str, e: u64) -> (r: Result<RsaKey, BdError>)
    ensures
        r matches Ok(k) ==> k.modulus() == modulus_hex@ && k.exponent() == e,
        r matches Err(err) ==> (err is Modulus || err is PublicKey),
        rsa_key_text_ok(modulus_hex@, e) ==> r is Ok,
{
    match rsa_public_key(modulus_hex, e) {
        Ok(key) => Ok(RsaKey { key, modulus_hex: Ghost(modulus_hex@), exponent: e }),
        Err(None) => Err(BdError::Modulus),
        Err(Some(_)) => Err(BdError::PublicKey),
    }
}

/// The service's key text is one that `rsa` accepts, and its modulus takes
/// 128 bytes.
proof fn lemma_service_key()
    ensures
        rsa_key_text_ok(RSA_MODULUS_HEX@, RSA_EXPONENT),
        modulus_bytes(RSA_MODULUS_HEX@) == 128,
{
    reveal_strlit("b4f9654ae3f7dee618dc0a95b783a4b914a6a4729e472e974d47e2174e43b1f6c5f9d527f33726701140879b6d32b93d15696af594d47f0712e3ff28c7f141d3a7b9e805babdf53ba1d630a0fb155cbbac53980b5548258957683f275606965406b2e5dc908583d42f8be8b9c0615989aa8d2713550499ee4b5df360ce48875b");
    assert(RSA_MODULUS_HEX@ == "b4f9654ae3f7dee618dc0a95b783a4b914a6a4729e472e974d47e2174e43b1f6c5f9d527f33726701140879b6d32b93d15696af594d47f0712e3ff28c7f141d3a7b9e805babdf53ba1d630a0fb155cbbac53980b5548258957683f275606965406b2e5dc908583d42f8be8b9c0615989aa8d2713550499ee4b5df360ce48875b"@);
    let h = RSA_MODULUS_HEX@;
    assert(h.len() == 256);
    assert forall|i: int| 0 <= i < h.len() implies hex_digit_value(#[trigger] h[i]) >= 0 by {
        assert(hex_digit_value(h[i]) >= 0);
    }
}

/// The key followed by the IV.
fn key_then_iv(key: &Vec<u8>, iv: &Vec<u8>) -> (r: Vec<u8>)
    ensures
        r@ == key@ + iv@,
{
    let mut out: Vec<u8> = Vec::new();
    let mut i: usize = 0;
    assert(out@ =~= key@.take(0));
    while i < key.len()
        invariant
            0 <= i <= key@.len(),
            out@ == key@.take(i as int),
        decreases key.len() - i,
    {
        out.push(key[i]);
        i = i + 1;
        assert(out@ =~= key@.take(i as int));
    }
    let mut j: usize = 0;
    assert(out@ =~= key@ + iv@.take(0));
    while j < iv.len()
        invariant
            0 <= j <= iv@.len(),
            out@ == key@ + iv@.take(j as int),
        decreases iv.len() - j,
    {
        out.push(iv[j]);
        j = j + 1;
        assert(out@ =~= key@ + iv@.take(j as int));
    }
    assert(iv@.take(iv@.len() as int) =~= iv@);
    out
}

// ---------------------------------------------------------------------------
// The data
// ---------------------------------------------------------------------------

/// What can go wrong while building the data or reading the `rid`.
#[derive(Debug)]
pub enum BdError {
    /// The RSA modulus does not parse.
    Modulus,
    /// The RSA public key is refused.
    PublicKey,
    /// RSA-OAEP encryption failed.
    Encrypt,
    /// The service answered with another `retcode`, and this `msg`.
    Retcode { code: i64, msg: Option<Json> },
    /// The answer has no `data.rid`.
    NoRid,
}

impl BdError {
    /// The message that describes this error.
    pub fn message(&self) -> (r: String)
        ensures
            r@ == match self {
                BdError::Modulus => "解析 RSA modulus 失败"@,
                BdError::PublicKey => "构造 RSA 公钥失败"@,
                BdError::Encrypt => "RSA OAEP 加密失败"@,
                BdError::Retcode { code, .. } => "/sso/bd 错误: retcode="@ + text::signed_decimal(*code as int),
                BdError::NoRid => "响应中无 rid 字段"@,
            },
    {
        match self {
            BdError::Modulus => "解析 RSA modulus 失败".to_string(),
            BdError::PublicKey => "构造 RSA 公钥失败".to_string(),
            BdError::Encrypt => "RSA OAEP 加密失败".to_string(),
            BdError::Retcode { code, .. } => {
                let mut s = "/sso/bd 错误: retcode=".to_string();
                let d = i64_to_decimal(*code);
                append_str(&mut s, d.as_str());
                s
            },
            BdError::NoRid => "响应中无 rid 字段".to_string(),
        }
    }
}

/// The bytes `01` + RSA blob + `02` + AES ciphertext.
pub open spec fn bd_inner(blob: Seq<u8>, ciphertext: Seq<u8>) -> Seq<u8> {
    seq![48u8, 49u8] + blob + seq![48u8, 50u8] + ciphertext
}

/// The data text: `01` followed by the Base64 of the inner bytes.
pub open spec fn bd_text(blob: Seq<u8>, ciphertext: Seq<u8>) -> Seq<char> {
    "01"@ + http::base64_standard(bd_inner(blob, ciphertext))
}

/// The data text starts with `01`, and the bytes it encodes start with
/// `01`, hold the RSA blob, then `02`, then the ciphertext: four bytes more
/// than the two parts.
pub proof fn law_bd_layout(blob: Seq<u8>, ciphertext: Seq<u8>)
    ensures
        bd_text(blob, ciphertext).take(2) == "01"@,
        bd_inner(blob, ciphertext).take(2) == seq![48u8, 49u8],
        bd_inner(blob, ciphertext).subrange(2, 2 + blob.len() as int) == blob,
        bd_inner(blob, ciphertext).subrange(2 + blob.len() as int, 4 + blob.len() as int) == seq![48u8, 50u8],
        bd_inner(blob, ciphertext).skip(4 + blob.len() as int) == ciphertext,
        bd_inner(blob, ciphertext).len() == blob.len() + ciphertext.len() + 4,
{
    reveal_strlit("01");
    let t = bd_text(blob, ciphertext);
    assert(t.take(2) =~= "01"@);
    let i = bd_inner(blob, ciphertext);
    assert(i.take(2) =~= seq![48u8, 49u8]);
    assert(i.subrange(2, 2 + blob.len() as int) =~= blob);
    assert(i.subrange(2 + blob.len() as int, 4 + blob.len() as int) =~= seq![48u8, 50u8]);
    assert(i.skip(4 + blob.len() as int) =~= ciphertext);
}

/// Packs the encrypted key and the encrypted fingerprint into the data
/// text.
pub fn pack_bd_data(blob: &[u8], ciphertext: &[u8]) -> (r: String)
    requires
        blob@.len() + ciphertext@.len() + 4 <= usize::MAX,
    ensures
        r@ == bd_text(blob@, ciphertext@),
{
    let mut inner: Vec<u8> = Vec::new();
    inner.push(48u8);
    inner.push(49u8);
    let mut i: usize = 0;
    while i < blob.len()
        invariant
            0 <= i <= blob@.len(),
            inner@ == seq![48u8, 49u8] + blob@.take(i as int),
        decreases blob.len() - i,
    {
        inner.push(blob[i]);
        i = i + 1;
        assert(inner@ =~= seq![48u8, 49u8] + blob@.take(i as int));
    }
    inner.push(48u8);
    inner.push(50u8);
    let ghost head = inner@;
    assert(head =~= seq![48u8, 49u8] + blob@ + seq![48u8, 50u8]);
    let mut j: usize = 0;
    while j < ciphertext.len()
        invariant
            0 <= j <= ciphertext@.len(),
            inner@ == head + ciphertext@.take(j as int),
        decreases ciphertext.len() - j,
    {
        inner.push(ciphertext[j]);
        j = j + 1;
        assert(inner@ =~= head + ciphertext@.take(j as int));
    }
    assert(inner@ =~= bd_inner(blob@, ciphertext@));
    let b64 = http::base64_encode(inner.as_slice());
    let mut out = "01".to_string();
    append_str(&mut out, b64.as_str());
    out
}

/// Builds the bot-detection data: a fresh random AES-128 key and IV encrypt
/// the fingerprint; RSA-OAEP (SHA-256) with the service's key encrypts the
/// key followed by the IV into a 128-byte blob; the two are packed into the
/// data text. The service's key is always accepted and the 32 bytes fit
/// its padding, so this always succeeds.
pub fn generate_bd_data() -> (r: Result<String, BdError>)
    ensures
        r is Ok,
        r matches Ok(t) ==> exists|key: Seq<u8>, iv: Seq<u8>, blob: Seq<u8>|
            key.len() == 16 && iv.len() == 16 && blob.len() == 128
                && oaep_encrypts(RSA_MODULUS_HEX@, RSA_EXPONENT, key + iv, blob)
                && aes128_cbc_pkcs7(key, iv, vstd::utf8::encode_utf8(FINGERPRINT@)).len() == 16 * (
                vstd::utf8::encode_utf8(FINGERPRINT@).len() / 16 + 1)
                && t@ == #[trigger] bd_text(blob, aes128_cbc_pkcs7(key, iv, vstd::utf8::encode_utf8(FINGERPRINT@))),
{
    let key = random_block();
    let iv = random_block();
    let plain = FINGERPRINT.as_bytes();
    proof {
        lemma_fingerprint_len();
        lemma_service_key();
    }
    let ciphertext = aes128_cbc_encrypt(key.as_slice(), iv.as_slice(), plain);
    let pk = match build_rsa_pubkey(RSA_MODULUS_HEX, RSA_EXPONENT) {
        Ok(k) => k,
        Err(e) => {
            return Err(e);
        },
    };
    let key_iv = key_then_iv(&key, &iv);
    let blob = match oaep_encrypt(&pk, key_iv.as_slice()) {
        Ok(b) => b,
        Err(_) => {
            return Err(BdError::Encrypt);
        },
    };
    assert(ciphertext@.len() <= 4112) by (nonlinear_arith)
        requires
            ciphertext@.len() == 16 * (plain@.len() / 16 + 1),
            plain@.len() < 4096,
    ;
    let t = pack_bd_data(blob.as_slice(), ciphertext.as_slice());
    assert(t@ == bd_text(blob@, aes128_cbc_pkcs7(key@, iv@, vstd::utf8::encode_utf8(FINGERPRINT@))));
    Ok(t)
}

/// The `rid` of an answer of the bot-detection endpoint: with `retcode`
/// 20000000 (a missing one counts as -1), the text at `data.rid`.
pub open spec fn rid_of(body: Json) -> Option<Seq<char>> {
    json::str_of(json::path2(body, "data"@, "rid"@))
}

/// The code of an answer (-1 when it has none).
pub open spec fn retcode_of(body: Json) -> i64 {
    match json::i64_of(json::field(body, "retcode"@)) {
        Some(c) => c,
        None => -1i64,
    }
}

/// Reads the `rid` from an answer of the bot-detection endpoint.
pub fn rid_from_response(body: Json) -> (r: Result<String, BdError>)
    ensures
        retcode_of(body) != 20000000 ==> (r matches Err(BdError::Retcode { code, msg }) && code == retcode_of(body)
            && msg == json::field(body, "msg"@)),
        retcode_of(body) == 20000000 ==> match rid_of(body) {
            Some(t) => r matches Ok(s) && s@ == t,
            None => r matches Err(BdError::NoRid),
        },
{
    let code = match json::i64_opt(body.get("retcode")) {
        Some(c) => c,
        None => -1i64,
    };
    if code != 20000000 {
        let msg = json::take_member(body, "msg");
        return Err(BdError::Retcode { code, msg });
    }
    match json::str_opt(json::get_path(&body, "data", "rid")) {
        Some(s) => Ok(s),
        None => Err(BdError::NoRid),
    }
}

} // verus!
