//! Encryption of the visitor cookie: AES-128-CBC with PKCS#7 padding, written
//! as lowercase hexadecimal.
use vstd::prelude::*;
use vstd::utf8::*;
use aes::cipher::{block_padding::Pkcs7, BlockDecryptMut, BlockEncryptMut, KeyIvInit};

verus! {

broadcast use vstd::utf8::is_ascii_chars_encode_utf8;

/// AES-128-CBC encryption with PKCS#7 padding of `plain` under `key` and `iv`.
pub uninterp spec fn aes_cbc_encrypt(key: Seq<u8>, iv: Seq<u8>, plain: Seq<u8>) -> Seq<u8>;

/// AES-128-CBC decryption of `cipher` under `key` and `iv`, `None` when its
/// padding is not valid PKCS#7.
pub uninterp spec fn aes_cbc_decrypt(key: Seq<u8>, iv: Seq<u8>, cipher: Seq<u8>) -> Option<Seq<u8>>;

/// The lowercase hexadecimal digit of `n`, for `n < 16`.
pub open spec fn hex_digit(n: int) -> char {
    if n < 10 {
        ((n + 48) as u32) as char
    } else {
        ((n + 87) as u32) as char
    }
}

/// `hex::encode`: two lowercase digits per byte, high nibble first.
pub open spec fn hex_text(b: Seq<u8>) -> Seq<char> {
    Seq::new(
        2 * b.len(),
        |j: int|
            if j % 2 == 0 {
                hex_digit(b[j / 2] as int / 16)
            } else {
                hex_digit(b[j / 2] as int % 16)
            },
    )
}

/// The value of a hexadecimal digit in either case.
pub open spec fn hex_value(c: u8) -> Option<int> {
    if 48 <= c <= 57 {
        Some(c - 48)
    } else if 97 <= c <= 102 {
        Some(c - 87)
    } else if 65 <= c <= 70 {
        Some(c - 55)
    } else {
        None
    }
}

/// `hex::decode` of the bytes of a text: an even number of hexadecimal
/// digits, two per byte, high nibble first.
pub open spec fn hex_decoded(h: Seq<u8>) -> Option<Seq<u8>> {
    if h.len() % 2 == 0 && forall|j: int| 0 <= j < h.len() ==> #[trigger] hex_value(h[j]) is Some {
        Some(
            Seq::new(
                (h.len() / 2) as nat,
                |i: int| (hex_value(h[2 * i]).unwrap() * 16 + hex_value(h[2 * i + 1]).unwrap()) as u8,
            ),
        )
    } else {
        None
    }
}

/// Whether `s` is a valid key or initialisation vector: sixteen bytes.
pub open spec fn is_block_sized(s: Seq<char>) -> bool {
    encode_utf8(s).len() == 16
}

/// What `encrypt` returns.
pub open spec fn encrypted(text: Seq<char>, key: Seq<char>, iv: Seq<char>) -> Result<Seq<char>, ()> {
    if text.len() == 0 {
        Err(())
    } else {
        Ok(hex_text(aes_cbc_encrypt(encode_utf8(key), encode_utf8(iv), encode_utf8(text))))
    }
}

/// Why `decrypt` fails.
#[derive(Debug, Clone, Copy, PartialEq, Eq, Structural)]
pub enum DecryptError {
    /// the text is empty
    Empty,
    /// the text is not hexadecimal
    InvalidHex,
    /// the padding of the decrypted bytes is not valid
    Failed,
}

impl DecryptError {
    /// The message of the error.
    pub fn message(&self) -> (r: &'static str)
        ensures
            r@ == match *self {
                DecryptError::Empty => "Empty string"@,
                DecryptError::InvalidHex => "Invalid hex"@,
                DecryptError::Failed => "Failed to decrypt"@,
            },
    {
        match self {
            DecryptError::Empty => "Empty string",
            DecryptError::InvalidHex => "Invalid hex",
            DecryptError::Failed => "Failed to decrypt",
        }
    }
}

/// The bytes that `decrypt` decrypts, or why it fails.
pub open spec fn decrypted_bytes(text: Seq<char>, key: Seq<char>, iv: Seq<char>) -> Result<Seq<u8>, DecryptError> {
    if text.len() == 0 {
        Err(DecryptError::Empty)
    } else {
        match hex_decoded(encode_utf8(text)) {
            None => Err(DecryptError::InvalidHex),
            Some(c) => match aes_cbc_decrypt(encode_utf8(key), encode_utf8(iv), c) {
                None => Err(DecryptError::Failed),
                Some(p) => Ok(p),
            },
        }
    }
}

/// Whether decryption succeeds but gives bytes that are not UTF-8 (where
/// `decrypt` has no answer).
pub open spec fn decrypts_to_non_text(text: Seq<char>, key: Seq<char>, iv: Seq<char>) -> bool {
    decrypted_bytes(text, key, iv) matches Ok(p) && !valid_utf8(p)
}

/// What `decrypt` returns when the decrypted bytes are UTF-8.
pub open spec fn decrypted(text: Seq<char>, key: Seq<char>, iv: Seq<char>) -> Result<Seq<char>, DecryptError> {
    match decrypted_bytes(text, key, iv) {
        Ok(p) => Ok(decode_utf8(p)),
        Err(e) => Err(e),
    }
}

/// Encrypts `text` with AES-128-CBC and PKCS#7 padding under `key` and `iv`,
/// and writes the result in lowercase hexadecimal; an empty text is refused.
/// What it writes, `decrypt` reads back under the same key and vector.
pub fn encrypt(text: &str, key: &str, iv: &str) -> (r: Result<String, &'static str>)
    requires
        is_block_sized(key@),
        is_block_sized(iv@),
    ensures
        match encrypted(text@, key@, iv@) {
            Ok(h) => r matches Ok(s) && s@ == h,
            Err(_) => r is Err,
        },
        r matches Ok(s) ==> !decrypts_to_non_text(s@, key@, iv@) && decrypted(s@, key@, iv@)
            == Ok::<Seq<char>, DecryptError>(text@),
{
    if text.is_empty() {
        return Err("Empty string");
    }
    let data = aes_encrypt(key.as_bytes(), iv.as_bytes(), text.as_bytes());
    let s = hex_encode(&data);
    proof {
        lemma_decrypt_encrypt(text@, key@, iv@, s@);
    }
    Ok(s)
}

/// Decrypts what `encrypt` wrote. Requires that the decrypted bytes, if any,
/// are UTF-8.
pub fn decrypt(text: &str, key: &str, iv: &str) -> (r: Result<String, DecryptError>)
    requires
        is_block_sized(key@),
        is_block_sized(iv@),
        !decrypts_to_non_text(text@, key@, iv@),
    ensures
        match decrypted(text@, key@, iv@) {
            Ok(s) => r matches Ok(t) && t@ == s,
            Err(e) => r == Err::<String, DecryptError>(e),
        },
{
    if text.is_empty() {
        return Err(DecryptError::Empty);
    }
    let hex = match hex_decode(text) {
        Some(h) => h,
        None => return Err(DecryptError::InvalidHex),
    };
    let plain = match aes_decrypt(key.as_bytes(), iv.as_bytes(), hex.as_slice()) {
        Some(p) => p,
        None => return Err(DecryptError::Failed),
    };
    match utf8_string(plain) {
        Some(s) => Ok(s),
        None => Err(DecryptError::Failed),
    }
}

/// `decrypt` where it has an answer: `None` when the decrypted bytes are not
/// UTF-8.
pub fn decrypt_checked(text: &str, key: &str, iv: &str) -> (r: Option<Result<String, DecryptError>>)
    requires
        is_block_sized(key@),
        is_block_sized(iv@),
    ensures
        decrypts_to_non_text(text@, key@, iv@) <==> r is None,
        r matches Some(d) ==> match decrypted(text@, key@, iv@) {
            Ok(s) => d matches Ok(t) && t@ == s,
            Err(e) => d == Err::<String, DecryptError>(e),
        },
{
    if text.is_empty() {
        return Some(Err(DecryptError::Empty));
    }
    let hex = match hex_decode(text) {
        Some(h) => h,
        None => return Some(Err(DecryptError::InvalidHex)),
    };
    let plain = match aes_decrypt(key.as_bytes(), iv.as_bytes(), hex.as_slice()) {
        Some(p) => p,
        None => return Some(Err(DecryptError::Failed)),
    };
    match utf8_string(plain) {
        Some(s) => Some(Ok(s)),
        None => None,
    }
}

proof fn lemma_hex_digit_value(n: int)
    requires
        0 <= n < 16,
    ensures
        hex_value((hex_digit(n) as u32) as u8) == Some(n),
{
}

/// Hexadecimal decoding gives back the bytes that hexadecimal encoding wrote.
pub proof fn lemma_hex_round_trip(b: Seq<u8>)
    ensures
        hex_decoded(encode_utf8(hex_text(b))) == Some(b),
{
    let t = hex_text(b);
    assert forall|j: int| 0 <= j < t.len() implies '\0' <= #[trigger] t[j] <= '\u{7f}' by {
        if j % 2 == 0 {
            assert(0 <= b[j / 2] as int / 16 < 16);
        } else {
            assert(0 <= b[j / 2] as int % 16 < 16);
        }
    }
    assert(is_ascii_chars(t));
    let h = encode_utf8(t);
    assert(h.len() == t.len());
    assert forall|j: int| 0 <= j < h.len() implies #[trigger] hex_value(h[j]) == Some(
        if j % 2 == 0 {
            b[j / 2] as int / 16
        } else {
            b[j / 2] as int % 16
        },
    ) by {
        assert(t[j] as u8 == h[j]);
        if j % 2 == 0 {
            lemma_hex_digit_value(b[j / 2] as int / 16);
        } else {
            lemma_hex_digit_value(b[j / 2] as int % 16);
        }
    }
    let d = hex_decoded(h).unwrap();
    assert(d =~= b) by {
        assert forall|i: int| 0 <= i < b.len() implies d[i] == b[i] by {
            assert(hex_value(h[2 * i]) == Some(b[i] as int / 16)) by {
                assert((2 * i) / 2 == i);
                assert((2 * i) % 2 == 0);
            }
            assert(hex_value(h[2 * i + 1]) == Some(b[i] as int % 16)) by {
                assert((2 * i + 1) / 2 == i);
                assert((2 * i + 1) % 2 == 1);
            }
        }
    }
}

proof fn lemma_decrypt_encrypt(text: Seq<char>, key: Seq<char>, iv: Seq<char>, written: Seq<char>)
    requires
        text.len() > 0,
        aes_cbc_encrypt(encode_utf8(key), encode_utf8(iv), encode_utf8(text)).len() > 0,
        encrypted(text, key, iv) == Ok::<Seq<char>, ()>(written),
        aes_cbc_decrypt(
            encode_utf8(key),
            encode_utf8(iv),
            aes_cbc_encrypt(encode_utf8(key), encode_utf8(iv), encode_utf8(text)),
        ) == Some(encode_utf8(text)),
    ensures
        !decrypts_to_non_text(written, key, iv),
        decrypted(written, key, iv) == Ok::<Seq<char>, DecryptError>(text),
{
    let c = aes_cbc_encrypt(encode_utf8(key), encode_utf8(iv), encode_utf8(text));
    lemma_hex_round_trip(c);
    assert(encode_utf8(written) == encode_utf8(hex_text(c)));
    assert(written.len() > 0) by {
        assert(hex_text(c).len() == 2 * c.len());
        lemma_cipher_not_empty(written, c);
    }
    encode_utf8_valid_utf8(text);
    encode_utf8_decode_utf8(text);
}

proof fn lemma_cipher_not_empty(written: Seq<char>, c: Seq<u8>)
    requires
        written == hex_text(c),
    ensures
        written.len() > 0 || c.len() == 0,
{
}

// ---------------------------------------------------------------------------
// Calls into the outside crates
// ---------------------------------------------------------------------------

/// `cbc::Encryptor::<aes::Aes128>::new(key, iv).encrypt_padded_vec_mut::<Pkcs7>`:
/// the ciphertext is named by `aes_cbc_encrypt`; padding makes it one to
/// sixteen bytes longer than the plaintext, to a whole number of blocks; and
/// decrypting it under the same key and vector gives back the plaintext.
#[verifier::external_body]
fn aes_encrypt(key: &[u8], iv: &[u8], plain: &[u8]) -> (r: Vec<u8>)
    requires
        key@.len() == 16,
        iv@.len() == 16,
    ensures
        r@ == aes_cbc_encrypt(key@, iv@, plain@),
        r@.len() == (plain@.len() / 16 + 1) * 16,
        aes_cbc_decrypt(key@, iv@, r@) == Some(plain@),
{
    cbc::Encryptor::<aes::Aes128>::new(key.into(), iv.into()).encrypt_padded_vec_mut::<Pkcs7>(plain)
}

/// `cbc::Decryptor::<aes::Aes128>::new(key, iv).decrypt_padded_vec_mut::<Pkcs7>`:
/// the plaintext, or `None` where the padding is not valid, is named by
/// `aes_cbc_decrypt`.
#[verifier::external_body]
fn aes_decrypt(key: &[u8], iv: &[u8], cipher: &[u8]) -> (r: Option<Vec<u8>>)
    requires
        key@.len() == 16,
        iv@.len() == 16,
    ensures
        match r {
            Some(p) => aes_cbc_decrypt(key@, iv@, cipher@) == Some(p@),
            None => aes_cbc_decrypt(key@, iv@, cipher@) is None,
        },
{
    match cbc::Decryptor::<aes::Aes128>::new(key.into(), iv.into()).decrypt_padded_vec_mut::<Pkcs7>(
        cipher,
    ) {
        Ok(p) => Some(p),
        Err(_) => None,
    }
}

/// `hex::encode`: two lowercase hexadecimal digits per byte.
#[verifier::external_body]
fn hex_encode(data: &Vec<u8>) -> (r: String)
    ensures
        r@ == hex_text(data@),
{
    hex::encode(data)
}

/// `hex::decode` of the bytes of `text`: `None` for an odd length or a
/// character that is not a hexadecimal digit.
#[verifier::external_body]
fn hex_decode(text: &str) -> (r: Option<Vec<u8>>)
    ensures
        match r {
            Some(b) => hex_decoded(encode_utf8(text@)) == Some(b@),
            None => hex_decoded(encode_utf8(text@)) is None,
        },
{
    match hex::decode(text) {
        Ok(b) => Some(b),
        Err(_) => None,
    }
}

/// `String::from_utf8`: the text that UTF-8 bytes encode, `None` for bytes
/// that are not UTF-8.
#[verifier::external_body]
fn utf8_string(bytes: Vec<u8>) -> (r: Option<String>)
    ensures
        r is Some <==> valid_utf8(bytes@),
        r matches Some(s) ==> s@ == decode_utf8(bytes@),
{
    match String::from_utf8(bytes) {
        Ok(s) => Some(s),
        Err(_) => None,
    }
}

} // verus!
