//! No Chat Reports chat encryption: recognising which algorithm a message was sent with,
//! and answering with the same one.
use vstd::prelude::*;
use ncr::encoding::{Base64Encoding, Base64rEncoding, Mc256Encoding, NewBase64rEncoding, Sus16Encoding};
use ncr::encryption::{Cfb8Encryption, EcbEncryption, Encryption, GcmEncryption};
use ncr::AesKey;

verus! {

/// The text encodings of No Chat Reports.
#[derive(Clone, Copy, PartialEq, Eq, Structural, Debug)]
pub enum EncodingType {
    Base64,
    Base64r,
    NewBase64r,
    MC256,
    Sus16,
}

/// An encryption algorithm together with the encoding of its output.
#[derive(Clone, Copy, PartialEq, Eq, Structural, Debug)]
pub enum EncryptionType {
    CFB(EncodingType),
    ECB(EncodingType),
    GCM(EncodingType),
}

/// When replies are encrypted.
#[derive(Clone, Copy, PartialEq, Eq, Structural, Debug)]
pub enum EncryptionMode {
    /// Always, with AES/CFB8 and the new Base64r encoding when the sender did not encrypt.
    Always,
    /// Only when the sender's message was encrypted, with the sender's algorithm.
    OnDemand,
    /// Never.
    Never,
}

/// The chat encryption settings: a Base64 key and the mode.
pub struct ChatEncryption {
    pub key: String,
    pub mode: EncryptionMode,
}

/// The text an optional string holds.
pub open spec fn opt_view(o: Option<String>) -> Option<Seq<char>> {
    match o {
        Some(s) => Some(s@),
        None => None,
    }
}

/// The bytes an optional key holds.
pub open spec fn opt_bytes(o: Option<[u8; 16]>) -> Option<Seq<u8>> {
    match o {
        Some(k) => Some(k@),
        None => None,
    }
}

/// What `Cfb8Encryption::<E>::decrypt` gives for a ciphertext and a key.
pub uninterp spec fn ncr_cfb8_decrypt(encoding: EncodingType, ciphertext: Seq<char>, key: Seq<u8>) -> Option<Seq<char>>;

/// What `EcbEncryption::<E>::decrypt` gives for a ciphertext and a key.
pub uninterp spec fn ncr_ecb_decrypt(encoding: EncodingType, ciphertext: Seq<char>, key: Seq<u8>) -> Option<Seq<char>>;

/// What `GcmEncryption::<E>::decrypt` gives for a ciphertext and a key.
pub uninterp spec fn ncr_gcm_decrypt(encoding: EncodingType, ciphertext: Seq<char>, key: Seq<u8>) -> Option<Seq<char>>;

/// What `EcbEncryption::<E>::encrypt` gives for a plaintext and a key.
pub uninterp spec fn ncr_ecb_encrypt(encoding: EncodingType, plaintext: Seq<char>, key: Seq<u8>) -> Seq<char>;

/// The 128-bit key that `AesKey::decode_base64` reads from a text, if it reads one.
pub uninterp spec fn ncr_key_from_base64(text: Seq<char>) -> Option<Seq<u8>>;

/// Calls `ncr::encryption::Cfb8Encryption::<E>::decrypt` for the encoding `E`; the contract
/// names its result (an error becomes `None`). Decryption reads the nonce from the text and is
/// a function of the ciphertext and the key.
#[verifier::external_body]
fn cfb8_decrypt(encoding: EncodingType, ciphertext: &str, key: &[u8; 16]) -> (r: Option<String>)
    ensures
        opt_view(r) == ncr_cfb8_decrypt(encoding, ciphertext@, key@),
{
    let key = AesKey::from(*key);
    match encoding {
        EncodingType::Base64 => Cfb8Encryption::<Base64Encoding>::decrypt(ciphertext, &key).ok(),
        EncodingType::Base64r => Cfb8Encryption::<Base64rEncoding>::decrypt(ciphertext, &key).ok(),
        EncodingType::NewBase64r => Cfb8Encryption::<NewBase64rEncoding>::decrypt(ciphertext, &key).ok(),
        EncodingType::MC256 => Cfb8Encryption::<Mc256Encoding>::decrypt(ciphertext, &key).ok(),
        EncodingType::Sus16 => Cfb8Encryption::<Sus16Encoding>::decrypt(ciphertext, &key).ok(),
    }
}

/// Calls `ncr::encryption::EcbEncryption::<E>::decrypt`; the contract names its result.
#[verifier::external_body]
fn ecb_decrypt(encoding: EncodingType, ciphertext: &str, key: &[u8; 16]) -> (r: Option<String>)
    ensures
        opt_view(r) == ncr_ecb_decrypt(encoding, ciphertext@, key@),
{
    let key = AesKey::from(*key);
    match encoding {
        EncodingType::Base64 => EcbEncryption::<Base64Encoding>::decrypt(ciphertext, &key).ok(),
        EncodingType::Base64r => EcbEncryption::<Base64rEncoding>::decrypt(ciphertext, &key).ok(),
        EncodingType::NewBase64r => EcbEncryption::<NewBase64rEncoding>::decrypt(ciphertext, &key).ok(),
        EncodingType::MC256 => EcbEncryption::<Mc256Encoding>::decrypt(ciphertext, &key).ok(),
        EncodingType::Sus16 => EcbEncryption::<Sus16Encoding>::decrypt(ciphertext, &key).ok(),
    }
}

/// Calls `ncr::encryption::GcmEncryption::<E>::decrypt`; the contract names its result. The
/// nonce and tag are read from the text, so the result is a function of ciphertext and key.
#[verifier::external_body]
fn gcm_decrypt(encoding: EncodingType, ciphertext: &str, key: &[u8; 16]) -> (r: Option<String>)
    ensures
        opt_view(r) == ncr_gcm_decrypt(encoding, ciphertext@, key@),
{
    let key = AesKey::from(*key);
    match encoding {
        EncodingType::Base64 => GcmEncryption::<Base64Encoding>::decrypt(ciphertext, &key).ok(),
        EncodingType::Base64r => GcmEncryption::<Base64rEncoding>::decrypt(ciphertext, &key).ok(),
        EncodingType::NewBase64r => GcmEncryption::<NewBase64rEncoding>::decrypt(ciphertext, &key).ok(),
        EncodingType::MC256 => GcmEncryption::<Mc256Encoding>::decrypt(ciphertext, &key).ok(),
        EncodingType::Sus16 => GcmEncryption::<Sus16Encoding>::decrypt(ciphertext, &key).ok(),
    }
}

/// Calls `ncr::encryption::Cfb8Encryption::<E>::encrypt`, which cannot fail. Its output is a
/// nonce drawn from `rand::thread_rng` followed by the AES/CFB8 encryption, encoded; whatever
/// the nonce, `decrypt` reads the nonce back and gives the plaintext.
#[verifier::external_body]
fn cfb8_encrypt(encoding: EncodingType, plaintext: &str, key: &[u8; 16]) -> (r: String)
    ensures
        ncr_cfb8_decrypt(encoding, r@, key@) == Some(plaintext@),
{
    let key = AesKey::from(*key);
    let r = match encoding {
        EncodingType::Base64 => Cfb8Encryption::<Base64Encoding>::encrypt(plaintext, &key),
        EncodingType::Base64r => Cfb8Encryption::<Base64rEncoding>::encrypt(plaintext, &key),
        EncodingType::NewBase64r => Cfb8Encryption::<NewBase64rEncoding>::encrypt(plaintext, &key),
        EncodingType::MC256 => Cfb8Encryption::<Mc256Encoding>::encrypt(plaintext, &key),
        EncodingType::Sus16 => Cfb8Encryption::<Sus16Encoding>::encrypt(plaintext, &key),
    };
    match r { Ok(c) => c, Err(e) => match e {} }
}

/// Calls `ncr::encryption::EcbEncryption::<E>::encrypt`, which cannot fail and uses no
/// randomness; the contract names its result, which `decrypt` turns back into the plaintext.
#[verifier::external_body]
fn ecb_encrypt(encoding: EncodingType, plaintext: &str, key: &[u8; 16]) -> (r: String)
    ensures
        r@ == ncr_ecb_encrypt(encoding, plaintext@, key@),
        ncr_ecb_decrypt(encoding, r@, key@) == Some(plaintext@),
{
    let key = AesKey::from(*key);
    let r = match encoding {
        EncodingType::Base64 => EcbEncryption::<Base64Encoding>::encrypt(plaintext, &key),
        EncodingType::Base64r => EcbEncryption::<Base64rEncoding>::encrypt(plaintext, &key),
        EncodingType::NewBase64r => EcbEncryption::<NewBase64rEncoding>::encrypt(plaintext, &key),
        EncodingType::MC256 => EcbEncryption::<Mc256Encoding>::encrypt(plaintext, &key),
        EncodingType::Sus16 => EcbEncryption::<Sus16Encoding>::encrypt(plaintext, &key),
    };
    match r { Ok(c) => c, Err(e) => match e {} }
}

/// Calls `ncr::encryption::GcmEncryption::<E>::encrypt`, which cannot fail. Its output is an
/// IV drawn from `rand::thread_rng`, the AES/GCM encryption and its tag, encoded; whatever the
/// IV, `decrypt` reads it back and gives the plaintext.
#[verifier::external_body]
fn gcm_encrypt(encoding: EncodingType, plaintext: &str, key: &[u8; 16]) -> (r: String)
    ensures
        ncr_gcm_decrypt(encoding, r@, key@) == Some(plaintext@),
{
    let key = AesKey::from(*key);
    let r = match encoding {
        EncodingType::Base64 => GcmEncryption::<Base64Encoding>::encrypt(plaintext, &key),
        EncodingType::Base64r => GcmEncryption::<Base64rEncoding>::encrypt(plaintext, &key),
        EncodingType::NewBase64r => GcmEncryption::<NewBase64rEncoding>::encrypt(plaintext, &key),
        EncodingType::MC256 => GcmEncryption::<Mc256Encoding>::encrypt(plaintext, &key),
        EncodingType::Sus16 => GcmEncryption::<Sus16Encoding>::encrypt(plaintext, &key),
    };
    match r { Ok(c) => c, Err(e) => match e {} }
}

/// Calls `ncr::utils::trim_header`, which removes a leading `#%` and fails without one.
#[verifier::external_body]
fn trim_header(text: &str) -> (r: Option<String>)
    ensures
        r is Some <==> (text@.len() >= 2 && text@[0] == '#' && text@[1] == '%'),
        r matches Some(t) ==> t@ == text@.skip(2),
{
    match ncr::utils::trim_header(text) {
        Ok(t) => Some(t.to_owned()),
        Err(_) => None,
    }
}

/// Calls `ncr::utils::prepend_header`, which puts `#%` before the text.
#[verifier::external_body]
fn prepend_header(text: &str) -> (r: String)
    ensures
        r@ == seq!['#', '%'] + text@,
{
    ncr::utils::prepend_header(text)
}

/// Calls `ncr::AesKey::decode_base64`, which reads standard Base64 and keeps the result only
/// when it is 16 bytes long; the contract names the key read.
#[verifier::external_body]
fn decode_key(text: &String) -> (r: Option<[u8; 16]>)
    ensures
        opt_bytes(r) == ncr_key_from_base64(text@),
        r matches Some(k) ==> k@.len() == 16,
{
    match AesKey::decode_base64(text) {
        Ok(k) => Some(k.key()),
        Err(_) => None,
    }
}

/// The built-in key, used when the configured one cannot be read.
pub open spec fn default_key_bytes() -> Seq<u8> {
    seq![110u8, 87, 235, 158, 0, 43, 147, 119, 33, 27, 172, 51, 157, 195, 153, 228]
}

/// The built-in key.
pub fn default_key() -> (k: [u8; 16])
    ensures
        k@ == default_key_bytes(),
{
    let k: [u8; 16] = [110, 87, 235, 158, 0, 43, 147, 119, 33, 27, 172, 51, 157, 195, 153, 228];
    assert(k@ =~= default_key_bytes());
    k
}

/// The key a setting stands for: the one it decodes to, else the built-in key.
pub open spec fn key_of(setting: Seq<char>) -> Seq<u8> {
    match ncr_key_from_base64(setting) {
        Some(k) => k,
        None => default_key_bytes(),
    }
}

/// Reads the configured key, falling back to the built-in one.
pub fn key_from_setting(setting: &String) -> (k: [u8; 16])
    ensures
        k@ == key_of(setting@),
{
    match decode_key(setting) {
        Some(k) => k,
        None => default_key(),
    }
}

/// What decrypting with an algorithm gives.
pub open spec fn decrypt_with(e: EncryptionType, ciphertext: Seq<char>, key: Seq<u8>) -> Option<Seq<char>> {
    match e {
        EncryptionType::CFB(enc) => ncr_cfb8_decrypt(enc, ciphertext, key),
        EncryptionType::ECB(enc) => ncr_ecb_decrypt(enc, ciphertext, key),
        EncryptionType::GCM(enc) => ncr_gcm_decrypt(enc, ciphertext, key),
    }
}

/// Decrypts with an algorithm.
pub fn decrypt(e: EncryptionType, ciphertext: &str, key: &[u8; 16]) -> (r: Option<String>)
    ensures
        opt_view(r) == decrypt_with(e, ciphertext@, key@),
{
    match e {
        EncryptionType::CFB(enc) => cfb8_decrypt(enc, ciphertext, key),
        EncryptionType::ECB(enc) => ecb_decrypt(enc, ciphertext, key),
        EncryptionType::GCM(enc) => gcm_decrypt(enc, ciphertext, key),
    }
}

/// Encrypts with an algorithm: the same algorithm decrypts the result back to the plaintext.
/// Only the ECB result is a function of its arguments; CFB8 and GCM draw a random nonce.
pub fn encrypt(e: EncryptionType, plaintext: &str, key: &[u8; 16]) -> (r: String)
    ensures
        decrypt_with(e, r@, key@) == Some(plaintext@),
        e matches EncryptionType::ECB(enc) ==> r@ == ncr_ecb_encrypt(enc, plaintext@, key@),
{
    match e {
        EncryptionType::CFB(enc) => cfb8_encrypt(enc, plaintext, key),
        EncryptionType::ECB(enc) => ecb_encrypt(enc, plaintext, key),
        EncryptionType::GCM(enc) => gcm_encrypt(enc, plaintext, key),
    }
}

/// Whether a decryption starts with the `#%` header that marks an NCR message.
pub open spec fn has_header(p: Seq<char>) -> bool {
    p.len() >= 2 && p[0] == '#' && p[1] == '%'
}

/// Whether `e` decrypts the text to a message with the header.
pub open spec fn recognises(e: EncryptionType, ciphertext: Seq<char>, key: Seq<u8>) -> bool {
    decrypt_with(e, ciphertext, key) matches Some(p) && has_header(p)
}

/// Tries the candidates in order: the first that recognises the text, with the decrypted
/// message after its header; or no algorithm and the text unchanged.
pub open spec fn find_in(cands: Seq<EncryptionType>, text: Seq<char>, key: Seq<u8>) -> (Option<EncryptionType>, Seq<char>)
    decreases cands.len(),
{
    if cands.len() == 0 {
        (None, text)
    } else if recognises(cands[0], text, key) {
        (Some(cands[0]), decrypt_with(cands[0], text, key).unwrap().skip(2))
    } else {
        find_in(cands.skip(1), text, key)
    }
}

/// CFB8, ECB and GCM with one encoding.
pub open spec fn modes_with(enc: EncodingType) -> Seq<EncryptionType> {
    seq![EncryptionType::CFB(enc), EncryptionType::ECB(enc), EncryptionType::GCM(enc)]
}

/// The candidates tried for one pass over the encodings `NewBase64r`, `Base64r`, `Base64`.
pub open spec fn one_pass() -> Seq<EncryptionType> {
    modes_with(EncodingType::NewBase64r) + modes_with(EncodingType::Base64r) + modes_with(EncodingType::Base64)
}

/// The candidates this module tries: its encoder list holds the three encodings three times.
pub open spec fn candidates() -> Seq<EncryptionType> {
    one_pass() + one_pass() + one_pass()
}

fn push_modes(v: &mut Vec<EncryptionType>, enc: EncodingType)
    ensures
        final(v)@ == old(v)@ + modes_with(enc),
{
    v.push(EncryptionType::CFB(enc));
    v.push(EncryptionType::ECB(enc));
    v.push(EncryptionType::GCM(enc));
    assert(v@ =~= old(v)@ + modes_with(enc));
}

/// The candidates for `passes` passes over the three encodings.
pub(crate) fn candidate_list(passes: usize) -> (v: Vec<EncryptionType>)
    requires
        1 <= passes <= 3,
    ensures
        passes == 1 ==> v@ == one_pass(),
        passes == 3 ==> v@ == candidates(),
{
    let mut v: Vec<EncryptionType> = Vec::new();
    let mut i: usize = 0;
    while i < passes
        invariant
            i <= passes <= 3,
            i == 0 ==> v@ == Seq::<EncryptionType>::empty(),
            i == 1 ==> v@ == one_pass(),
            i == 2 ==> v@ == one_pass() + one_pass(),
            i == 3 ==> v@ == candidates(),
        decreases passes - i,
    {
        let ghost before = v@;
        push_modes(&mut v, EncodingType::NewBase64r);
        push_modes(&mut v, EncodingType::Base64r);
        push_modes(&mut v, EncodingType::Base64);
        assert(v@ =~= before + one_pass());
        i = i + 1;
    }
    v
}

/// Finds the first candidate that recognises the text.
pub(crate) fn find_among(cands: &Vec<EncryptionType>, text: &str, key: &[u8; 16]) -> (r: (Option<EncryptionType>, String))
    ensures
        (r.0, r.1@) == find_in(cands@, text@, key@),
{
    let mut i: usize = 0;
    assert(cands@.skip(0) =~= cands@);
    while i < cands.len()
        invariant
            i <= cands.len(),
            find_in(cands@.skip(i as int), text@, key@) == find_in(cands@, text@, key@),
        decreases cands.len() - i,
    {
        let e = cands[i];
        assert(cands@.skip(i as int)[0] == e);
        assert(cands@.skip(i as int).skip(1) =~= cands@.skip(i + 1));
        if let Some(plain) = decrypt(e, text, key) {
            if let Some(trimmed) = trim_header(plain.as_str()) {
                return (Some(e), trimmed);
            }
        }
        i = i + 1;
    }
    assert(cands@.skip(i as int) =~= Seq::<EncryptionType>::empty());
    (None, text.to_string())
}

proof fn lemma_find_in_append(a: Seq<EncryptionType>, b: Seq<EncryptionType>, text: Seq<char>, key: Seq<u8>)
    ensures
        find_in(a + b, text, key) == (if find_in(a, text, key).0 is Some { find_in(a, text, key) } else { find_in(b, text, key) }),
    decreases a.len(),
{
    if a.len() > 0 {
        assert((a + b)[0] == a[0]);
        assert((a + b).skip(1) =~= a.skip(1) + b);
        lemma_find_in_append(a.skip(1), b, text, key);
    } else {
        assert(a + b =~= b);
    }
}

/// Law: trying the encodings three times over finds what trying them once finds, since a
/// candidate that failed once fails again.
pub proof fn lemma_repeated_passes_agree(text: Seq<char>, key: Seq<u8>)
    ensures
        find_in(candidates(), text, key) == find_in(one_pass(), text, key),
{
    let p = one_pass();
    lemma_find_in_append(p + p, p, text, key);
    lemma_find_in_append(p, p, text, key);
}

/// Law: a reply encrypted as the `Always` mode encrypts one that did not come encrypted
/// (CFB8, new Base64r, behind the `#%` header) is recognised as such and read back to the
/// text, in one pass over the encodings or three.
pub proof fn lemma_always_replies_read_back(c: Seq<char>, key: Seq<u8>, text: Seq<char>)
    requires
        decrypt_with(EncryptionType::CFB(EncodingType::NewBase64r), c, key) == Some(seq!['#', '%'] + text),
    ensures
        find_in(one_pass(), c, key) == (Some(EncryptionType::CFB(EncodingType::NewBase64r)), text),
        find_in(candidates(), c, key) == (Some(EncryptionType::CFB(EncodingType::NewBase64r)), text),
{
    let e = EncryptionType::CFB(EncodingType::NewBase64r);
    assert(one_pass()[0] == e);
    assert((seq!['#', '%'] + text).skip(2) =~= text);
    lemma_repeated_passes_agree(c, key);
}

/// Finds the algorithm a chat message was encrypted with and decrypts it; a message that no
/// algorithm recognises comes back unchanged with no algorithm.
pub fn find_encryption(ciphertext: &str, key: &[u8; 16]) -> (r: (Option<EncryptionType>, String))
    ensures
        (r.0, r.1@) == find_in(candidates(), ciphertext@, key@),
{
    let cands = candidate_list(3);
    find_among(&cands, ciphertext, key)
}

/// The algorithm a reply is encrypted with: none when encryption is off, the sender's when
/// the sender encrypted, CFB8 with the new Base64r encoding when it is always on.
pub open spec fn reply_encryption(mode: EncryptionMode, sender: Option<EncryptionType>) -> Option<EncryptionType> {
    if mode == EncryptionMode::Never {
        None
    } else if sender is Some {
        sender
    } else if mode == EncryptionMode::Always {
        Some(EncryptionType::CFB(EncodingType::NewBase64r))
    } else {
        None
    }
}

/// Chooses the algorithm a reply is encrypted with.
pub fn choose_reply_encryption(mode: EncryptionMode, sender: Option<EncryptionType>) -> (r: Option<EncryptionType>)
    ensures
        r == reply_encryption(mode, sender),
{
    if mode == EncryptionMode::Never {
        None
    } else if sender.is_some() {
        sender
    } else if mode == EncryptionMode::Always {
        Some(EncryptionType::CFB(EncodingType::NewBase64r))
    } else {
        None
    }
}

/// Encrypts a reply as the settings and the sender's algorithm ask: the text comes back
/// unchanged when no algorithm applies, else it is the chosen algorithm's encryption of the
/// text behind the `#%` header, under the configured key.
pub fn try_encrypt(chat_encryption: &ChatEncryption, type_encryption: Option<EncryptionType>, plaintext: String) -> (r: String)
    ensures
        reply_encryption(chat_encryption.mode, type_encryption) is None ==> r@ == plaintext@,
        reply_encryption(chat_encryption.mode, type_encryption) matches Some(e)
            ==> decrypt_with(e, r@, key_of(chat_encryption.key@)) == Some(seq!['#', '%'] + plaintext@),
        reply_encryption(chat_encryption.mode, type_encryption) matches Some(EncryptionType::ECB(enc))
            ==> r@ == ncr_ecb_encrypt(enc, seq!['#', '%'] + plaintext@, key_of(chat_encryption.key@)),
{
    match choose_reply_encryption(chat_encryption.mode, type_encryption) {
        None => plaintext,
        Some(e) => {
            let key = key_from_setting(&chat_encryption.key);
            let text = prepend_header(plaintext.as_str());
            encrypt(e, text.as_str(), &key)
        },
    }
}

} // verus!
