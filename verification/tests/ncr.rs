use shaysbot::chat::minecraft::{find_encryption as find_one_pass, try_encrypt as encrypt_in_place};
use shaysbot::ncr::{
    choose_reply_encryption, decrypt, default_key, encrypt, find_encryption, key_from_setting, try_encrypt,
    ChatEncryption, EncodingType, EncryptionMode, EncryptionType,
};

const ENCODINGS: [EncodingType; 5] =
    [EncodingType::Base64, EncodingType::Base64r, EncodingType::NewBase64r, EncodingType::MC256, EncodingType::Sus16];

fn all_types() -> Vec<EncryptionType> {
    let mut v = Vec::new();
    for e in ENCODINGS {
        v.push(EncryptionType::CFB(e));
        v.push(EncryptionType::ECB(e));
        v.push(EncryptionType::GCM(e));
    }
    v
}

#[test]
fn default_key_bytes() {
    assert_eq!(default_key(), [110, 87, 235, 158, 0, 43, 147, 119, 33, 27, 172, 51, 157, 195, 153, 228]);
}

#[test]
fn key_setting_falls_back_to_the_default() {
    assert_eq!(key_from_setting(&"AAAAAAAAAAAAAAAAAAAAAA==".to_string()), [0u8; 16]);
    assert_eq!(key_from_setting(&"AQIDBAUGBwgJCgsMDQ4PEA==".to_string()), [1, 2, 3, 4, 5, 6, 7, 8, 9, 10, 11, 12, 13, 14, 15, 16]);
    assert_eq!(key_from_setting(&"AAAA".to_string()), default_key());
    assert_eq!(key_from_setting(&"not base64!".to_string()), default_key());
}

#[test]
fn every_algorithm_decrypts_what_it_encrypts() {
    let key = default_key();
    for e in all_types() {
        let c = encrypt(e, "#%hello world", &key);
        assert_eq!(decrypt(e, &c, &key), Some("#%hello world".to_string()), "{e:?}");
    }
}

#[test]
fn ecb_is_a_function_of_text_and_key() {
    let key = default_key();
    for enc in ENCODINGS {
        let e = EncryptionType::ECB(enc);
        assert_eq!(encrypt(e, "abc", &key), encrypt(e, "abc", &key));
        assert_ne!(encrypt(e, "abc", &key), encrypt(e, "abc", &[0u8; 16]));
    }
}

#[test]
fn plain_text_is_not_recognised() {
    let key = default_key();
    assert_eq!(find_encryption("!pearl home", &key), (None, "!pearl home".to_string()));
    assert_eq!(find_one_pass("", &key), (None, String::new()));
}

#[test]
fn encrypted_text_is_recognised_and_decrypted() {
    let key = default_key();
    // The first two are tried first, so they are found as themselves.
    for e in [EncryptionType::CFB(EncodingType::NewBase64r), EncryptionType::ECB(EncodingType::NewBase64r)] {
        let c = encrypt(e, "#%!seen Alex", &key);
        assert_eq!(find_encryption(&c, &key), (Some(e), "!seen Alex".to_string()), "{e:?}");
        assert_eq!(find_one_pass(&c, &key), find_encryption(&c, &key), "{e:?}");
    }
    // Others may be read by an algorithm tried earlier; what is found decrypts the text.
    for e in [EncryptionType::ECB(EncodingType::Base64r), EncryptionType::ECB(EncodingType::Base64)] {
        let c = encrypt(e, "#%!seen Alex", &key);
        let (found, text) = find_encryption(&c, &key);
        assert_eq!(text, "!seen Alex", "{e:?}");
        assert_eq!(decrypt(found.unwrap(), &c, &key), Some("#%!seen Alex".to_string()), "{e:?}");
        assert_eq!(find_one_pass(&c, &key), (found, text), "{e:?}");
    }
}

#[test]
fn text_without_the_header_is_not_recognised() {
    let key = default_key();
    let e = EncryptionType::ECB(EncodingType::Base64r);
    let c = encrypt(e, "no header", &key);
    assert_eq!(find_encryption(&c, &key), (None, c.clone()));
}

#[test]
fn reply_algorithm_follows_the_mode() {
    let sender = Some(EncryptionType::GCM(EncodingType::Base64));
    assert_eq!(choose_reply_encryption(EncryptionMode::Never, sender), None);
    assert_eq!(choose_reply_encryption(EncryptionMode::OnDemand, sender), sender);
    assert_eq!(choose_reply_encryption(EncryptionMode::Always, sender), sender);
    assert_eq!(choose_reply_encryption(EncryptionMode::OnDemand, None), None);
    assert_eq!(choose_reply_encryption(EncryptionMode::Always, None), Some(EncryptionType::CFB(EncodingType::NewBase64r)));
}

#[test]
fn replies_are_encrypted_behind_the_header() {
    let never = ChatEncryption { key: String::new(), mode: EncryptionMode::Never };
    assert_eq!(try_encrypt(&never, Some(EncryptionType::ECB(EncodingType::Base64)), "hi".to_string()), "hi");
    let on_demand = ChatEncryption { key: String::new(), mode: EncryptionMode::OnDemand };
    assert_eq!(try_encrypt(&on_demand, None, "hi".to_string()), "hi");
    let e = EncryptionType::ECB(EncodingType::Base64);
    assert_eq!(try_encrypt(&on_demand, Some(e), "hi".to_string()), encrypt(e, "#%hi", &default_key()));
    let always = ChatEncryption { key: "AAAAAAAAAAAAAAAAAAAAAA==".to_string(), mode: EncryptionMode::Always };
    let c = try_encrypt(&always, None, "hi".to_string());
    assert_eq!(decrypt(EncryptionType::CFB(EncodingType::NewBase64r), &c, &[0u8; 16]), Some("#%hi".to_string()));
    let mut text = "hi".to_string();
    encrypt_in_place(&mut text, &on_demand, Some(e));
    assert_eq!(text, encrypt(e, "#%hi", &default_key()));
}

#[test]
fn always_mode_replies_are_read_back() {
    let always = ChatEncryption { key: String::new(), mode: EncryptionMode::Always };
    for text in ["hi", "", "!pearl home base", "ünïcode"] {
        let c = try_encrypt(&always, None, text.to_string());
        assert_eq!(find_encryption(&c, &default_key()), (Some(EncryptionType::CFB(EncodingType::NewBase64r)), text.to_string()));
        assert_eq!(find_one_pass(&c, &default_key()), (Some(EncryptionType::CFB(EncodingType::NewBase64r)), text.to_string()));
    }
}

#[test]
fn on_demand_replies_decrypt_with_the_senders_algorithm() {
    let on_demand = ChatEncryption { key: "AAAAAAAAAAAAAAAAAAAAAA==".to_string(), mode: EncryptionMode::OnDemand };
    for e in all_types() {
        let c = try_encrypt(&on_demand, Some(e), "reply".to_string());
        assert_eq!(decrypt(e, &c, &[0u8; 16]), Some("#%reply".to_string()), "{e:?}");
    }
}
