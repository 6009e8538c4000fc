use review::auth::keys::{
    get_keys_to_check, load_private_key, sign_token_with_keys, signing_key_index, KeyError, KeyFiles,
    KeySignature, SshPrivateKey,
};
use review::auth::{
    find_authorized_key, get_authorized_key_matching_signature, AuthError, AuthentificationToken,
    KeyMatch, Signatures, SshSignature, SIGNATURE_NAMESPACE, TOKEN_LENGTH,
};
use ssh_encoding::Encode;
use ssh_key::private::Ed25519Keypair;
use ssh_key::{HashAlg, LineEnding, PrivateKey};

/// An Ed25519 key derived from a fixed seed.
fn example_key_with_seed(seed: u8) -> PrivateKey {
    PrivateKey::from(Ed25519Keypair::from_seed(&[seed; 32]))
}

fn example_key() -> PrivateKey {
    example_key_with_seed(7)
}

/// The OpenSSH text of a key.
fn openssh_text(key: &PrivateKey) -> String {
    key.to_openssh(LineEnding::LF).unwrap().to_string()
}

/// A signature made by `ssh_key` directly, as the library holds it.
fn sign(key: &PrivateKey, namespace: &str, token: &[u8]) -> SshSignature {
    let signature = key.sign(namespace, HashAlg::Sha512, token).unwrap();
    let mut encoded = Vec::new();
    signature.encode(&mut encoded).unwrap();
    SshSignature::decode(encoded).unwrap()
}

fn public_key_bytes(key: &PrivateKey) -> Vec<u8> {
    key.public_key().to_bytes().unwrap()
}

#[test]
fn token_has_fixed_length() {
    let a = AuthentificationToken::generate();
    let b = AuthentificationToken::generate();
    assert_eq!(a.token.len(), TOKEN_LENGTH);
    assert_eq!(b.token.len(), 128);
    assert_ne!(a.token, b.token);
}

#[test]
fn signatures_encode_and_decode() {
    let key = example_key();
    let token = vec![7u8; 128];
    let signature = sign(&key, SIGNATURE_NAMESPACE, &token);
    let encoded = Signatures::try_from(&vec![signature.clone(), signature.clone()]).unwrap();
    assert_eq!(encoded.encoded_signatures.len(), 2);
    assert!(encoded.encoded_signatures[0].starts_with(b"SSHSIG"));
    assert_eq!(encoded.encoded_signatures[1], signature.encoded().to_vec());
    let decoded = encoded.try_into().unwrap();
    assert_eq!(decoded, vec![signature.clone(), signature]);
}

#[test]
fn bytes_that_are_no_signature_do_not_decode() {
    assert_eq!(SshSignature::decode(vec![1, 2, 3]), None);
    assert_eq!(SshSignature::decode(Vec::new()), None);
}

#[test]
fn undecodable_signature_is_refused() {
    let signatures = Signatures { encoded_signatures: vec![vec![1, 2, 3]] };
    assert_eq!(signatures.clone().try_into().unwrap_err(), AuthError::SignatureDecoding);
    let key = example_key();
    assert_eq!(
        find_authorized_key(&vec![0u8; 128], &signatures, &vec![public_key_bytes(&key)]),
        Err(AuthError::SignatureDecoding)
    );
}

#[test]
fn first_verified_signature_is_chosen() {
    let key = example_key();
    let token = vec![42u8; 128];
    let other_token = vec![43u8; 128];
    let signatures = Signatures::try_from(&vec![
        sign(&key, SIGNATURE_NAMESPACE, &other_token),
        sign(&key, "elsewhere", &token),
        sign(&key, SIGNATURE_NAMESPACE, &token),
    ])
    .unwrap();
    let unrelated_key = vec![0u8, 0, 0, 11, b's', b's', b'h', b'-', b'e', b'd'];
    let keys = vec![unrelated_key, public_key_bytes(&key)];
    assert_eq!(
        find_authorized_key(&token, &signatures, &keys),
        Ok(KeyMatch { signature_index: 2, key_index: 1 })
    );
    assert_eq!(
        get_authorized_key_matching_signature(&token, &signatures.encoded_signatures[2], &keys),
        Some(1)
    );
    assert_eq!(
        get_authorized_key_matching_signature(&token, &signatures.encoded_signatures[0], &keys),
        None
    );
}

#[test]
fn no_authorized_key_is_refused() {
    let key = example_key();
    let token = vec![1u8; 128];
    let signatures = Signatures::try_from(&vec![sign(&key, SIGNATURE_NAMESPACE, &token)]).unwrap();
    assert_eq!(find_authorized_key(&token, &signatures, &Vec::new()), Err(AuthError::NoAuthorizedKey));
    assert_eq!(
        find_authorized_key(&vec![2u8; 128], &signatures, &vec![public_key_bytes(&key)]),
        Err(AuthError::NoAuthorizedKey)
    );
    let empty = Signatures { encoded_signatures: Vec::new() };
    assert_eq!(
        find_authorized_key(&token, &empty, &vec![public_key_bytes(&key)]),
        Err(AuthError::NoAuthorizedKey)
    );
}

#[test]
fn every_key_signs_the_token() {
    let key = example_key();
    let other = example_key_with_seed(8);
    let keys = vec![
        load_private_key(&openssh_text(&key)).unwrap(),
        load_private_key(&openssh_text(&other)).unwrap(),
    ];
    let token = vec![9u8; 128];
    let made = sign_token_with_keys(&keys, &token).unwrap();
    assert_eq!(made.len(), 2);
    assert_eq!(made[0].key_index, 0);
    assert_eq!(made[1].key_index, 1);
    assert_eq!(made[0].signature, sign(&key, SIGNATURE_NAMESPACE, &token));
    assert_eq!(made[1].signature, sign(&other, SIGNATURE_NAMESPACE, &token));
    let signatures = Signatures::try_from(&vec![made[0].signature.clone(), made[1].signature.clone()])
        .unwrap();
    assert_eq!(
        find_authorized_key(&token, &signatures, &vec![public_key_bytes(&other)]),
        Ok(KeyMatch { signature_index: 1, key_index: 0 })
    );
    assert_eq!(sign_token_with_keys(&Vec::new(), &token), Err(AuthError::NoSigningKey));
}

#[test]
fn authorized_signature_names_its_key() {
    let key = example_key();
    let signature = sign(&key, SIGNATURE_NAMESPACE, &[1]);
    let made = vec![
        KeySignature { key_index: 0, signature: signature.clone() },
        KeySignature { key_index: 2, signature },
    ];
    assert_eq!(signing_key_index(&made, 1), Some(2));
    assert_eq!(signing_key_index(&made, 0), Some(0));
    assert_eq!(signing_key_index(&made, 2), None);
}

#[test]
fn private_keys_are_read_from_openssh_text() {
    let key = example_key();
    let text = openssh_text(&key);
    let loaded: SshPrivateKey = load_private_key(&text).unwrap();
    assert_eq!(loaded.openssh(), text.as_str());
    assert_eq!(load_private_key("not a key"), Err(KeyError::InvalidKey));
    assert_eq!(load_private_key(""), Err(KeyError::InvalidKey));
}

#[test]
fn explicit_key_file_is_the_only_key() {
    let text = openssh_text(&example_key());
    let keys = get_keys_to_check(&KeyFiles::Explicit(Some(text.clone()))).unwrap();
    assert_eq!(keys.len(), 1);
    assert_eq!(keys[0].openssh(), text.as_str());
    assert_eq!(
        get_keys_to_check(&KeyFiles::Explicit(Some("ssh-ed25519 AAAA".to_string()))),
        Err(KeyError::InvalidKey)
    );
    assert_eq!(get_keys_to_check(&KeyFiles::Explicit(None)), Err(KeyError::ExplicitKeyUnreadable));
}

#[test]
fn directory_keys_are_the_files_that_parse() {
    let first = openssh_text(&example_key());
    let second = openssh_text(&example_key_with_seed(3));
    let files = KeyFiles::Directory(vec![
        Some("known hosts".to_string()),
        Some(first.clone()),
        None,
        Some(String::new()),
        Some(second.clone()),
    ]);
    let keys = get_keys_to_check(&files).unwrap();
    assert_eq!(keys.len(), 2);
    assert_eq!(keys[0].openssh(), first.as_str());
    assert_eq!(keys[1].openssh(), second.as_str());
    assert_eq!(get_keys_to_check(&KeyFiles::Directory(Vec::new())), Ok(Vec::new()));
}
