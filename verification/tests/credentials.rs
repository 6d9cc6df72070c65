use image_build::credential::{
    credential_from_bytes, credential_from_token, split_credential, CredentialError, DecodeFailure,
    RegistryCredential,
};
use image_build::region::resolve_region;

fn credential(username: &str, password: &str) -> RegistryCredential {
    RegistryCredential { username: username.to_string(), password: password.to_string() }
}

fn encode(text: &[u8]) -> String {
    base64::Engine::encode(&base64::prelude::BASE64_STANDARD, text)
}

#[test]
fn token_of_user_and_pass() {
    assert_eq!(encode(b"user:pass"), "dXNlcjpwYXNz");
    assert_eq!(credential_from_token(Some("dXNlcjpwYXNz")), Ok(credential("user", "pass")));
}

#[test]
fn token_without_colon_fails() {
    assert_eq!(encode(b"userpass"), "dXNlcnBhc3M=");
    assert_eq!(credential_from_token(Some("dXNlcnBhc3M=")), Err(CredentialError::MissingSeparator));
    assert_eq!(credential_from_token(Some("")), Err(CredentialError::MissingSeparator));
}

#[test]
fn password_may_hold_colons() {
    let token = encode(b"AWS:abc:def::ghi");
    assert_eq!(credential_from_token(Some(&token)), Ok(credential("AWS", "abc:def::ghi")));
    assert_eq!(split_credential("a:b:c"), Ok(credential("a", "b:c")));
    assert_eq!(split_credential("a::"), Ok(credential("a", ":")));
}

#[test]
fn missing_token_fails() {
    assert_eq!(credential_from_token(None), Err(CredentialError::MissingToken));
}

#[test]
fn token_that_is_not_base64_fails_with_the_cause() {
    assert_eq!(
        credential_from_token(Some("dXNl!jpwYXNz")),
        Err(CredentialError::InvalidEncoding {
            cause: DecodeFailure::InvalidByte { offset: 4, byte: b'!' }
        })
    );
    assert_eq!(
        credential_from_token(Some("dXNlcnBhc3M")),
        Err(CredentialError::InvalidEncoding { cause: DecodeFailure::InvalidPadding })
    );
    assert_eq!(
        credential_from_token(Some("dXNlcjpwYXNzd")),
        Err(CredentialError::InvalidEncoding { cause: DecodeFailure::InvalidLength { length: 13 } })
    );
    assert_eq!(
        credential_from_token(Some("dXNlcjpwYXNzdB==")),
        Err(CredentialError::InvalidEncoding {
            cause: DecodeFailure::InvalidLastSymbol { offset: 13, byte: b'B' }
        })
    );
}

#[test]
fn token_that_is_not_text_fails() {
    let token = encode(&[0x75, 0x3a, 0xff, 0xfe]);
    assert_eq!(credential_from_token(Some(&token)), Err(CredentialError::InvalidText));
    assert_eq!(credential_from_bytes(vec![0xc3, 0x28, b':', b'x']), Err(CredentialError::InvalidText));
    assert_eq!(credential_from_bytes(vec![b'u', b':', 0xe2, 0x82]), Err(CredentialError::InvalidText));
}

#[test]
fn credential_is_never_partial() {
    assert_eq!(split_credential(":pass"), Err(CredentialError::EmptyUsername));
    assert_eq!(split_credential("user:"), Err(CredentialError::EmptyPassword));
    assert_eq!(split_credential(":"), Err(CredentialError::EmptyUsername));
    assert_eq!(split_credential("::"), Err(CredentialError::EmptyUsername));
    assert_eq!(split_credential(""), Err(CredentialError::MissingSeparator));
    assert_eq!(split_credential("user"), Err(CredentialError::MissingSeparator));
    assert_eq!(credential_from_token(Some(&encode(b"user:"))), Err(CredentialError::EmptyPassword));
    assert_eq!(credential_from_token(Some(&encode(b":pass"))), Err(CredentialError::EmptyUsername));
}

#[test]
fn credential_from_bytes_reads_text() {
    assert_eq!(credential_from_bytes(b"user:pass".to_vec()), Ok(credential("user", "pass")));
    assert_eq!(credential_from_bytes(Vec::new()), Err(CredentialError::MissingSeparator));
}

#[test]
fn characters_of_more_than_one_byte_are_kept_whole() {
    let text = "b\u{fc}rger\u{1f511}:p\u{e4}ss:w\u{f6}rt\u{20ac}";
    assert_eq!(split_credential(text), Ok(credential("b\u{fc}rger\u{1f511}", "p\u{e4}ss:w\u{f6}rt\u{20ac}")));
    assert_eq!(
        credential_from_token(Some(&encode(text.as_bytes()))),
        Ok(credential("b\u{fc}rger\u{1f511}", "p\u{e4}ss:w\u{f6}rt\u{20ac}"))
    );
    assert_eq!(split_credential("\u{ff1a}x"), Err(CredentialError::MissingSeparator));
}

#[test]
fn joined_credentials_split_again() {
    let users = ["u", "AWS", "user name", "\u{e9}"];
    let passwords = ["p", "a:b", ":", "::x::", "eyJwYXlsb2FkIjoi", " "];
    for user in users {
        for password in passwords {
            let text = format!("{}:{}", user, password);
            assert_eq!(split_credential(&text), Ok(credential(user, password)));
        }
    }
}

#[test]
fn hint_comes_before_the_providers() {
    let provided = vec![Some("eu-west-1".to_string())];
    assert_eq!(resolve_region(Some("ap-south-1"), &provided), "ap-south-1");
}

#[test]
fn first_provider_that_names_a_region_wins() {
    let provided = vec![None, Some(String::new()), Some("eu-west-1".to_string()), Some("us-west-2".to_string())];
    assert_eq!(resolve_region(None, &provided), "eu-west-1");
    assert_eq!(resolve_region(Some(""), &provided), "eu-west-1");
}

#[test]
fn fallback_region_where_nothing_names_one() {
    assert_eq!(resolve_region(None, &Vec::new()), "us-east-1");
    assert_eq!(resolve_region(None, &vec![None, None]), "us-east-1");
    assert_eq!(resolve_region(Some(""), &vec![Some(String::new())]), "us-east-1");
}
