//! Registry credentials: which region to ask for a token, and how a token
//! becomes a user name and a password.
//!
//! An authorization token is the base64 form of the text
//! `username:password`. The first colon parts the two, so that a password
//! may hold colons of its own.

use vstd::prelude::*;
use vstd::string::StrSliceExecFns;
use vstd::utf8::{decode_utf8, encode_utf8, valid_utf8};
use crate::text::chars_of;

verus! {

/// A user name and a password for a registry, neither of them empty.
#[derive(Debug, Clone, PartialEq, Eq)]
pub struct RegistryCredential {
    pub username: String,
    pub password: String,
}

/// What a [`RegistryCredential`] holds, as a mathematical value.
pub ghost struct CredentialView {
    pub username: Seq<char>,
    pub password: Seq<char>,
}

impl View for RegistryCredential {
    type V = CredentialView;

    open spec fn view(&self) -> CredentialView {
        CredentialView { username: self.username@, password: self.password@ }
    }
}

/// What is wrong with a token that is not base64.
#[derive(Debug, Clone, Copy, PartialEq, Eq)]
pub enum DecodeFailure {
    /// A byte that is no base64 symbol, or padding where none may stand.
    InvalidByte { offset: usize, byte: u8 },
    /// A number of symbols that no encoding has.
    InvalidLength { length: usize },
    /// A last symbol with bits set that the encoding would drop.
    InvalidLastSymbol { offset: usize, byte: u8 },
    /// Padding that is missing or not as the encoding writes it.
    InvalidPadding,
}

/// Why no credential could be had from a token.
#[derive(Debug, Clone, Copy, PartialEq, Eq)]
pub enum CredentialError {
    /// The registry gave no token.
    MissingToken,
    /// The token is not base64.
    InvalidEncoding { cause: DecodeFailure },
    /// The decoded token is not UTF-8 text.
    InvalidText,
    /// The decoded token holds no colon.
    MissingSeparator,
    /// Nothing stands before the first colon.
    EmptyUsername,
    /// Nothing stands after the first colon.
    EmptyPassword,
}

/// What the `base64` crate's standard engine decodes `input` to, or how it
/// says the input fails.
pub uninterp spec fn base64_decoded(input: Seq<u8>) -> Result<Seq<u8>, DecodeFailure>;

/// How many characters stand before the first colon of `text`; the length
/// of `text` where it holds none.
pub open spec fn colon_position(text: Seq<char>) -> nat
    decreases text.len(),
{
    if text.len() == 0 || text.first() == ':' {
        0
    } else {
        1 + colon_position(text.drop_first())
    }
}

/// The credential that the text `username:password` holds. The first colon
/// parts the text; a text without a colon, or with nothing on one side of
/// the first colon, holds none.
pub open spec fn credential_of_text(text: Seq<char>) -> Result<CredentialView, CredentialError> {
    let at = colon_position(text) as int;
    if at == text.len() {
        Err(CredentialError::MissingSeparator)
    } else if at == 0 {
        Err(CredentialError::EmptyUsername)
    } else if at + 1 == text.len() {
        Err(CredentialError::EmptyPassword)
    } else {
        Ok(CredentialView { username: text.take(at), password: text.skip(at + 1) })
    }
}

/// The credential that decoded token bytes hold: they must be UTF-8 text
/// of the form `username:password`.
pub open spec fn credential_of_bytes(bytes: Seq<u8>) -> Result<CredentialView, CredentialError> {
    if valid_utf8(bytes) {
        credential_of_text(decode_utf8(bytes))
    } else {
        Err(CredentialError::InvalidText)
    }
}

/// The credential that an authorization token holds, if there is a token.
pub open spec fn credential_of_token(token: Option<Seq<char>>) -> Result<
    CredentialView,
    CredentialError,
> {
    match token {
        None => Err(CredentialError::MissingToken),
        Some(text) => match base64_decoded(encode_utf8(text)) {
            Ok(bytes) => credential_of_bytes(bytes),
            Err(cause) => Err(CredentialError::InvalidEncoding { cause }),
        },
    }
}

/// Whether an outcome is the one that the model asks for.
pub open spec fn credential_matches(
    outcome: Result<RegistryCredential, CredentialError>,
    expected: Result<CredentialView, CredentialError>,
) -> bool {
    match outcome {
        Ok(credential) => expected == Ok::<CredentialView, CredentialError>(credential@),
        Err(error) => expected == Err::<CredentialView, CredentialError>(error),
    }
}

/// `colon_position` finds the first colon: no colon stands before it, and
/// it is either the length of the text or the place of a colon.
pub proof fn lemma_colon_position(text: Seq<char>)
    ensures
        colon_position(text) <= text.len(),
        forall|i: int| 0 <= i < colon_position(text) ==> text[i] != ':',
        colon_position(text) < text.len() ==> text[colon_position(text) as int] == ':',
    decreases text.len(),
{
    if text.len() > 0 && text.first() != ':' {
        let rest = text.drop_first();
        lemma_colon_position(rest);
        assert forall|i: int| 0 <= i < colon_position(text) implies text[i] != ':' by {
            if i > 0 {
                assert(rest[i - 1] == text[i]);
            }
        }
    }
}

/// A place that holds a colon, with none before it, is the colon position.
pub proof fn lemma_colon_position_is(text: Seq<char>, at: int)
    requires
        0 <= at <= text.len(),
        forall|i: int| 0 <= i < at ==> text[i] != ':',
        at < text.len() ==> text[at] == ':',
    ensures
        colon_position(text) == at,
    decreases at,
{
    if at > 0 {
        let rest = text.drop_first();
        assert(text.first() == text[0]);
        assert forall|i: int| 0 <= i < at - 1 implies rest[i] != ':' by {
            assert(rest[i] == text[i + 1]);
        }
        lemma_colon_position_is(rest, at - 1);
    }
}

/// A user name without a colon and a password, both not empty, joined by a
/// colon, part again into exactly the two: the split is at the first colon,
/// so that the password may hold colons.
pub proof fn lemma_joined_text_splits(username: Seq<char>, password: Seq<char>)
    requires
        username.len() > 0,
        password.len() > 0,
        !username.contains(':'),
    ensures
        credential_of_text(username + seq![':'] + password) == Ok::<
            CredentialView,
            CredentialError,
        >(CredentialView { username, password }),
{
    let text = username + seq![':'] + password;
    let at = username.len() as int;
    assert forall|i: int| 0 <= i < at implies text[i] != ':' by {
        assert(text[i] == username[i]);
        assert(username.contains(username[i]));
    }
    assert(text[at] == ':');
    lemma_colon_position_is(text, at);
    assert(text.take(at) == username);
    assert(text.skip(at + 1) == password);
}

/// Text without a colon holds no credential.
pub proof fn lemma_no_colon_no_credential(text: Seq<char>)
    requires
        !text.contains(':'),
    ensures
        credential_of_text(text) == Err::<CredentialView, CredentialError>(
            CredentialError::MissingSeparator,
        ),
{
    lemma_colon_position(text);
    if colon_position(text) < text.len() {
        assert(text.contains(text[colon_position(text) as int]));
    }
}

/// A credential is never partial: what the text parts into has a user name
/// and a password that are both not empty, the user name holds no colon,
/// and the two joined by a colon are the text again.
pub proof fn lemma_credential_is_whole(text: Seq<char>)
    ensures
        credential_of_text(text) matches Ok(credential) ==> {
            &&& credential.username.len() > 0
            &&& credential.password.len() > 0
            &&& !credential.username.contains(':')
            &&& text == credential.username + seq![':'] + credential.password
        },
{
    lemma_colon_position(text);
    if let Ok(credential) = credential_of_text(text) {
        let at = colon_position(text) as int;
        assert(text =~= credential.username + seq![':'] + credential.password);
        if credential.username.contains(':') {
            let i = choose|i: int|
                0 <= i < credential.username.len() && credential.username[i] == ':';
            assert(text[i] == ':');
        }
    }
}

/// Calls `decode` of the `base64` crate's standard engine
/// (`BASE64_STANDARD`) and carries the variants of its `DecodeError` over,
/// field for field. The contract names what comes back.
#[verifier::external_body]
fn decode_standard(input: &[u8]) -> (outcome: Result<Vec<u8>, DecodeFailure>)
    ensures
        match outcome {
            Ok(bytes) => base64_decoded(input@) == Ok::<Seq<u8>, DecodeFailure>(bytes@),
            Err(failure) => base64_decoded(input@) == Err::<Seq<u8>, DecodeFailure>(failure),
        },
{
    match base64::Engine::decode(&base64::prelude::BASE64_STANDARD, input) {
        Ok(bytes) => Ok(bytes),
        Err(base64::DecodeError::InvalidByte(offset, byte)) => Err(
            DecodeFailure::InvalidByte { offset, byte },
        ),
        Err(base64::DecodeError::InvalidLength(length)) => Err(
            DecodeFailure::InvalidLength { length },
        ),
        Err(base64::DecodeError::InvalidLastSymbol(offset, byte)) => Err(
            DecodeFailure::InvalidLastSymbol { offset, byte },
        ),
        Err(base64::DecodeError::InvalidPadding) => Err(DecodeFailure::InvalidPadding),
    }
}

/// Calls `String::from_utf8`: a string comes back exactly when the bytes
/// are UTF-8, and it then holds those bytes.
#[verifier::external_body]
fn text_of_bytes(bytes: Vec<u8>) -> (text: Option<String>)
    ensures
        text is Some <==> valid_utf8(bytes@),
        text matches Some(s) ==> encode_utf8(s@) == bytes@,
{
    match String::from_utf8(bytes) {
        Ok(text) => Some(text),
        Err(_) => None,
    }
}

/// Parts the text `username:password` at its first colon.
///
/// Fails where the text holds no colon, and where the user name or the
/// password would be empty; a credential is never partial.
pub fn split_credential(text: &str) -> (outcome: Result<RegistryCredential, CredentialError>)
    ensures
        credential_matches(outcome, credential_of_text(text@)),
{
    let chars = chars_of(text);
    let n: usize = chars.len();
    let mut at: usize = 0;
    while at < n && chars[at] != ':'
        invariant
            at <= n == chars@.len(),
            forall|i: int| 0 <= i < at ==> chars@[i] != ':',
        decreases n - at,
    {
        at = at + 1;
    }
    proof {
        lemma_colon_position_is(text@, at as int);
    }
    if at == n {
        Err(CredentialError::MissingSeparator)
    } else if at == 0 {
        Err(CredentialError::EmptyUsername)
    } else if at + 1 == n {
        Err(CredentialError::EmptyPassword)
    } else {
        let username = text.substring_char(0, at).to_owned();
        let password = text.substring_char(at + 1, n).to_owned();
        assert(text@.subrange(0, at as int) == text@.take(at as int));
        assert(text@.subrange(at + 1, n as int) == text@.skip(at + 1));
        Ok(RegistryCredential { username, password })
    }
}

/// Reads a credential out of the bytes that a token decodes to.
///
/// The bytes must be UTF-8 text; the text is then parted as
/// [`split_credential`] parts it.
pub fn credential_from_bytes(bytes: Vec<u8>) -> (outcome: Result<
    RegistryCredential,
    CredentialError,
>)
    ensures
        credential_matches(outcome, credential_of_bytes(bytes@)),
{
    match text_of_bytes(bytes) {
        Some(text) => {
            proof {
                vstd::utf8::encode_utf8_decode_utf8(text@);
            }
            split_credential(text.as_str())
        },
        None => Err(CredentialError::InvalidText),
    }
}

/// Reads a credential out of an authorization token.
///
/// A token that is missing gives `MissingToken`. A token is decoded from
/// base64 by the `base64` crate; where that fails, the error carries the
/// crate's reason. The decoded bytes are read as
/// [`credential_from_bytes`] reads them.
pub fn credential_from_token(token: Option<&str>) -> (outcome: Result<
    RegistryCredential,
    CredentialError,
>)
    ensures
        credential_matches(
            outcome,
            credential_of_token(
                match token {
                    Some(text) => Some(text@),
                    None => None,
                },
            ),
        ),
{
    match token {
        None => Err(CredentialError::MissingToken),
        Some(text) => match decode_standard(text.as_bytes()) {
            Ok(bytes) => credential_from_bytes(bytes),
            Err(cause) => Err(CredentialError::InvalidEncoding { cause }),
        },
    }
}

} // verus!
