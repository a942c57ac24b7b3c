//! Upload tokens: a policy signed with a credential, or the text of one.

use crate::base64::{decode_urlsafe, is_urlsafe_text, urlsafe_text};
use crate::config::Config;
use crate::credential::{Credential, digest_text, signature_with_data};
use crate::rob::Rob;
use crate::text::{find, head_before, lemma_split_joined, split_first, tail_after};
use crate::upload_policy::{
    deadline_after,
    Field,
    initial_fields,
    is_complete,
    policy_json,
    policy_of_document,
    UploadPolicy,
    UploadPolicyBuilder,
};
use vstd::prelude::*;
use vstd::string::*;
use vstd::utf8::encode_utf8;

verus! {

/// Why the text of an upload token could not be read.
#[derive(Clone, Copy, Debug, PartialEq, Eq, Structural)]
pub enum UploadTokenParseError {
    /// The text does not have three parts with colons between them.
    InvalidFormat,
    /// The third part is not URL-safe Base64.
    InvalidBase64,
    /// The third part does not decode to a JSON document.
    InvalidJSON,
    /// The policy lacks its scope or its deadline.
    MissingField,
}

/// Why a token text could not be read, in words.
pub open spec fn parse_error_words(error: UploadTokenParseError) -> Seq<char> {
    match error {
        UploadTokenParseError::InvalidFormat => "Invalid upload token format"@,
        UploadTokenParseError::InvalidBase64 => "Base64 decode error"@,
        UploadTokenParseError::InvalidJSON => "JSON decode error"@,
        UploadTokenParseError::MissingField => "Upload policy lacks a required field"@,
    }
}

impl UploadTokenParseError {
    /// Says why the token text could not be read.
    pub fn to_string(&self) -> (r: String)
        ensures
            r@ == parse_error_words(*self),
    {
        match self {
            UploadTokenParseError::InvalidFormat => "Invalid upload token format".to_owned(),
            UploadTokenParseError::InvalidBase64 => "Base64 decode error".to_owned(),
            UploadTokenParseError::InvalidJSON => "JSON decode error".to_owned(),
            UploadTokenParseError::MissingField => "Upload policy lacks a required field".to_owned(),
        }
    }
}

/// The three parts of a token text: what stands before the first colon,
/// between the first and the second, and after the second.
pub open spec fn segments(token: Seq<char>) -> Option<(Seq<char>, Seq<char>, Seq<char>)> {
    if find(token, ':') < token.len() {
        let rest = tail_after(token, ':');
        if find(rest, ':') < rest.len() {
            Some((head_before(token, ':'), head_before(rest, ':'), tail_after(rest, ':')))
        } else {
            None
        }
    } else {
        None
    }
}

/// The text of the token that signs the policy document `document` with the
/// given keys: the access key, the digest of the encoded document, and the
/// encoded document, with colons between them.
pub open spec fn rendered(access_key: Seq<char>, secret_key: Seq<char>, document: Seq<char>) -> Seq<
    char,
> {
    signature_with_data(access_key, secret_key, encode_utf8(document))
}

/// The bytes that `text` is the URL-safe Base64 encoding of, if it is one.
pub open spec fn decoded(text: Seq<char>) -> Option<Seq<u8>> {
    if exists|data: Seq<u8>| #[trigger] urlsafe_text(data) == text {
        Some(choose|data: Seq<u8>| #[trigger] urlsafe_text(data) == text)
    } else {
        None
    }
}

/// The access key that a token text names: its first part.
pub open spec fn parsed_access_key(token: Seq<char>) -> Result<Seq<char>, UploadTokenParseError> {
    if find(token, ':') < token.len() {
        Ok(head_before(token, ':'))
    } else {
        Err(UploadTokenParseError::InvalidFormat)
    }
}

/// The policy that a token text carries in its third part.
pub open spec fn parsed_policy(token: Seq<char>) -> Result<Seq<Field>, UploadTokenParseError> {
    match segments(token) {
        None => Err(UploadTokenParseError::InvalidFormat),
        Some((_, _, third)) => match decoded(third) {
            None => Err(UploadTokenParseError::InvalidBase64),
            Some(document) => policy_of_bytes(document),
        },
    }
}

/// The policy that the bytes of a policy document state.
pub open spec fn policy_of_bytes(document: Seq<u8>) -> Result<Seq<Field>, UploadTokenParseError> {
    match policy_of_document(document) {
        None => Err(UploadTokenParseError::InvalidJSON),
        Some(fields) => if is_complete(fields) {
            Ok(fields)
        } else {
            Err(UploadTokenParseError::MissingField)
        },
    }
}

/// A rendered token falls into its three parts again, provided the access
/// key holds no colon and the two encoded parts are drawn from the URL-safe
/// alphabet.
pub proof fn lemma_segments_of_rendered(
    access_key: Seq<char>,
    secret_key: Seq<char>,
    document: Seq<char>,
)
    requires
        !access_key.contains(':'),
        is_urlsafe_text(urlsafe_text(encode_utf8(document))),
        is_urlsafe_text(
            digest_text(secret_key, encode_utf8(urlsafe_text(encode_utf8(document)))),
        ),
    ensures
        segments(rendered(access_key, secret_key, document)) == Some(
            (
                access_key,
                digest_text(secret_key, encode_utf8(urlsafe_text(encode_utf8(document)))),
                urlsafe_text(encode_utf8(document)),
            ),
        ),
        parsed_access_key(rendered(access_key, secret_key, document)) == Ok::<
            Seq<char>,
            UploadTokenParseError,
        >(access_key),
{
    let encoded = urlsafe_text(encode_utf8(document));
    let digest = digest_text(secret_key, encode_utf8(encoded));
    let token = rendered(access_key, secret_key, document);
    let rest = digest + seq![':'] + encoded;
    assert(token =~= access_key + seq![':'] + rest);
    lemma_split_joined(access_key, ':', rest);
    assert(!digest.contains(':')) by {
        if digest.contains(':') {
            let i = choose|i: int| 0 <= i < digest.len() && digest[i] == ':';
            assert(crate::base64::is_urlsafe_symbol(digest[i]));
        }
    }
    lemma_split_joined(digest, ':', encoded);
}

fn read_policy(token: &str) -> (r: Result<UploadPolicy, UploadTokenParseError>)
    ensures
        match r {
            Ok(policy) => parsed_policy(token@) == Ok::<Seq<Field>, UploadTokenParseError>(
                policy.deep_view(),
            ),
            Err(e) => parsed_policy(token@) == Err::<Seq<Field>, UploadTokenParseError>(e),
        },
        forall|document: Seq<u8>|
            (segments(token@) matches Some(parts) && parts.2 == #[trigger] urlsafe_text(document))
                ==> parsed_policy(token@) == policy_of_bytes(document),
{
    let rest = match split_first(token, ':') {
        Some((_, rest)) => rest,
        None => {
            return Err(UploadTokenParseError::InvalidFormat);
        },
    };
    let third = match split_first(rest, ':') {
        Some((_, third)) => third,
        None => {
            return Err(UploadTokenParseError::InvalidFormat);
        },
    };
    let document = match decode_urlsafe(third) {
        Some(document) => document,
        None => {
            return Err(UploadTokenParseError::InvalidBase64);
        },
    };
    assert(decoded(third@) == Some(document@));
    let policy = match UploadPolicy::from_json(document.as_slice()) {
        Some(policy) => policy,
        None => {
            return Err(UploadTokenParseError::InvalidJSON);
        },
    };
    if policy.scope().is_none() || policy.token_deadline().is_none() {
        return Err(UploadTokenParseError::MissingField);
    }
    Ok(policy)
}

/// An upload token: either a policy bound to the credential that signs it,
/// or the text of a token received from elsewhere.
#[derive(Debug)]
pub enum UploadToken {
    /// A policy and the credential that signs it.
    Bound { policy: UploadPolicy, credential: Credential },
    /// The text of a token.
    Parsed { token: String },
}

impl UploadToken {
    /// Binds a policy to the credential that signs it.
    pub fn new(policy: UploadPolicy, credential: Credential) -> (r: Self)
        ensures
            r == (UploadToken::Bound { policy, credential }),
    {
        UploadToken::Bound { policy, credential }
    }

    /// Takes the text of a token as it is; it is read when asked for.
    pub fn from_token(token: &str) -> (r: Self)
        ensures
            r matches UploadToken::Parsed { token: held } && held@ == token@,
    {
        UploadToken::Parsed { token: token.to_owned() }
    }

    /// A token for uploads into `bucket`, made at `now` and valid for the
    /// token lifetime of `config`.
    pub fn new_from_bucket(bucket: &str, credential: Credential, config: &Config, now: u64) -> (r:
        Self)
        ensures
            r matches UploadToken::Bound { policy, credential: held } && held == credential
                && policy.deep_view() == initial_fields(
                bucket@,
                deadline_after(now, config@.upload_token_lifetime),
            ),
    {
        UploadToken::Bound {
            policy: UploadPolicyBuilder::new_policy_for_bucket(bucket, config, now).build(),
            credential,
        }
    }

    /// The text of the token.
    pub open spec fn text(&self) -> Seq<char> {
        match self {
            UploadToken::Bound { policy, credential } => rendered(
                credential.spec_access_key(),
                credential.spec_secret_key(),
                policy_json(policy.deep_view()),
            ),
            UploadToken::Parsed { token } => token@,
        }
    }

    /// The access key of the token, or why the text names none.
    pub open spec fn spec_access_key(&self) -> Result<Seq<char>, UploadTokenParseError> {
        match self {
            UploadToken::Bound { policy, credential } => Ok(credential.spec_access_key()),
            UploadToken::Parsed { token } => parsed_access_key(token@),
        }
    }

    /// The policy of the token, or why the text carries none.
    pub open spec fn spec_policy(&self) -> Result<Seq<Field>, UploadTokenParseError> {
        match self {
            UploadToken::Bound { policy, credential } => Ok(policy.deep_view()),
            UploadToken::Parsed { token } => parsed_policy(token@),
        }
    }

    /// Renders the token as text. The text of a bound token whose access key
    /// holds no colon falls into the access key, the digest and the encoded
    /// policy document again.
    pub fn to_string(&self) -> (r: String)
        ensures
            r@ == self.text(),
            match self {
                UploadToken::Bound { policy, credential } => !credential.spec_access_key().contains(
                    ':',
                ) ==> {
                    let document = policy_json(policy.deep_view());
                    &&& segments(r@) == Some(
                        (
                            credential.spec_access_key(),
                            digest_text(
                                credential.spec_secret_key(),
                                encode_utf8(urlsafe_text(encode_utf8(document))),
                            ),
                            urlsafe_text(encode_utf8(document)),
                        ),
                    )
                    &&& parsed_access_key(r@) == Ok::<Seq<char>, UploadTokenParseError>(
                        credential.spec_access_key(),
                    )
                },
                UploadToken::Parsed { token } => true,
            },
    {
        match self {
            UploadToken::Bound { policy, credential } => {
                let document = policy.as_json();
                let r = credential.sign_with_data(document.as_str().as_bytes());
                proof {
                    if !credential.spec_access_key().contains(':') {
                        lemma_segments_of_rendered(
                            credential.spec_access_key(),
                            credential.spec_secret_key(),
                            document@,
                        );
                    }
                }
                r
            },
            UploadToken::Parsed { token } => token.clone(),
        }
    }

    /// The access key: that of the credential of a bound token, the first
    /// part of a token text. A text without a colon has the wrong format.
    pub fn access_key(&self) -> (r: Result<&str, UploadTokenParseError>)
        ensures
            match r {
                Ok(access_key) => self.spec_access_key() == Ok::<Seq<char>, UploadTokenParseError>(
                    access_key@,
                ),
                Err(e) => self.spec_access_key() == Err::<Seq<char>, UploadTokenParseError>(e),
            },
    {
        match self {
            UploadToken::Bound { policy, credential } => Ok(credential.access_key()),
            UploadToken::Parsed { token } => match split_first(token.as_str(), ':') {
                Some((head, _)) => Ok(head),
                None => Err(UploadTokenParseError::InvalidFormat),
            },
        }
    }

    /// The policy: that of a bound token as it is, that of a token text
    /// decoded from its third part. A text whose third part is the encoding
    /// of a document carries the policy that this document states.
    pub fn policy(&self) -> (r: Result<Rob<'_, UploadPolicy>, UploadTokenParseError>)
        ensures
            match r {
                Ok(policy) => self.spec_policy() == Ok::<Seq<Field>, UploadTokenParseError>(
                    policy.value().deep_view(),
                ),
                Err(e) => self.spec_policy() == Err::<Seq<Field>, UploadTokenParseError>(e),
            },
            forall|document: Seq<u8>|
                self is Parsed && (segments(self.text()) matches Some(parts) && parts.2
                    == #[trigger] urlsafe_text(document)) ==> self.spec_policy()
                    == policy_of_bytes(document),
    {
        match self {
            UploadToken::Bound { policy, credential } => Ok(Rob::from_ref(policy)),
            UploadToken::Parsed { token } => match read_policy(token.as_str()) {
                Ok(policy) => Ok(Rob::from_value(policy)),
                Err(e) => Err(e),
            },
        }
    }

    /// Reads a token text at once: the policy it carries and the access key
    /// it names.
    pub fn parse(token: &str) -> (r: Result<(UploadPolicy, String), UploadTokenParseError>)
        ensures
            match r {
                Ok((policy, access_key)) => parsed_policy(token@) == Ok::<
                    Seq<Field>,
                    UploadTokenParseError,
                >(policy.deep_view()) && parsed_access_key(token@) == Ok::<
                    Seq<char>,
                    UploadTokenParseError,
                >(access_key@),
                Err(e) => parsed_policy(token@) == Err::<Seq<Field>, UploadTokenParseError>(e),
            },
            forall|document: Seq<u8>|
                (segments(token@) matches Some(parts) && parts.2 == #[trigger] urlsafe_text(
                    document,
                )) ==> parsed_policy(token@) == policy_of_bytes(document),
    {
        let held = UploadToken::from_token(token);
        let access_key = match held.access_key() {
            Ok(access_key) => access_key.to_owned(),
            Err(e) => {
                return Err(e);
            },
        };
        match read_policy(token) {
            Ok(policy) => Ok((policy, access_key)),
            Err(e) => Err(e),
        }
    }

    /// Renders the token and reads the rendering back, as the receiver of
    /// the text does. For a bound token whose access key holds no colon the
    /// receiver finds that access key, and the policy that the rendered
    /// policy document states.
    pub fn render_and_parse(&self) -> (r: (
        String,
        Result<(UploadPolicy, String), UploadTokenParseError>,
    ))
        ensures
            r.0@ == self.text(),
            match self {
                UploadToken::Bound { policy, credential } => !credential.spec_access_key().contains(
                    ':',
                ) ==> match r.1 {
                    Ok((found, access_key)) => access_key@ == credential.spec_access_key()
                        && policy_of_bytes(encode_utf8(policy_json(policy.deep_view()))) == Ok::<
                        Seq<Field>,
                        UploadTokenParseError,
                    >(found.deep_view()),
                    Err(e) => policy_of_bytes(encode_utf8(policy_json(policy.deep_view())))
                        == Err::<Seq<Field>, UploadTokenParseError>(e),
                },
                UploadToken::Parsed { token } => true,
            },
    {
        let text = self.to_string();
        let parsed = Self::parse(text.as_str());
        (text, parsed)
    }
}

} // verus!
