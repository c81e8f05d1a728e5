use vstd::prelude::*;

use hmac::Mac;
use jwt::{SignWithKey, VerifyWithKey};

use crate::errors::LedgerError;

verus! {

/// The bearer token that signing the single `user` claim with this
/// HMAC-SHA256 key yields. Signing carries no salt or time, so the token
/// is a function of the key and the user alone.
pub uninterp spec fn token_for(key: Seq<char>, user: Seq<char>) -> Seq<char>;

/// The user a token names under this key, if the token's signature
/// checks out and it carries the `user` claim. Verification recomputes
/// the signature, so the answer is a function of key and token alone.
pub uninterp spec fn token_user(key: Seq<char>, token: Seq<char>) -> Option<Seq<char>>;

/// Relies on jwt's `SignWithKey` over an `Hmac<Sha256>` key built by
/// `Mac::new_from_slice`: an HS256 header and the single `user` claim
/// are signed deterministically, so the token depends on the key bytes
/// and the user name alone.
#[verifier::external_body]
fn sign_user_token(key: &str, user: &str) -> (r: Result<String, ()>)
    ensures
        r matches Ok(t) ==> t@ == token_for(key@, user@),
        r matches Ok(t) ==> token_user(key@, t@) == Some(user@),
{
    let hmac_key: hmac::Hmac<sha2::Sha256> = match Mac::new_from_slice(key.as_bytes()) {
        Ok(k) => k,
        Err(_) => return Err(()),
    };
    let header = jwt::Header { algorithm: jwt::AlgorithmType::Hs256, ..Default::default() };
    let mut claims = std::collections::BTreeMap::new();
    claims.insert("user", user);
    match jwt::Token::new(header, claims).sign_with_key(&hmac_key) {
        Ok(t) => Ok(t.as_str().to_owned()),
        Err(_) => Err(()),
    }
}

/// Relies on jwt's `VerifyWithKey` over the same kind of key: a token
/// signed for a user with this key passes verification and carries that
/// user in its `user` claim; a token that fails verification, or lacks
/// the claim, yields nothing.
#[verifier::external_body]
fn verify_user_token(key: &str, token: &str) -> (r: Option<String>)
    ensures
        r matches Some(v) ==> token_user(key@, token@) == Some(v@),
        r is None ==> token_user(key@, token@) is None,
{
    let hmac_key: hmac::Hmac<sha2::Sha256> = match Mac::new_from_slice(key.as_bytes()) {
        Ok(k) => k,
        Err(_) => return None,
    };
    let parsed: Result<
        jwt::Token<jwt::Header, std::collections::BTreeMap<String, String>, _>,
        jwt::Error,
    > = token.verify_with_key(&hmac_key);
    match parsed {
        Ok(t) => t.claims().get("user").cloned(),
        Err(_) => None,
    }
}

/// The scheme prefix an authorization header carries in front of the
/// bearer token.
pub open spec fn bearer_prefix() -> Seq<char> {
    seq!['B', 'e', 'a', 'r', 'e', 'r', ' ']
}

/// The token part of an authorization header: what follows the
/// `Bearer ` prefix, or nothing when the prefix is missing.
pub fn bearer_token(header: &str) -> (r: Option<&str>)
    ensures
        r matches Some(t) ==> header@.len() >= 7 && header@.subrange(0, 7) == bearer_prefix()
            && t@ == header@.subrange(7, header@.len() as int),
        r is None ==> header@.len() < 7 || header@.subrange(0, 7) != bearer_prefix(),
{
    let n = header.unicode_len();
    if n < 7 {
        return None;
    }
    if header.get_char(0) == 'B' && header.get_char(1) == 'e' && header.get_char(2) == 'a'
        && header.get_char(3) == 'r' && header.get_char(4) == 'e' && header.get_char(5) == 'r'
        && header.get_char(6) == ' ' {
        proof {
            assert(header@.subrange(0, 7) =~= bearer_prefix());
        }
        Some(header.substring_char(7, n))
    } else {
        proof {
            assert(header@.subrange(0, 7) != bearer_prefix()) by {
                if header@.subrange(0, 7) == bearer_prefix() {
                    assert(header@[0] == 'B' && header@[1] == 'e' && header@[2] == 'a'
                        && header@[3] == 'r' && header@[4] == 'e' && header@[5] == 'r'
                        && header@[6] == ' ');
                }
            }
        }
        None
    }
}

/// Issues and checks the opaque bearer tokens of the session layer: a
/// token names its user and is signed with the broker's key, so only
/// this broker's tokens pass its own check.
pub struct TokenBroker {
    key: String,
}

impl TokenBroker {
    /// The signing key, shared by every token this broker touches.
    pub closed spec fn spec_key(self) -> Seq<char> {
        self.key@
    }

    /// A broker around the process-wide signing key.
    pub fn new() -> (r: TokenBroker) {
        TokenBroker { key: "secret".to_owned() }
    }

    /// Signs a token naming `user`; the result is exactly
    /// `token_for` of the broker's key, and this broker verifies it back
    /// to `user`. Only a fault inside the signing primitive is reported,
    /// as internal.
    pub fn create_new_token(&self, user: &str) -> (r: Result<String, LedgerError>)
        ensures
            r matches Ok(t) ==> t@ == token_for(self.spec_key(), user@) && token_user(
                self.spec_key(),
                t@,
            ) == Some(user@),
            r is Err ==> r == Err::<String, LedgerError>(LedgerError::Internal),
    {
        match sign_user_token(self.key.as_str(), user) {
            Ok(t) => Ok(t),
            Err(_) => Err(LedgerError::Internal),
        }
    }

    /// Authorizes one request: reads the token out of its
    /// `Bearer `-prefixed authorization header and checks it, handing
    /// back the user the request acts for. A header without the prefix,
    /// or with a token this broker rejects, is unauthorized.
    pub fn verify_bearer(&self, header: &str) -> (r: Result<String, LedgerError>)
        ensures
            header@.len() < 7 || header@.subrange(0, 7) != bearer_prefix() ==> r == Err::<
                String,
                LedgerError,
            >(LedgerError::Unauthorized),
            header@.len() >= 7 && header@.subrange(0, 7) == bearer_prefix() ==> {
                let tok = header@.subrange(7, header@.len() as int);
                &&& (r is Ok <==> token_user(self.spec_key(), tok) is Some)
                &&& (r matches Ok(v) ==> token_user(self.spec_key(), tok) == Some(v@))
            },
            r is Err ==> r == Err::<String, LedgerError>(LedgerError::Unauthorized),
    {
        match bearer_token(header) {
            None => Err(LedgerError::Unauthorized),
            Some(t) => self.verify_token(t),
        }
    }

    /// Checks a bearer token and hands back the user it names: it
    /// accepts the token exactly when the broker's key verifies it, so
    /// any token this broker created for a user comes back as that user,
    /// and a rejected token is reported as unauthorized.
    pub fn verify_token(&self, token_str: &str) -> (r: Result<String, LedgerError>)
        ensures
            r is Ok <==> token_user(self.spec_key(), token_str@) is Some,
            r matches Ok(v) ==> token_user(self.spec_key(), token_str@) == Some(v@),
            r is Err ==> r == Err::<String, LedgerError>(LedgerError::Unauthorized),
    {
        match verify_user_token(self.key.as_str(), token_str) {
            Some(user) => Ok(user),
            None => Err(LedgerError::Unauthorized),
        }
    }
}

} // verus!
