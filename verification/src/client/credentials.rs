//! With what a user shows who they are.
use vstd::prelude::*;

use crate::text;
use crate::vpn::{
    AuthChallenge, AuthInit, AuthMethod, AuthResponse, Challenge, Method, PasswordAuth, Response,
    TotpResponse,
};

verus! {

/// The first message of a user with a name and a password.
pub fn build_password_init(username: String, password: String) -> (r: AuthInit)
    ensures
        r == (AuthInit { username, method: Some(Method::Password(PasswordAuth { password })) }),
{
    AuthInit { username, method: Some(Method::Password(PasswordAuth { password })) }
}

/// What a user has typed, or nothing where they could not be asked.
pub open spec fn typed(answer: Option<String>) -> Seq<char> {
    match answer {
        Some(s) => s@,
        None => Seq::empty(),
    }
}

fn typed_or_nothing(answer: Option<String>) -> (r: String)
    ensures
        r@ == typed(answer),
{
    match answer {
        Some(s) => s,
        None => {
            let r = String::new();
            assert(r@ =~= Seq::<char>::empty());
            r
        },
    }
}

/// A user at the terminal, who is asked.
#[derive(Debug, Clone, Copy, PartialEq, Eq, Structural)]
pub struct CliCredentialCollector;

impl CliCredentialCollector {
    /// The first message, from the name and the password that the user has typed, where they
    /// could be asked. The spaces around the name do not count. The methods that the server
    /// offers make no difference.
    pub fn collect_init(
        &self,
        _methods: &[AuthMethod],
        username: Option<String>,
        password: Option<String>,
    ) -> (r: AuthInit)
        ensures
            r.username@ == text::trimmed(typed(username)),
            r.method matches Some(Method::Password(p)) && p.password@ == typed(password),
    {
        let name = typed_or_nothing(username);
        build_password_init(text::trim(name.as_str()).to_string(), typed_or_nothing(password))
    }

    /// What the user has to be asked for a challenge.
    pub fn prompt_for(&self, challenge: &AuthChallenge) -> (r: Option<String>)
        ensures
            match (r, challenge.challenge) {
                (Some(prompt), Some(Challenge::Totp(t))) => prompt@ == t.prompt@,
                (None, None) => true,
                _ => false,
            },
    {
        match &challenge.challenge {
            Some(Challenge::Totp(t)) => Some(t.prompt.clone()),
            None => None,
        }
    }

    /// The answer to a challenge, from the code that the user has typed, where they could be
    /// asked. A challenge that asks for nothing gets an empty answer.
    pub fn collect_response(&self, challenge: &AuthChallenge, code: Option<String>) -> (r:
        AuthResponse)
        ensures
            match challenge.challenge {
                Some(Challenge::Totp(_)) => r.response matches Some(Response::Totp(t)) && t.code@
                    == typed(code),
                None => r.response is None,
            },
    {
        match &challenge.challenge {
            Some(Challenge::Totp(_)) => AuthResponse {
                response: Some(Response::Totp(TotpResponse { code: typed_or_nothing(code) })),
            },
            None => AuthResponse { response: None },
        }
    }
}

/// A name and a password that are known beforehand.
#[derive(Debug, Clone, PartialEq, Eq)]
pub struct StaticCredentialCollector {
    pub username: String,
    pub password: String,
}

impl StaticCredentialCollector {
    /// The first message. The methods that the server offers make no difference.
    pub fn collect_init(&self, _methods: &[AuthMethod]) -> (r: AuthInit)
        ensures
            r.username@ == self.username@,
            r.method matches Some(Method::Password(p)) && p.password@ == self.password@,
    {
        build_password_init(self.username.clone(), self.password.clone())
    }

    /// The answer to a challenge: an empty one, whatever is asked.
    pub fn collect_response(&self, _challenge: &AuthChallenge) -> (r: AuthResponse)
        ensures
            r.response is None,
    {
        AuthResponse { response: None }
    }
}

/// What a user has typed counts as it is, and one who could not be asked has typed nothing.
pub proof fn law_what_was_typed_counts(answer: String)
    ensures
        typed(Some(answer)) == answer@,
        typed(None).len() == 0,
{
}

/// What a user has typed gets into the first message: the name without the spaces around it, the
/// password as it is, whatever the server offers.
pub proof fn law_typed_credentials_are_sent(
    c: &CliCredentialCollector,
    methods: &[AuthMethod],
    username: String,
    password: String,
    r: AuthInit,
)
    requires
        call_ensures(
            CliCredentialCollector::collect_init,
            (c, methods, Some(username), Some(password)),
            r,
        ),
    ensures
        r.username@ == text::trimmed(username@),
        r.method matches Some(Method::Password(p)) && p.password@ == password@,
{
}

} // verus!
