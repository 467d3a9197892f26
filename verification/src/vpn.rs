//! The messages of the control stream.
use vstd::prelude::*;

verus! {

/// A way to prove who one is.
#[derive(Debug, Clone, Copy, PartialEq, Eq, Structural)]
pub enum AuthMethod {
    Password,
}

impl AuthMethod {
    /// The number that stands for the method in a message.
    pub open spec fn number(self) -> i32 {
        match self {
            AuthMethod::Password => 0,
        }
    }

    /// The method that a number stands for.
    pub open spec fn of_number(n: i32) -> Option<AuthMethod> {
        if n == 0 {
            Some(AuthMethod::Password)
        } else {
            None
        }
    }

    /// The number that stands for the method in a message.
    pub fn as_i32(self) -> (n: i32)
        ensures
            n == self.number(),
    {
        match self {
            AuthMethod::Password => 0,
        }
    }

    /// The method that a number stands for.
    pub fn from_i32(n: i32) -> (r: Option<AuthMethod>)
        ensures
            r == AuthMethod::of_number(n),
    {
        if n == 0 {
            Some(AuthMethod::Password)
        } else {
            None
        }
    }
}

/// Why the server turns a client away.
#[derive(Debug, Clone, Copy, PartialEq, Eq, Structural)]
pub enum DenyReason {
    AuthFailed,
    ServerBusy,
}

impl DenyReason {
    /// The number that stands for the reason in a message.
    pub open spec fn number(self) -> i32 {
        match self {
            DenyReason::AuthFailed => 0,
            DenyReason::ServerBusy => 1,
        }
    }

    /// The number that stands for the reason in a message.
    pub fn as_i32(self) -> (n: i32)
        ensures
            n == self.number(),
    {
        match self {
            DenyReason::AuthFailed => 0,
            DenyReason::ServerBusy => 1,
        }
    }
}

#[derive(Debug, Clone, PartialEq, Eq)]
pub struct AuthRequest {
    pub username: String,
    pub password: String,
}

/// What the server hands to a client that it lets in.
#[derive(Debug, Clone, PartialEq, Eq)]
pub struct AuthOk {
    pub assigned_ip: String,
    pub subnet: String,
    pub gateway: String,
    pub mtu: u32,
    pub routes: Vec<String>,
}

#[derive(Debug, Clone, Copy, PartialEq, Eq, Structural)]
pub struct AuthDenied {
    pub reason: i32,
}

#[derive(Debug, Clone, Copy, PartialEq, Eq, Structural)]
pub struct Heartbeat {}

#[derive(Debug, Clone, PartialEq, Eq)]
pub struct Disconnect {
    pub reason: String,
}

#[derive(Debug, Clone, PartialEq, Eq)]
pub struct ServerHello {
    pub protocol_version: u32,
    pub supported_methods: Vec<i32>,
}

#[derive(Debug, Clone, PartialEq, Eq)]
pub struct PasswordAuth {
    pub password: String,
}

#[derive(Debug, Clone, PartialEq, Eq)]
pub enum Method {
    Password(PasswordAuth),
}

/// With what a client begins to prove who it is.
#[derive(Debug, Clone, PartialEq, Eq)]
pub struct AuthInit {
    pub username: String,
    pub method: Option<Method>,
}

#[derive(Debug, Clone, PartialEq, Eq)]
pub struct TotpChallenge {
    pub prompt: String,
}

#[derive(Debug, Clone, PartialEq, Eq)]
pub enum Challenge {
    Totp(TotpChallenge),
}

#[derive(Debug, Clone, PartialEq, Eq)]
pub struct AuthChallenge {
    pub challenge: Option<Challenge>,
}

#[derive(Debug, Clone, PartialEq, Eq)]
pub struct TotpResponse {
    pub code: String,
}

#[derive(Debug, Clone, PartialEq, Eq)]
pub enum Response {
    Totp(TotpResponse),
}

#[derive(Debug, Clone, PartialEq, Eq)]
pub struct AuthResponse {
    pub response: Option<Response>,
}

impl Default for AuthResponse {
    /// A response that says nothing.
    fn default() -> (r: AuthResponse)
        ensures
            r.response is None,
    {
        AuthResponse { response: None }
    }
}

impl Default for AuthChallenge {
    /// A challenge that asks for nothing.
    fn default() -> (r: AuthChallenge)
        ensures
            r.challenge is None,
    {
        AuthChallenge { challenge: None }
    }
}

#[derive(Debug, Clone, PartialEq, Eq)]
pub enum Msg {
    AuthRequest(AuthRequest),
    AuthOk(AuthOk),
    AuthDenied(AuthDenied),
    Heartbeat(Heartbeat),
    Disconnect(Disconnect),
    ServerHello(ServerHello),
    AuthInit(AuthInit),
    AuthChallenge(AuthChallenge),
    AuthResponse(AuthResponse),
}

#[derive(Debug, Clone, PartialEq, Eq)]
pub struct ControlMessage {
    pub msg: Option<Msg>,
}

/// The numbers that stand for methods and reasons in messages.
pub proof fn law_methods_and_reasons_have_their_numbers(n: i32)
    ensures
        AuthMethod::Password.number() == 0,
        AuthMethod::of_number(n) == if n == 0 {
            Some(AuthMethod::Password)
        } else {
            None
        },
        DenyReason::AuthFailed.number() == 0,
        DenyReason::ServerBusy.number() == 1,
{
}

} // verus!
