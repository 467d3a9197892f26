//! The configuration of the server and of the client.
use vstd::prelude::*;

use crate::auth;
use crate::auth::{AuthError, UserStore};
use crate::ipam;
use crate::ipam::IpPool;
use crate::net;
use crate::net::{Ipv4Addr, Ipv4Net};
use crate::text;

verus! {

/// The smallest MTU that a tunnel may have.
pub const MIN_MTU: u16 = 1280;

/// Why a configuration is refused.
#[derive(Debug, Clone, PartialEq, Eq)]
pub enum ConfigError {
    Io(String),
    Parse(String),
    MtuTooSmall(u16),
    InvalidSubnet,
    EmptyUsername,
    DuplicateUser(String),
    InvalidHash,
    EmptyServerName,
    EmptyCaCert,
}

impl ConfigError {
    /// The text of the error.
    pub open spec fn text(self) -> Seq<char> {
        match self {
            ConfigError::Io(what) => "failed to read config file: "@ + what@,
            ConfigError::Parse(what) => "failed to parse config: "@ + what@,
            ConfigError::MtuTooSmall(mtu) => "mtu "@ + text::decimal(mtu as nat)
                + " is smaller than minimum "@ + text::decimal(MIN_MTU as nat),
            ConfigError::InvalidSubnet =>
                "tun subnet is invalid or has no allocatable addresses"@,
            ConfigError::EmptyUsername => "user list contains an empty username"@,
            ConfigError::DuplicateUser(name) => "duplicate user: "@ + name@,
            ConfigError::InvalidHash => "password hash is not a valid argon2 PHC string"@,
            ConfigError::EmptyServerName => "server_name must not be empty"@,
            ConfigError::EmptyCaCert => "ca_cert must not be empty"@,
        }
    }

    /// The error in words.
    pub fn message(&self) -> (r: String)
        ensures
            r@ == self.text(),
    {
        match self {
            ConfigError::Io(what) => text::join2("failed to read config file: ", what.as_str()),
            ConfigError::Parse(what) => text::join2("failed to parse config: ", what.as_str()),
            ConfigError::MtuTooSmall(mtu) => {
                let mut r = "mtu ".to_string();
                text::push_decimal(&mut r, *mtu as u64);
                r.append(" is smaller than minimum ");
                text::push_decimal(&mut r, MIN_MTU as u64);
                r
            },
            ConfigError::InvalidSubnet =>
                "tun subnet is invalid or has no allocatable addresses".to_string(),
            ConfigError::EmptyUsername => "user list contains an empty username".to_string(),
            ConfigError::DuplicateUser(name) => text::join2("duplicate user: ", name.as_str()),
            ConfigError::InvalidHash =>
                "password hash is not a valid argon2 PHC string".to_string(),
            ConfigError::EmptyServerName => "server_name must not be empty".to_string(),
            ConfigError::EmptyCaCert => "ca_cert must not be empty".to_string(),
        }
    }
}

/// An address and a port to listen on or to talk to.
#[derive(Debug, Clone, Copy, PartialEq, Eq, Structural)]
pub enum SocketAddr {
    V4 { addr: Ipv4Addr, port: u16 },
    V6 { bits: u128, port: u16, flowinfo: u32, scope_id: u32 },
}

#[derive(Debug, Clone, PartialEq, Eq)]
pub struct UserConfig {
    pub username: String,
    pub password_hash: String,
}

#[derive(Debug, Clone, PartialEq, Eq)]
pub struct ServerConfig {
    pub listen: SocketAddr,
    pub tun_subnet: Ipv4Net,
    pub mtu: u16,
    pub cert: String,
    pub key: String,
    pub users: Vec<UserConfig>,
}

/// A user as it stands in the file.
#[derive(Debug, Clone, PartialEq, Eq)]
pub struct RawUser {
    pub username: String,
    pub password_hash: String,
}

/// The part of the file that is about the server.
#[derive(Debug, Clone, PartialEq, Eq)]
pub struct RawServer {
    pub listen: SocketAddr,
    pub tun_subnet: Ipv4Net,
    pub mtu: u16,
    pub cert: String,
    pub key: String,
}

/// The server's configuration as it stands in the file.
#[derive(Debug, Clone, PartialEq, Eq)]
pub struct RawConfig {
    pub server: RawServer,
    pub users: Vec<RawUser>,
}

/// Whether `pairs` are the names and hashes of `users`.
pub open spec fn same_users(users: Seq<RawUser>, pairs: Seq<(String, String)>) -> bool {
    &&& users.len() == pairs.len()
    &&& forall|i: int|
        0 <= i < users.len() ==> (#[trigger] pairs[i]).0@ == users[i].username@ && pairs[i].1@
            == users[i].password_hash@
}

/// The names and hashes of users.
pub open spec fn user_pairs(users: Seq<RawUser>) -> Seq<(String, String)> {
    users.map_values(|u: RawUser| (u.username, u.password_hash))
}

/// Pairs with the same texts have the same problems.
proof fn lemma_same_problems(
    users: Seq<RawUser>,
    pairs: Seq<(String, String)>,
    n: int,
)
    requires
        same_users(users, pairs),
        0 <= n <= users.len(),
    ensures
        auth::first_problem(pairs, n) == auth::first_problem(user_pairs(users), n),
    decreases n,
{
    if n > 0 {
        lemma_same_problems(users, pairs, n - 1);
        let want = user_pairs(users);
        let i = n - 1;
        assert(pairs[i].0@ == want[i].0@ && pairs[i].1@ == want[i].1@);
        if auth::named_before(pairs, i) {
            let j = choose|j: int| 0 <= j < i && (#[trigger] pairs[j]).0@ == pairs[i].0@;
            assert(want[j].0@ == want[i].0@);
        }
        if auth::named_before(want, i) {
            let j = choose|j: int| 0 <= j < i && (#[trigger] want[j]).0@ == want[i].0@;
            assert(pairs[j].0@ == pairs[i].0@);
        }
    }
}

/// What is wrong with the users of a configuration.
pub open spec fn users_problem(users: Seq<RawUser>) -> Option<auth::UserProblem> {
    auth::first_problem(user_pairs(users), users.len() as int)
}

/// Whether an error says what `problem` says.
pub open spec fn config_tells(e: ConfigError, problem: Option<auth::UserProblem>) -> bool {
    match e {
        ConfigError::EmptyUsername => problem == Some(auth::UserProblem::Empty),
        ConfigError::DuplicateUser(name) => problem == Some(auth::UserProblem::Duplicate(name@)),
        ConfigError::InvalidHash => problem == Some(auth::UserProblem::Hash),
        _ => false,
    }
}

/// What a look at the users amounts to. That credentials are wrong is no matter here.
pub fn map_user_error(res: Result<UserStore, AuthError>) -> (r: Result<(), ConfigError>)
    ensures
        match res {
            Ok(_) => r is Ok,
            Err(AuthError::InvalidCredentials) => r is Ok,
            Err(AuthError::EmptyUsername) => r == Err::<(), ConfigError>(
                ConfigError::EmptyUsername,
            ),
            Err(AuthError::DuplicateUser(name)) => r == Err::<(), ConfigError>(
                ConfigError::DuplicateUser(name),
            ),
            Err(AuthError::InvalidHash) => r == Err::<(), ConfigError>(ConfigError::InvalidHash),
        },
{
    match res {
        Ok(_) => Ok(()),
        Err(AuthError::InvalidCredentials) => Ok(()),
        Err(AuthError::EmptyUsername) => Err(ConfigError::EmptyUsername),
        Err(AuthError::DuplicateUser(name)) => Err(ConfigError::DuplicateUser(name)),
        Err(AuthError::InvalidHash) => Err(ConfigError::InvalidHash),
    }
}

impl ServerConfig {
    /// Looks at a configuration that was read: first at the MTU, then at the subnet, which must
    /// leave addresses to hand out, then at the users.
    pub fn from_raw(raw: RawConfig) -> (r: Result<ServerConfig, ConfigError>)
        ensures
            match r {
                Ok(cfg) => {
                    &&& raw.server.mtu >= MIN_MTU
                    &&& 1 <= raw.server.tun_subnet@.prefix <= 30
                    &&& users_problem(raw.users@) is None
                    &&& cfg.listen == raw.server.listen
                    &&& cfg.tun_subnet == raw.server.tun_subnet
                    &&& cfg.mtu == raw.server.mtu
                    &&& cfg.cert == raw.server.cert
                    &&& cfg.key == raw.server.key
                    &&& cfg.users@.len() == raw.users@.len()
                    &&& forall|i: int|
                        0 <= i < cfg.users@.len() ==> (#[trigger] cfg.users@[i]).username@
                            == raw.users@[i].username@ && cfg.users@[i].password_hash@
                            == raw.users@[i].password_hash@
                },
                Err(ConfigError::MtuTooSmall(mtu)) => mtu == raw.server.mtu && mtu < MIN_MTU,
                Err(ConfigError::InvalidSubnet) => {
                    &&& raw.server.mtu >= MIN_MTU
                    &&& !(1 <= raw.server.tun_subnet@.prefix <= 30)
                },
                Err(e) => {
                    &&& raw.server.mtu >= MIN_MTU
                    &&& 1 <= raw.server.tun_subnet@.prefix <= 30
                    &&& config_tells(e, users_problem(raw.users@))
                },
            },
    {
        let server = raw.server;
        if server.mtu < MIN_MTU {
            return Err(ConfigError::MtuTooSmall(server.mtu));
        }
        let tun_subnet = server.tun_subnet;
        if IpPool::new(tun_subnet).is_err() {
            return Err(ConfigError::InvalidSubnet);
        }
        let mut users: Vec<UserConfig> = Vec::new();
        let mut pairs: Vec<(String, String)> = Vec::new();
        let mut i: usize = 0;
        while i < raw.users.len()
            invariant
                i <= raw.users@.len(),
                users@.len() == i,
                pairs@.len() == i,
                forall|j: int|
                    0 <= j < i ==> (#[trigger] users@[j]).username@ == raw.users@[j].username@
                        && users@[j].password_hash@ == raw.users@[j].password_hash@,
                forall|j: int|
                    0 <= j < i ==> (#[trigger] pairs@[j]).0@ == raw.users@[j].username@
                        && pairs@[j].1@ == raw.users@[j].password_hash@,
            decreases raw.users@.len() - i,
        {
            let u = &raw.users[i];
            pairs.push((u.username.clone(), u.password_hash.clone()));
            users.push(
                UserConfig {
                    username: u.username.clone(),
                    password_hash: u.password_hash.clone(),
                },
            );
            i = i + 1;
        }
        proof {
            lemma_same_problems(raw.users@, pairs@, pairs@.len() as int);
        }
        match map_user_error(UserStore::from_users(pairs)) {
            Ok(()) => {},
            Err(e) => {
                return Err(e);
            },
        }
        Ok(
            ServerConfig {
                listen: server.listen,
                tun_subnet,
                mtu: server.mtu,
                cert: server.cert,
                key: server.key,
                users,
            },
        )
    }
}

/// A subnet that a configuration may have leaves at least one address to hand out.
pub proof fn law_accepted_subnet_has_addresses(subnet: net::NetModel)
    requires
        subnet.wf(),
        1 <= subnet.prefix <= 30,
    ensures
        ipam::PoolModel::fresh(subnet).free.len() >= 1,
{
    ipam::law_fresh_pool_has_all_but_three(subnet);
}

#[derive(Debug, Clone, PartialEq, Eq)]
pub struct ClientConfig {
    pub server: SocketAddr,
    pub server_name: String,
    pub ca_cert: String,
}

/// The part of the file that is about the client.
#[derive(Debug, Clone, PartialEq, Eq)]
pub struct RawClient {
    pub server: SocketAddr,
    pub server_name: String,
    pub ca_cert: String,
}

/// The client's configuration as it stands in the file.
#[derive(Debug, Clone, PartialEq, Eq)]
pub struct RawClientConfig {
    pub client: RawClient,
}

impl ClientConfig {
    /// Looks at a configuration that was read: neither the server's name nor the path of the
    /// certificate may be empty.
    pub fn from_raw(raw: RawClientConfig) -> (r: Result<ClientConfig, ConfigError>)
        ensures
            r == if raw.client.server_name@.len() == 0 {
                Err::<ClientConfig, ConfigError>(ConfigError::EmptyServerName)
            } else if raw.client.ca_cert@.len() == 0 {
                Err(ConfigError::EmptyCaCert)
            } else {
                Ok(
                    (ClientConfig {
                        server: raw.client.server,
                        server_name: raw.client.server_name,
                        ca_cert: raw.client.ca_cert,
                    }),
                )
            },
    {
        if raw.client.server_name.as_str().is_empty() {
            return Err(ConfigError::EmptyServerName);
        }
        if raw.client.ca_cert.as_str().is_empty() {
            return Err(ConfigError::EmptyCaCert);
        }
        Ok(
            ClientConfig {
                server: raw.client.server,
                server_name: raw.client.server_name,
                ca_cert: raw.client.ca_cert,
            },
        )
    }
}

/// What is wrong with the users of a configuration is what is wrong with the list of their names
/// and hashes.
pub proof fn law_users_are_looked_at_as_a_list(
    users: Seq<RawUser>,
    list: Seq<(String, String)>,
)
    requires
        list.len() == users.len(),
        forall|i: int|
            0 <= i < users.len() ==> (#[trigger] list[i]).0@ == users[i].username@ && list[i].1@
                == users[i].password_hash@,
    ensures
        users_problem(users) == auth::first_problem(list, list.len() as int),
{
    lemma_same_problems(users, list, list.len() as int);
}

/// Each problem with a user has an error of its own.
pub proof fn law_user_problems_have_their_errors(name: String, e: ConfigError)
    ensures
        config_tells(e, Some(auth::UserProblem::Empty)) <==> e == ConfigError::EmptyUsername,
        config_tells(
            ConfigError::DuplicateUser(name),
            Some(auth::UserProblem::Duplicate(name@)),
        ),
        config_tells(e, Some(auth::UserProblem::Duplicate(name@))) ==> (e
            matches ConfigError::DuplicateUser(s) && s@ == name@),
        config_tells(e, Some(auth::UserProblem::Hash)) <==> e == ConfigError::InvalidHash,
        !config_tells(e, None),
{
}

/// What the errors of a configuration say.
pub proof fn law_config_errors_have_their_words(what: String, mtu: u16)
    ensures
        MIN_MTU == 1280,
        ConfigError::Io(what).text() == "failed to read config file: "@ + what@,
        ConfigError::Parse(what).text() == "failed to parse config: "@ + what@,
        ConfigError::MtuTooSmall(mtu).text() == "mtu "@ + text::decimal(mtu as nat)
            + " is smaller than minimum "@ + text::decimal(1280),
        ConfigError::InvalidSubnet.text()
            == "tun subnet is invalid or has no allocatable addresses"@,
        ConfigError::EmptyUsername.text() == "user list contains an empty username"@,
        ConfigError::DuplicateUser(what).text() == "duplicate user: "@ + what@,
        ConfigError::InvalidHash.text() == "password hash is not a valid argon2 PHC string"@,
        ConfigError::EmptyServerName.text() == "server_name must not be empty"@,
        ConfigError::EmptyCaCert.text() == "ca_cert must not be empty"@,
{
}

/// A client's configuration is taken if and only if neither the server's name nor the path of the
/// certificate is empty, and then as it stands.
pub proof fn law_client_config_is_taken_as_it_stands(
    raw: RawClientConfig,
    r: Result<ClientConfig, ConfigError>,
)
    requires
        call_ensures(ClientConfig::from_raw, (raw,), r),
    ensures
        r is Ok <==> raw.client.server_name@.len() > 0 && raw.client.ca_cert@.len() > 0,
        r matches Ok(cfg) ==> cfg.server == raw.client.server && cfg.server_name
            == raw.client.server_name && cfg.ca_cert == raw.client.ca_cert,
{
}

/// A server's configuration is taken if and only if its MTU is at least 1280, its subnet has
/// addresses to hand out, and nothing is wrong with its users; and then as it stands.
pub proof fn law_server_config_is_taken_as_it_stands(
    raw: RawConfig,
    r: Result<ServerConfig, ConfigError>,
)
    requires
        call_ensures(ServerConfig::from_raw, (raw,), r),
    ensures
        r is Ok <==> raw.server.mtu >= 1280 && 1 <= raw.server.tun_subnet@.prefix <= 30
            && users_problem(raw.users@) is None,
        r matches Ok(cfg) ==> cfg.listen == raw.server.listen && cfg.tun_subnet
            == raw.server.tun_subnet && cfg.mtu == raw.server.mtu && cfg.cert == raw.server.cert
            && cfg.key == raw.server.key && cfg.users@.len() == raw.users@.len(),
{
}

} // verus!
