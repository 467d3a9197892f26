//! How a client gets in: it connects, hears what the server offers, shows who it is, and is
//! handed its place in the network.
use vstd::prelude::*;

use crate::client::ClientTunParams;
use crate::config;
use crate::config::{ClientConfig, SocketAddr};
use crate::ctrl;
use crate::msgx::codec::FrameError;
use crate::net;
use crate::net::{Ipv4Addr, Ipv4Net};
use crate::quic_link::endpoint::ClientBuilder;
use crate::text;
use crate::vpn;
use crate::vpn::{
    AuthChallenge, AuthInit, AuthMethod, AuthOk, AuthRequest, AuthResponse, ControlMessage,
    DenyReason, Heartbeat, Msg,
};

verus! {

/// Why a client does not get in.
#[derive(Debug, Clone, PartialEq, Eq)]
pub enum ClientError {
    InvalidAssignedIp(String),
    InvalidGateway(String),
    InvalidSubnet(String),
    MtuTooSmall(u32),
    MtuTooLarge(u32),
    GatewayOutsideSubnet(Ipv4Addr, Ipv4Net),
    GatewayIsNetworkAddr(Ipv4Addr),
    InvalidRoute(String),
    AuthDenied(String),
    IncompatibleVersion(u32),
    Protocol(String),
}

impl ClientError {
    /// The text of the error.
    pub open spec fn text(self) -> Seq<char> {
        match self {
            ClientError::InvalidAssignedIp(s) => "AuthOk contains invalid assigned_ip: "@ + s@,
            ClientError::InvalidGateway(s) => "AuthOk contains invalid gateway: "@ + s@,
            ClientError::InvalidSubnet(s) => "AuthOk contains invalid subnet: "@ + s@,
            ClientError::MtuTooSmall(mtu) => "AuthOk mtu "@ + text::decimal(mtu as nat)
                + " is smaller than minimum "@ + text::decimal(config::MIN_MTU as nat),
            ClientError::MtuTooLarge(mtu) => "AuthOk mtu "@ + text::decimal(mtu as nat)
                + " exceeds maximum 65535"@,
            ClientError::GatewayOutsideSubnet(gateway, subnet) => "AuthOk gateway "@
                + net::addr_text(gateway.bits as int) + " is not inside subnet "@
                + subnet@.text(),
            ClientError::GatewayIsNetworkAddr(gateway) => "AuthOk gateway "@ + net::addr_text(
                gateway.bits as int,
            ) + " equals the subnet network address"@,
            ClientError::InvalidRoute(s) => "AuthOk contains invalid route CIDR: "@ + s@,
            ClientError::AuthDenied(why) => "authentication failed: "@ + why@,
            ClientError::IncompatibleVersion(version) =>
                "incompatible protocol version: server="@ + text::decimal(version as nat)
                + ", client="@ + text::decimal(ctrl::PROTOCOL_VERSION as nat),
            ClientError::Protocol(what) => "protocol error: "@ + what@,
        }
    }

    /// The error in words.
    pub fn message(&self) -> (r: String)
        ensures
            r@ == self.text(),
    {
        match self {
            ClientError::InvalidAssignedIp(s) => text::join2(
                "AuthOk contains invalid assigned_ip: ",
                s.as_str(),
            ),
            ClientError::InvalidGateway(s) => text::join2(
                "AuthOk contains invalid gateway: ",
                s.as_str(),
            ),
            ClientError::InvalidSubnet(s) => text::join2(
                "AuthOk contains invalid subnet: ",
                s.as_str(),
            ),
            ClientError::MtuTooSmall(mtu) => {
                let mut r = "AuthOk mtu ".to_string();
                text::push_decimal(&mut r, *mtu as u64);
                r.append(" is smaller than minimum ");
                text::push_decimal(&mut r, config::MIN_MTU as u64);
                r
            },
            ClientError::MtuTooLarge(mtu) => {
                let mut r = "AuthOk mtu ".to_string();
                text::push_decimal(&mut r, *mtu as u64);
                r.append(" exceeds maximum 65535");
                r
            },
            ClientError::GatewayOutsideSubnet(gateway, subnet) => {
                let mut r = text::join2("AuthOk gateway ", gateway.to_text().as_str());
                r.append(" is not inside subnet ");
                r.append(subnet.to_text().as_str());
                r
            },
            ClientError::GatewayIsNetworkAddr(gateway) => text::join3(
                "AuthOk gateway ",
                gateway.to_text().as_str(),
                " equals the subnet network address",
            ),
            ClientError::InvalidRoute(s) => text::join2(
                "AuthOk contains invalid route CIDR: ",
                s.as_str(),
            ),
            ClientError::AuthDenied(why) => text::join2("authentication failed: ", why.as_str()),
            ClientError::IncompatibleVersion(version) => {
                let mut r = "incompatible protocol version: server=".to_string();
                text::push_decimal(&mut r, *version as u64);
                r.append(", client=");
                text::push_decimal(&mut r, ctrl::PROTOCOL_VERSION as u64);
                r
            },
            ClientError::Protocol(what) => text::join2("protocol error: ", what.as_str()),
        }
    }
}

/// Whether a text is that of an address.
pub open spec fn is_addr(s: Seq<char>) -> bool {
    exists|a: Ipv4Addr| s == #[trigger] net::addr_text(a.bits as int)
}

/// Whether a text is that of a network.
pub open spec fn is_net(s: Seq<char>) -> bool {
    exists|n: net::NetModel| #[trigger] net::is_cidr_text(s, n)
}

/// Whether an MTU can be used.
pub open spec fn mtu_fits(mtu: u32) -> bool {
    config::MIN_MTU <= mtu <= u16::MAX
}

/// Whether a network can have a gateway at this address: in it, but not its own address.
pub open spec fn can_be_gateway(gateway: Ipv4Addr, subnet: net::NetModel) -> bool {
    subnet.holds(gateway.bits as int) && gateway.bits != subnet.network()
}

/// Whether the addresses in the server's message can be read as these.
pub open spec fn reads_as(
    ok: AuthOk,
    assigned_ip: Ipv4Addr,
    gateway: Ipv4Addr,
    subnet: net::NetModel,
) -> bool {
    &&& ok.assigned_ip@ == net::addr_text(assigned_ip.bits as int)
    &&& ok.gateway@ == net::addr_text(gateway.bits as int)
    &&& net::is_cidr_text(ok.subnet@, subnet)
}

/// Whether the addresses, the MTU and the gateway in the server's message are all in order.
pub open spec fn place_is_sound(ok: AuthOk) -> bool {
    &&& mtu_fits(ok.mtu)
    &&& exists|assigned_ip: Ipv4Addr, gateway: Ipv4Addr, subnet: net::NetModel|
        #[trigger] reads_as(ok, assigned_ip, gateway, subnet) && can_be_gateway(gateway, subnet)
}

/// Whether `routes` are the networks that the texts `raw` stand for.
pub open spec fn routes_read_as(raw: Seq<String>, routes: Seq<Ipv4Net>) -> bool {
    &&& raw.len() == routes.len()
    &&& forall|i: int|
        0 <= i < raw.len() ==> net::is_cidr_text((#[trigger] raw[i])@, routes[i]@)
}

/// Whether `bad` is the first text that stands for no network.
pub open spec fn first_bad_route(raw: Seq<String>, bad: Seq<char>) -> bool {
    exists|i: int|
        {
            &&& 0 <= i < raw.len()
            &&& (#[trigger] raw[i])@ == bad
            &&& !is_net(raw[i]@)
            &&& forall|j: int| 0 <= j < i ==> is_net((#[trigger] raw[j])@)
        }
}

/// What a client makes of the server's message that it may come in: first the addresses are
/// looked at, then the MTU, then the gateway, then the routes.
pub open spec fn place_outcome(ok: AuthOk, r: Result<ClientTunParams, ClientError>) -> bool {
    match r {
        Ok(p) => {
            &&& reads_as(ok, p.assigned_ip, p.gateway, p.subnet@)
            &&& mtu_fits(ok.mtu)
            &&& p.mtu == ok.mtu
            &&& can_be_gateway(p.gateway, p.subnet@)
            &&& routes_read_as(ok.routes@, p.routes@)
        },
        Err(ClientError::InvalidAssignedIp(s)) => s@ == ok.assigned_ip@ && !is_addr(s@),
        Err(ClientError::InvalidGateway(s)) => {
            &&& s@ == ok.gateway@
            &&& !is_addr(s@)
            &&& is_addr(ok.assigned_ip@)
        },
        Err(ClientError::InvalidSubnet(s)) => {
            &&& s@ == ok.subnet@
            &&& !is_net(s@)
            &&& is_addr(ok.assigned_ip@)
            &&& is_addr(ok.gateway@)
        },
        Err(ClientError::MtuTooSmall(mtu)) => {
            &&& mtu == ok.mtu
            &&& mtu < config::MIN_MTU
            &&& is_addr(ok.assigned_ip@)
            &&& is_addr(ok.gateway@)
            &&& is_net(ok.subnet@)
        },
        Err(ClientError::MtuTooLarge(mtu)) => {
            &&& mtu == ok.mtu
            &&& mtu > u16::MAX
            &&& is_addr(ok.assigned_ip@)
            &&& is_addr(ok.gateway@)
            &&& is_net(ok.subnet@)
        },
        Err(ClientError::GatewayOutsideSubnet(gateway, subnet)) => {
            &&& mtu_fits(ok.mtu)
            &&& is_addr(ok.assigned_ip@)
            &&& ok.gateway@ == net::addr_text(gateway.bits as int)
            &&& net::is_cidr_text(ok.subnet@, subnet@)
            &&& !subnet@.holds(gateway.bits as int)
        },
        Err(ClientError::GatewayIsNetworkAddr(gateway)) => {
            &&& mtu_fits(ok.mtu)
            &&& is_addr(ok.assigned_ip@)
            &&& ok.gateway@ == net::addr_text(gateway.bits as int)
            &&& exists|subnet: net::NetModel| #[trigger]
                net::is_cidr_text(ok.subnet@, subnet) && gateway.bits == subnet.network()
        },
        Err(ClientError::InvalidRoute(s)) => place_is_sound(ok) && first_bad_route(
            ok.routes@,
            s@,
        ),
        Err(_) => false,
    }
}

/// Reads the addresses in the server's message.
fn parse_endpoint_addrs(ok: &AuthOk) -> (r: Result<(Ipv4Addr, Ipv4Addr, Ipv4Net), ClientError>)
    ensures
        match r {
            Ok((assigned_ip, gateway, subnet)) => {
                &&& reads_as(*ok, assigned_ip, gateway, subnet@)
                &&& is_addr(ok.assigned_ip@)
                &&& is_addr(ok.gateway@)
                &&& is_net(ok.subnet@)
            },
            Err(ClientError::InvalidAssignedIp(_))
            | Err(ClientError::InvalidGateway(_))
            | Err(ClientError::InvalidSubnet(_)) => place_outcome(
                *ok,
                Err(r->Err_0),
            ),
            Err(_) => false,
        },
{
    let assigned_ip = match Ipv4Addr::parse(ok.assigned_ip.as_str()) {
        Some(a) => a,
        None => {
            return Err(ClientError::InvalidAssignedIp(ok.assigned_ip.clone()));
        },
    };
    assert(is_addr(ok.assigned_ip@));
    let gateway = match Ipv4Addr::parse(ok.gateway.as_str()) {
        Some(a) => a,
        None => {
            return Err(ClientError::InvalidGateway(ok.gateway.clone()));
        },
    };
    assert(is_addr(ok.gateway@));
    let subnet = match Ipv4Net::parse(ok.subnet.as_str()) {
        Some(n) => n,
        None => {
            return Err(ClientError::InvalidSubnet(ok.subnet.clone()));
        },
    };
    Ok((assigned_ip, gateway, subnet))
}

/// Looks at the MTU in the server's message.
pub fn validate_mtu(raw: u32) -> (r: Result<u16, ClientError>)
    ensures
        match r {
            Ok(mtu) => mtu == raw && mtu_fits(raw),
            Err(e) => e == if raw < config::MIN_MTU {
                ClientError::MtuTooSmall(raw)
            } else {
                ClientError::MtuTooLarge(raw)
            } && !mtu_fits(raw),
        },
        r is Ok <==> 1280 <= raw <= 65535,
{
    if raw < config::MIN_MTU as u32 {
        return Err(ClientError::MtuTooSmall(raw));
    }
    if raw > u16::MAX as u32 {
        return Err(ClientError::MtuTooLarge(raw));
    }
    Ok(raw as u16)
}

/// Looks at the gateway in the server's message.
fn validate_gateway(gateway: Ipv4Addr, subnet: Ipv4Net) -> (r: Result<(), ClientError>)
    ensures
        match r {
            Ok(()) => can_be_gateway(gateway, subnet@),
            Err(e) => e == if !subnet@.holds(gateway.bits as int) {
                ClientError::GatewayOutsideSubnet(gateway, subnet)
            } else {
                ClientError::GatewayIsNetworkAddr(gateway)
            } && !can_be_gateway(gateway, subnet@),
        },
{
    if !subnet.contains(gateway) {
        return Err(ClientError::GatewayOutsideSubnet(gateway, subnet));
    }
    if gateway.bits == subnet.network().bits {
        return Err(ClientError::GatewayIsNetworkAddr(gateway));
    }
    Ok(())
}

/// Reads the routes in the server's message.
fn parse_routes(raw: &Vec<String>) -> (r: Result<Vec<Ipv4Net>, ClientError>)
    ensures
        match r {
            Ok(routes) => routes_read_as(raw@, routes@),
            Err(ClientError::InvalidRoute(s)) => first_bad_route(raw@, s@),
            Err(_) => false,
        },
{
    let mut routes: Vec<Ipv4Net> = Vec::new();
    let mut i: usize = 0;
    while i < raw.len()
        invariant
            i <= raw@.len(),
            routes@.len() == i,
            forall|j: int| 0 <= j < i ==> net::is_cidr_text((#[trigger] raw@[j])@, routes@[j]@),
        decreases raw@.len() - i,
    {
        match Ipv4Net::parse(raw[i].as_str()) {
            Some(n) => {
                routes.push(n);
            },
            None => {
                let bad = raw[i].clone();
                proof {
                    assert(raw@[i as int]@ == bad@);
                    assert forall|j: int| 0 <= j < i implies is_net((#[trigger] raw@[j])@) by {
                        assert(net::is_cidr_text(raw@[j]@, routes@[j]@));
                    }
                }
                return Err(ClientError::InvalidRoute(bad));
            },
        }
        i = i + 1;
    }
    Ok(routes)
}

/// What a client makes of the server's message that it may come in.
pub fn parse_auth_ok(ok: &AuthOk) -> (r: Result<ClientTunParams, ClientError>)
    ensures
        place_outcome(*ok, r),
{
    let (assigned_ip, gateway, subnet) = match parse_endpoint_addrs(ok) {
        Ok(addrs) => addrs,
        Err(e) => {
            return Err(e);
        },
    };
    let mtu = match validate_mtu(ok.mtu) {
        Ok(mtu) => mtu,
        Err(e) => {
            return Err(e);
        },
    };
    match validate_gateway(gateway, subnet) {
        Ok(()) => {},
        Err(e) => {
            return Err(e);
        },
    }
    assert(place_is_sound(*ok)) by {
        assert(reads_as(*ok, assigned_ip, gateway, subnet@));
    }
    let routes = match parse_routes(&ok.routes) {
        Ok(routes) => routes,
        Err(e) => {
            return Err(e);
        },
    };
    Ok(ClientTunParams { assigned_ip, subnet, gateway, mtu, routes })
}

/// The server's message determines what the client makes of it: the place in the network that
/// it stands for, or else what the client finds wrong with it first.
pub proof fn law_place_is_determined(
    ok: AuthOk,
    x: Result<ClientTunParams, ClientError>,
    y: Result<ClientTunParams, ClientError>,
)
    requires
        place_outcome(ok, x),
        place_outcome(ok, y),
    ensures
        x is Ok <==> y is Ok,
        x is Ok ==> {
            &&& x->Ok_0.assigned_ip == y->Ok_0.assigned_ip
            &&& x->Ok_0.gateway == y->Ok_0.gateway
            &&& x->Ok_0.subnet@ == y->Ok_0.subnet@
            &&& x->Ok_0.mtu == y->Ok_0.mtu
            &&& x->Ok_0.routes@.len() == y->Ok_0.routes@.len()
            &&& forall|i: int|
                0 <= i < x->Ok_0.routes@.len() ==> (#[trigger] x->Ok_0.routes@[i])@
                    == y->Ok_0.routes@[i]@
        },
        x is Err ==> x->Err_0.text() == y->Err_0.text(),
{
    if x is Err && y is Err {
        lemma_same_refusal(ok, x->Err_0, y->Err_0);
    }
    if x is Ok {
        lemma_sound_place_is_taken(ok, x->Ok_0, y);
        let p = x->Ok_0;
        let q = y->Ok_0;
        net::law_addr_text_is_unique(p.assigned_ip, q.assigned_ip);
        net::law_addr_text_is_unique(p.gateway, q.gateway);
        net::lemma_cidr_text_unique(ok.subnet@, p.subnet@, q.subnet@);
        assert forall|i: int| 0 <= i < p.routes@.len() implies (#[trigger] p.routes@[i])@
            == q.routes@[i]@ by {
            net::lemma_cidr_text_unique(ok.routes@[i]@, p.routes@[i]@, q.routes@[i]@);
        }
    }
    if y is Ok {
        lemma_sound_place_is_taken(ok, y->Ok_0, x);
    }
}

/// A message is refused for one reason only.
proof fn lemma_same_refusal(ok: AuthOk, e: ClientError, f: ClientError)
    requires
        place_outcome(ok, Err(e)),
        place_outcome(ok, Err(f)),
    ensures
        e.text() == f.text(),
{
    lemma_refusal_reads(ok, e);
    lemma_refusal_reads(ok, f);
    lemma_gateway_refusal(ok, e, f);
    lemma_gateway_refusal(ok, f, e);
    if let (ClientError::InvalidRoute(a), ClientError::InvalidRoute(b)) = (e, f) {
        let i = choose|i: int|
            {
                &&& 0 <= i < ok.routes@.len()
                &&& (#[trigger] ok.routes@[i])@ == a@
                &&& !is_net(ok.routes@[i]@)
                &&& forall|j: int| 0 <= j < i ==> is_net((#[trigger] ok.routes@[j])@)
            };
        let j = choose|j: int|
            {
                &&& 0 <= j < ok.routes@.len()
                &&& (#[trigger] ok.routes@[j])@ == b@
                &&& !is_net(ok.routes@[j]@)
                &&& forall|k: int| 0 <= k < j ==> is_net((#[trigger] ok.routes@[k])@)
            };
        assert(i == j);
    }
}

/// How much of a message that is refused could be read.
proof fn lemma_refusal_reads(ok: AuthOk, e: ClientError)
    requires
        place_outcome(ok, Err(e)),
    ensures
        e is GatewayOutsideSubnet || e is GatewayIsNetworkAddr || e is InvalidRoute ==> {
            &&& mtu_fits(ok.mtu)
            &&& is_addr(ok.assigned_ip@)
            &&& is_addr(ok.gateway@)
            &&& is_net(ok.subnet@)
        },
{
    match e {
        ClientError::GatewayOutsideSubnet(gateway, subnet) => {
            assert(is_addr(net::addr_text(gateway.bits as int)));
            assert(net::is_cidr_text(ok.subnet@, subnet@));
        },
        ClientError::GatewayIsNetworkAddr(gateway) => {
            assert(is_addr(net::addr_text(gateway.bits as int)));
        },
        ClientError::InvalidRoute(_) => {
            let (a, g, n) = choose|a: Ipv4Addr, g: Ipv4Addr, n: net::NetModel|
                #[trigger] reads_as(ok, a, g, n) && can_be_gateway(g, n);
            assert(is_addr(net::addr_text(a.bits as int)));
            assert(is_addr(net::addr_text(g.bits as int)));
        },
        _ => {},
    }
}

/// A gateway outside of its network is refused for that alone, and so is one at the network's
/// own address.
proof fn lemma_gateway_refusal(ok: AuthOk, e: ClientError, f: ClientError)
    requires
        place_outcome(ok, Err(e)),
        place_outcome(ok, Err(f)),
    ensures
        e is GatewayOutsideSubnet && f is GatewayOutsideSubnet ==> e.text() == f.text(),
        e is GatewayIsNetworkAddr && f is GatewayIsNetworkAddr ==> e.text() == f.text(),
        e is GatewayOutsideSubnet ==> !(f is GatewayIsNetworkAddr) && !(f is InvalidRoute),
        e is GatewayIsNetworkAddr ==> !(f is InvalidRoute),
{
    let (gateway, subnet) = match e {
        ClientError::GatewayOutsideSubnet(g, n) => (g, n@),
        ClientError::GatewayIsNetworkAddr(g) => (
            g,
            choose|n: net::NetModel| #[trigger]
                net::is_cidr_text(ok.subnet@, n) && g.bits == n.network(),
        ),
        _ => arbitrary(),
    };
    if e is GatewayOutsideSubnet || e is GatewayIsNetworkAddr {
        net::lemma_network_bounds(subnet);
        match f {
            ClientError::GatewayOutsideSubnet(g, n) => {
                net::law_addr_text_is_unique(g, gateway);
                net::lemma_cidr_text_unique(ok.subnet@, n@, subnet);
            },
            ClientError::GatewayIsNetworkAddr(g) => {
                let n = choose|n: net::NetModel| #[trigger]
                    net::is_cidr_text(ok.subnet@, n) && g.bits == n.network();
                net::law_addr_text_is_unique(g, gateway);
                net::lemma_cidr_text_unique(ok.subnet@, n, subnet);
            },
            ClientError::InvalidRoute(_) => {
                let (a, g, n) = choose|a: Ipv4Addr, g: Ipv4Addr, n: net::NetModel|
                    #[trigger] reads_as(ok, a, g, n) && can_be_gateway(g, n);
                net::law_addr_text_is_unique(g, gateway);
                net::lemma_cidr_text_unique(ok.subnet@, n, subnet);
            },
            _ => {},
        }
    }
}

/// A message that is in order is not refused.
proof fn lemma_sound_place_is_taken(
    ok: AuthOk,
    p: ClientTunParams,
    y: Result<ClientTunParams, ClientError>,
)
    requires
        place_outcome(ok, Ok(p)),
        place_outcome(ok, y),
    ensures
        y is Ok,
{
    assert(is_addr(ok.assigned_ip@));
    assert(is_addr(ok.gateway@));
    assert(is_net(ok.subnet@));
    if let Err(e) = y {
        match e {
            ClientError::GatewayOutsideSubnet(gateway, subnet) => {
                net::law_addr_text_is_unique(gateway, p.gateway);
                net::lemma_cidr_text_unique(ok.subnet@, subnet@, p.subnet@);
            },
            ClientError::GatewayIsNetworkAddr(gateway) => {
                let subnet = choose|subnet: net::NetModel| #[trigger]
                    net::is_cidr_text(ok.subnet@, subnet) && gateway.bits == subnet.network();
                net::law_addr_text_is_unique(gateway, p.gateway);
                net::lemma_cidr_text_unique(ok.subnet@, subnet, p.subnet@);
            },
            ClientError::InvalidRoute(s) => {
                let i = choose|i: int|
                    {
                        &&& 0 <= i < ok.routes@.len()
                        &&& (#[trigger] ok.routes@[i])@ == s@
                        &&& !is_net(ok.routes@[i]@)
                        &&& forall|j: int| 0 <= j < i ==> is_net((#[trigger] ok.routes@[j])@)
                    };
                assert(net::is_cidr_text(ok.routes@[i]@, p.routes@[i]@));
            },
            _ => {},
        }
    }
}

/// A place that a server hands out from its own pool is one that a client takes: an address of
/// the pool, the gateway right behind the network's own address, an MTU that the server's
/// configuration may have, and any routes whose texts read as networks.
pub proof fn law_place_from_pool_is_taken(
    ok: AuthOk,
    subnet: net::NetModel,
    pool: crate::ipam::PoolModel,
    assigned: Ipv4Addr,
    gateway: Ipv4Addr,
    r: Result<ClientTunParams, ClientError>,
)
    requires
        subnet.wf(),
        1 <= subnet.prefix <= 30,
        pool.wf(),
        pool.network == subnet.network(),
        pool.total == subnet.size(),
        pool.is_lowest(assigned.bits - pool.network),
        gateway.bits == subnet.network() + 1,
        ok.assigned_ip@ == net::addr_text(assigned.bits as int),
        ok.gateway@ == net::addr_text(gateway.bits as int),
        ok.subnet@ == subnet.text(),
        mtu_fits(ok.mtu),
        forall|i: int| 0 <= i < ok.routes@.len() ==> is_net((#[trigger] ok.routes@[i])@),
        place_outcome(ok, r),
    ensures
        r matches Ok(p) && p.assigned_ip == assigned && p.gateway == gateway && p.subnet@
            == subnet && p.subnet@.holds(assigned.bits as int) && p.assigned_ip != p.gateway
            && p.mtu == ok.mtu && routes_read_as(ok.routes@, p.routes@),
{
    net::lemma_network_bounds(subnet);
    crate::ipam::law_fresh_pool_has_all_but_three(subnet);
    crate::ipam::law_alloc_stays_in_network(subnet, pool, assigned.bits as int);
    net::lemma_net_text_is_cidr(subnet);
    assert(reads_as(ok, assigned, gateway, subnet));
    assert(is_addr(ok.assigned_ip@));
    assert(is_addr(ok.gateway@));
    assert(is_net(ok.subnet@));
    match r {
        Ok(p) => {
            net::law_addr_text_is_unique(p.assigned_ip, assigned);
            net::law_addr_text_is_unique(p.gateway, gateway);
            net::lemma_cidr_text_unique(ok.subnet@, p.subnet@, subnet);
        },
        Err(ClientError::GatewayOutsideSubnet(g, n)) => {
            net::law_addr_text_is_unique(g, gateway);
            net::lemma_cidr_text_unique(ok.subnet@, n@, subnet);
        },
        Err(ClientError::GatewayIsNetworkAddr(g)) => {
            let n = choose|n: net::NetModel| #[trigger]
                net::is_cidr_text(ok.subnet@, n) && g.bits == n.network();
            net::law_addr_text_is_unique(g, gateway);
            net::lemma_cidr_text_unique(ok.subnet@, n, subnet);
        },
        Err(_) => {},
    }
}

/// What a client that is turned away is told.
pub open spec fn deny_text(reason: i32) -> Seq<char> {
    if reason == DenyReason::AuthFailed.number() {
        "认证失败（用户名或密码错误）"@
    } else if reason == DenyReason::ServerBusy.number() {
        "服务端繁忙（IP 池耗尽）"@
    } else {
        "未知拒绝原因"@
    }
}

/// What a client that is turned away is told.
pub fn deny_reason_text(reason: i32) -> (r: &'static str)
    ensures
        r@ == deny_text(reason),
{
    if reason == DenyReason::AuthFailed.as_i32() {
        "认证失败（用户名或密码错误）"
    } else if reason == DenyReason::ServerBusy.as_i32() {
        "服务端繁忙（IP 池耗尽）"
    } else {
        "未知拒绝原因"
    }
}

/// The name that a user has typed, without the spaces around it. It must not be empty.
pub fn validate_username(raw: &str) -> (r: Result<String, String>)
    ensures
        match r {
            Ok(name) => name@ == text::trimmed(raw@) && name@.len() > 0,
            Err(what) => text::trimmed(raw@).len() == 0 && what@ == "用户名不能为空"@,
        },
{
    let trimmed = text::trim(raw);
    if trimmed.is_empty() {
        return Err("用户名不能为空".to_string());
    }
    Ok(trimmed.to_string())
}

/// Why getting in failed: the server or its message is at fault, or the way to it.
#[derive(Debug, Clone, PartialEq, Eq)]
pub enum EntryError {
    Client(ClientError),
    Way(String),
}

impl EntryError {
    /// The text of the error.
    pub open spec fn text(self) -> Seq<char> {
        match self {
            EntryError::Client(e) => e.text(),
            EntryError::Way(what) => what@,
        }
    }

    /// The error in words.
    pub fn message(&self) -> (r: String)
        ensures
            r@ == self.text(),
    {
        match self {
            EntryError::Client(e) => e.message(),
            EntryError::Way(what) => what.clone(),
        }
    }
}

/// Whether an error says that the client was turned away, and why.
pub open spec fn says_denied(e: ClientError, reason: i32) -> bool {
    match e {
        ClientError::AuthDenied(why) => why@ == deny_text(reason),
        _ => false,
    }
}

/// Whether an error says that the other side does not keep to the protocol, and how.
pub open spec fn says_protocol(e: ClientError, what: Seq<char>) -> bool {
    match e {
        ClientError::Protocol(w) => w@ == what,
        _ => false,
    }
}

/// What a client makes of the server's answer to its name and password.
pub fn interpret_auth_response(first: ControlMessage) -> (r: Result<ClientTunParams, ClientError>)
    ensures
        match first.msg {
            Some(Msg::AuthOk(ok)) => place_outcome(ok, r),
            Some(Msg::AuthDenied(denied)) => r matches Err(e) && says_denied(e, denied.reason),
            _ => r matches Err(e) && says_protocol(
                e,
                "expected AuthOk but got an unexpected message"@,
            ),
        },
{
    match first.msg {
        Some(Msg::AuthOk(ok)) => parse_auth_ok(&ok),
        Some(Msg::AuthDenied(denied)) => Err(
            ClientError::AuthDenied(deny_reason_text(denied.reason).to_string()),
        ),
        _ => Err(
            ClientError::Protocol("expected AuthOk but got an unexpected message".to_string()),
        ),
    }
}

/// What a client that has given name and password makes of what then arrives.
pub open spec fn answer_outcome(
    received: Result<Option<ControlMessage>, FrameError>,
    r: Result<ClientTunParams, EntryError>,
) -> bool {
    match received {
        Ok(Some(first)) => match first.msg {
            Some(Msg::AuthOk(ok)) => match r {
                Ok(p) => place_outcome(ok, Ok(p)),
                Err(EntryError::Client(e)) => place_outcome(ok, Err(e)),
                Err(EntryError::Way(_)) => false,
            },
            Some(Msg::AuthDenied(denied)) => r matches Err(EntryError::Client(e)) && says_denied(
                e,
                denied.reason,
            ),
            _ => r matches Err(EntryError::Client(e)) && says_protocol(
                e,
                "expected AuthOk but got an unexpected message"@,
            ),
        },
        Ok(None) => r matches Err(EntryError::Way(what)) && what@
            == "control stream closed before AuthOk"@,
        Err(e) => r matches Err(EntryError::Way(what)) && what@
            == "failed to decode first response: "@ + e.text(),
    }
}

/// What a client that has sent its name and password makes of what then arrives.
pub fn first_response(received: Result<Option<ControlMessage>, FrameError>) -> (r: Result<
    ClientTunParams,
    EntryError,
>)
    ensures
        answer_outcome(received, r),
{
    match received {
        Ok(Some(first)) => match interpret_auth_response(first) {
            Ok(p) => Ok(p),
            Err(e) => Err(EntryError::Client(e)),
        },
        Ok(None) => Err(EntryError::Way("control stream closed before AuthOk".to_string())),
        Err(e) => Err(
            EntryError::Way(
                text::join2("failed to decode first response: ", e.message().as_str()),
            ),
        ),
    }
}

/// The methods that numbers stand for; numbers that stand for none are passed over.
pub open spec fn methods_of(raw: Seq<i32>) -> Seq<AuthMethod>
    decreases raw.len(),
{
    if raw.len() == 0 {
        Seq::empty()
    } else {
        match AuthMethod::of_number(raw.last()) {
            Some(m) => methods_of(raw.drop_last()).push(m),
            None => methods_of(raw.drop_last()),
        }
    }
}

/// The methods that numbers stand for.
pub fn parse_supported_methods(raw: &[i32]) -> (r: Vec<AuthMethod>)
    ensures
        r@ == methods_of(raw@),
{
    let mut r: Vec<AuthMethod> = Vec::new();
    let mut i: usize = 0;
    while i < raw.len()
        invariant
            i <= raw@.len(),
            r@ == methods_of(raw@.take(i as int)),
        decreases raw@.len() - i,
    {
        assert(raw@.take(i + 1).drop_last() =~= raw@.take(i as int));
        if let Some(m) = AuthMethod::from_i32(raw[i]) {
            r.push(m);
        }
        i = i + 1;
    }
    assert(raw@.take(i as int) =~= raw@);
    r
}

/// What a client makes of the server's greeting.
pub open spec fn greeting_outcome(
    received: Result<Option<ControlMessage>, FrameError>,
    r: Result<Vec<AuthMethod>, ClientError>,
) -> bool {
    match received {
        Ok(Some(first)) => match first.msg {
            Some(Msg::ServerHello(hello)) => if hello.protocol_version == ctrl::PROTOCOL_VERSION {
                r matches Ok(methods) && methods@ == methods_of(hello.supported_methods@)
            } else {
                r == Err::<Vec<AuthMethod>, ClientError>(
                    ClientError::IncompatibleVersion(hello.protocol_version),
                )
            },
            _ => r matches Err(e) && says_protocol(
                e,
                "expected ServerHello as first control message"@,
            ),
        },
        Ok(None) => r matches Err(e) && says_protocol(
            e,
            "control stream closed before ServerHello"@,
        ),
        Err(e) => r matches Err(c) && says_protocol(
            c,
            "failed to receive ServerHello: "@ + e.text(),
        ),
    }
}

/// What a client makes of the server's greeting: it must come first, and the server must speak
/// the same version.
pub fn validate_hello(received: Result<Option<ControlMessage>, FrameError>) -> (r: Result<
    Vec<AuthMethod>,
    ClientError,
>)
    ensures
        greeting_outcome(received, r),
{
    let first = match received {
        Ok(Some(first)) => first,
        Ok(None) => {
            return Err(
                ClientError::Protocol("control stream closed before ServerHello".to_string()),
            );
        },
        Err(e) => {
            return Err(
                ClientError::Protocol(
                    text::join2("failed to receive ServerHello: ", e.message().as_str()),
                ),
            );
        },
    };
    match first.msg {
        Some(Msg::ServerHello(hello)) => {
            if hello.protocol_version != ctrl::PROTOCOL_VERSION {
                return Err(ClientError::IncompatibleVersion(hello.protocol_version));
            }
            Ok(parse_supported_methods(hello.supported_methods.as_slice()))
        },
        _ => Err(
            ClientError::Protocol("expected ServerHello as first control message".to_string()),
        ),
    }
}

/// The message that opens the control stream.
pub fn open_signal() -> (m: ControlMessage)
    ensures
        m.msg is None,
{
    ControlMessage { msg: None }
}

/// The message that asks to be let in by name and password.
pub fn auth_request(username: &str, password: String) -> (m: ControlMessage)
    ensures
        m.msg matches Some(Msg::AuthRequest(q)) && q.username@ == username@ && q.password
            == password,
{
    ControlMessage {
        msg: Some(Msg::AuthRequest(AuthRequest { username: username.to_string(), password })),
    }
}

/// The message with which a client begins to show who it is.
pub fn auth_init(init: AuthInit) -> (m: ControlMessage)
    ensures
        m.msg == Some(Msg::AuthInit(init)),
{
    ControlMessage { msg: Some(Msg::AuthInit(init)) }
}

/// The message with which a client answers a challenge.
pub fn auth_response(response: AuthResponse) -> (m: ControlMessage)
    ensures
        m.msg == Some(Msg::AuthResponse(response)),
{
    ControlMessage { msg: Some(Msg::AuthResponse(response)) }
}

/// The message that says that this side is still there.
pub fn heartbeat() -> (m: ControlMessage)
    ensures
        m.msg == Some(Msg::Heartbeat(vpn::Heartbeat {  })),
{
    ControlMessage { msg: Some(Msg::Heartbeat(Heartbeat {  })) }
}

/// What the client's end is made from: it trusts the certificate and talks to the server that
/// the configuration names.
pub fn entry_builder(config: &ClientConfig) -> (b: ClientBuilder)
    ensures
        b.ca matches Some(ca) && ca@ == config.ca_cert@,
        b.server_name matches Some(name) && name@ == config.server_name@,
{
    ClientBuilder::default().trust_ca(config.ca_cert.clone()).server_name(
        config.server_name.clone(),
    )
}

/// What has happened on the way in.
#[derive(Debug)]
pub enum ConnectEvent {
    /// The client's end was built, or could not be.
    Built(Result<(), String>),
    /// The connection stands, or does not.
    Connected(Result<(), String>),
    /// The control stream was opened, or could not be.
    Opened(Result<(), String>),
    /// The message that opens the stream on the other side was sent, or could not be.
    Signalled(Result<(), String>),
    /// The server's greeting was waited for.
    Greeted(Result<Option<ControlMessage>, FrameError>),
}

/// What has to be done next on the way in.
#[derive(Debug)]
pub enum ConnectAction {
    Connect(SocketAddr),
    OpenStream,
    Send(ControlMessage),
    ReceiveGreeting,
    Ready(Vec<AuthMethod>),
    Fail(EntryError),
}

/// The next step on the way in: the client's end is built and connects, the control stream is
/// opened on both sides, and the server's greeting is waited for. The first step that fails is
/// the last.
pub fn connect_step(event: ConnectEvent, config: &ClientConfig) -> (r: ConnectAction)
    ensures
        match event {
            ConnectEvent::Built(Ok(())) => r == ConnectAction::Connect(config.server),
            ConnectEvent::Built(Err(_)) => r matches ConnectAction::Fail(EntryError::Way(what))
                && what@ == "failed to build client"@,
            ConnectEvent::Connected(Ok(())) => r == ConnectAction::OpenStream,
            ConnectEvent::Connected(Err(e)) => r == ConnectAction::Fail(EntryError::Way(e)),
            ConnectEvent::Opened(Ok(())) => r matches ConnectAction::Send(m) && m.msg is None,
            ConnectEvent::Opened(Err(_)) => r matches ConnectAction::Fail(EntryError::Way(what))
                && what@ == "failed to open control stream"@,
            ConnectEvent::Signalled(Ok(())) => r == ConnectAction::ReceiveGreeting,
            ConnectEvent::Signalled(Err(_)) => r matches ConnectAction::Fail(
                EntryError::Way(what),
            ) && what@ == "failed to open control stream on peer"@,
            ConnectEvent::Greeted(received) => match r {
                ConnectAction::Ready(methods) => greeting_outcome(received, Ok(methods)),
                ConnectAction::Fail(EntryError::Client(e)) => greeting_outcome(received, Err(e)),
                _ => false,
            },
        },
{
    match event {
        ConnectEvent::Built(Ok(())) => ConnectAction::Connect(config.server),
        ConnectEvent::Built(Err(_)) => ConnectAction::Fail(
            EntryError::Way("failed to build client".to_string()),
        ),
        ConnectEvent::Connected(Ok(())) => ConnectAction::OpenStream,
        ConnectEvent::Connected(Err(e)) => ConnectAction::Fail(EntryError::Way(e)),
        ConnectEvent::Opened(Ok(())) => ConnectAction::Send(open_signal()),
        ConnectEvent::Opened(Err(_)) => ConnectAction::Fail(
            EntryError::Way("failed to open control stream".to_string()),
        ),
        ConnectEvent::Signalled(Ok(())) => ConnectAction::ReceiveGreeting,
        ConnectEvent::Signalled(Err(_)) => ConnectAction::Fail(
            EntryError::Way("failed to open control stream on peer".to_string()),
        ),
        ConnectEvent::Greeted(received) => match validate_hello(received) {
            Ok(methods) => ConnectAction::Ready(methods),
            Err(e) => ConnectAction::Fail(EntryError::Client(e)),
        },
    }
}

/// What has happened while the client shows who it is.
#[derive(Debug)]
pub enum AuthEvent {
    /// The first message was sent, or could not be.
    InitSent(Result<(), String>),
    /// The answer to a challenge was sent, or could not be.
    ResponseSent(Result<(), String>),
    /// A message was waited for.
    Received(Result<Option<ControlMessage>, FrameError>),
}

/// What has to be done next while the client shows who it is.
#[derive(Debug)]
pub enum AuthAction {
    Receive,
    Answer(AuthChallenge),
    Done(ClientTunParams),
    Fail(EntryError),
}

/// What a client that shows who it is does with a message.
pub open spec fn auth_msg_outcome(msg: ControlMessage, r: AuthAction) -> bool {
    match msg.msg {
        Some(Msg::AuthOk(ok)) => match r {
            AuthAction::Done(p) => place_outcome(ok, Ok(p)),
            AuthAction::Fail(EntryError::Client(e)) => place_outcome(ok, Err(e)),
            _ => false,
        },
        Some(Msg::AuthDenied(d)) => r matches AuthAction::Fail(EntryError::Client(e))
            && says_denied(e, d.reason),
        Some(Msg::AuthChallenge(challenge)) => r == AuthAction::Answer(challenge),
        _ => r matches AuthAction::Fail(EntryError::Client(e)) && says_protocol(
            e,
            "unexpected message during auth loop"@,
        ),
    }
}

/// What a client that shows who it is does with a message: it is let in, is turned away, or has
/// to answer a challenge. No other message may come.
pub fn handle_auth_msg(msg: ControlMessage) -> (r: AuthAction)
    ensures
        auth_msg_outcome(msg, r),
{
    match msg.msg {
        Some(Msg::AuthOk(ok)) => match parse_auth_ok(&ok) {
            Ok(p) => AuthAction::Done(p),
            Err(e) => AuthAction::Fail(EntryError::Client(e)),
        },
        Some(Msg::AuthDenied(d)) => AuthAction::Fail(
            EntryError::Client(ClientError::AuthDenied(deny_reason_text(d.reason).to_string())),
        ),
        Some(Msg::AuthChallenge(challenge)) => AuthAction::Answer(challenge),
        _ => AuthAction::Fail(
            EntryError::Client(
                ClientError::Protocol("unexpected message during auth loop".to_string()),
            ),
        ),
    }
}

/// The next step while the client shows who it is.
pub fn auth_step(event: AuthEvent) -> (r: AuthAction)
    ensures
        match event {
            AuthEvent::InitSent(Ok(())) => r == AuthAction::Receive,
            AuthEvent::InitSent(Err(_)) => r matches AuthAction::Fail(EntryError::Way(what))
                && what@ == "failed to send AuthInit"@,
            AuthEvent::ResponseSent(Ok(())) => r == AuthAction::Receive,
            AuthEvent::ResponseSent(Err(_)) => r matches AuthAction::Fail(EntryError::Way(what))
                && what@ == "failed to send AuthResponse"@,
            AuthEvent::Received(Ok(Some(msg))) => auth_msg_outcome(msg, r),
            AuthEvent::Received(Ok(None)) => r matches AuthAction::Fail(EntryError::Way(what))
                && what@ == "control stream closed during auth"@,
            AuthEvent::Received(Err(e)) => r matches AuthAction::Fail(EntryError::Way(what))
                && what@ == "failed to receive auth response: "@ + e.text(),
        },
{
    match event {
        AuthEvent::InitSent(Ok(())) => AuthAction::Receive,
        AuthEvent::InitSent(Err(_)) => AuthAction::Fail(
            EntryError::Way("failed to send AuthInit".to_string()),
        ),
        AuthEvent::ResponseSent(Ok(())) => AuthAction::Receive,
        AuthEvent::ResponseSent(Err(_)) => AuthAction::Fail(
            EntryError::Way("failed to send AuthResponse".to_string()),
        ),
        AuthEvent::Received(Ok(Some(msg))) => handle_auth_msg(msg),
        AuthEvent::Received(Ok(None)) => AuthAction::Fail(
            EntryError::Way("control stream closed during auth".to_string()),
        ),
        AuthEvent::Received(Err(e)) => AuthAction::Fail(
            EntryError::Way(
                text::join2("failed to receive auth response: ", e.message().as_str()),
            ),
        ),
    }
}

/// What has happened on the way in of a client that gives name and password at once.
#[derive(Debug)]
pub enum LoginEvent {
    /// The client's end was built, or could not be.
    Built(Result<(), String>),
    /// The connection stands, or does not.
    Connected(Result<(), String>),
    /// The control stream was opened, or could not be.
    Opened(Result<(), String>),
    /// Name and password were sent, or could not be.
    RequestSent(Result<(), String>),
    /// The server's answer was waited for.
    Answered(Result<Option<ControlMessage>, FrameError>),
}

/// What a client that gives name and password at once has to do next.
#[derive(Debug)]
pub enum LoginAction {
    Connect(SocketAddr),
    OpenStream,
    Send(ControlMessage),
    ReceiveAnswer,
    Done(ClientTunParams),
    Fail(EntryError),
}

/// The next step of a client that gives name and password at once: its end is built and
/// connects, the control stream is opened, name and password go over it, and the first answer
/// decides. The first step that fails is the last.
pub fn login_step(event: LoginEvent, config: &ClientConfig, username: &str, password: &str) -> (r:
    LoginAction)
    ensures
        match event {
            LoginEvent::Built(Ok(())) => r == LoginAction::Connect(config.server),
            LoginEvent::Built(Err(_)) => r matches LoginAction::Fail(EntryError::Way(what))
                && what@ == "failed to build client"@,
            LoginEvent::Connected(Ok(())) => r == LoginAction::OpenStream,
            LoginEvent::Connected(Err(e)) => r == LoginAction::Fail(EntryError::Way(e)),
            LoginEvent::Opened(Ok(())) => r matches LoginAction::Send(m) && m.msg matches Some(
                Msg::AuthRequest(q),
            ) && q.username@ == username@ && q.password@ == password@,
            LoginEvent::Opened(Err(_)) => r matches LoginAction::Fail(EntryError::Way(what))
                && what@ == "failed to open control stream"@,
            LoginEvent::RequestSent(Ok(())) => r == LoginAction::ReceiveAnswer,
            LoginEvent::RequestSent(Err(_)) => r matches LoginAction::Fail(EntryError::Way(what))
                && what@ == "failed to send AuthRequest"@,
            LoginEvent::Answered(received) => match r {
                LoginAction::Done(p) => answer_outcome(received, Ok(p)),
                LoginAction::Fail(e) => answer_outcome(received, Err(e)),
                _ => false,
            },
        },
{
    match event {
        LoginEvent::Built(Ok(())) => LoginAction::Connect(config.server),
        LoginEvent::Built(Err(_)) => LoginAction::Fail(
            EntryError::Way("failed to build client".to_string()),
        ),
        LoginEvent::Connected(Ok(())) => LoginAction::OpenStream,
        LoginEvent::Connected(Err(e)) => LoginAction::Fail(EntryError::Way(e)),
        LoginEvent::Opened(Ok(())) => LoginAction::Send(
            auth_request(username, password.to_string()),
        ),
        LoginEvent::Opened(Err(_)) => LoginAction::Fail(
            EntryError::Way("failed to open control stream".to_string()),
        ),
        LoginEvent::RequestSent(Ok(())) => LoginAction::ReceiveAnswer,
        LoginEvent::RequestSent(Err(_)) => LoginAction::Fail(
            EntryError::Way("failed to send AuthRequest".to_string()),
        ),
        LoginEvent::Answered(received) => match first_response(received) {
            Ok(p) => LoginAction::Done(p),
            Err(e) => LoginAction::Fail(e),
        },
    }
}

/// What a client takes from the server's message is what the message says: the two addresses and
/// the network that its texts stand for, its MTU, and, one for one and in order, the networks
/// that the texts of its routes stand for. The MTU is one that a tunnel can have, and the gateway
/// lies in the network, but not at its lowest address.
pub proof fn law_taken_place_is_what_was_sent(ok: AuthOk, p: ClientTunParams)
    requires
        place_outcome(ok, Ok(p)),
    ensures
        ok.assigned_ip@ == net::addr_text(p.assigned_ip.bits as int),
        ok.gateway@ == net::addr_text(p.gateway.bits as int),
        net::is_cidr_text(ok.subnet@, p.subnet@),
        p.mtu == ok.mtu,
        1280 <= ok.mtu <= 65535,
        p.routes@.len() == ok.routes@.len(),
        forall|i: int|
            0 <= i < ok.routes@.len() ==> net::is_cidr_text(
                (#[trigger] ok.routes@[i])@,
                p.routes@[i]@,
            ),
        p.subnet@.network() < p.gateway.bits < p.subnet@.network() + p.subnet@.size(),
{
}

/// A message that is in order is taken: its addresses and its network read, its MTU is one that a
/// tunnel can have, its gateway lies in the network but not at its lowest address, and every one
/// of its routes reads.
pub proof fn law_place_in_order_is_taken(
    ok: AuthOk,
    assigned: Ipv4Addr,
    gateway: Ipv4Addr,
    subnet: net::NetModel,
    routes: Seq<net::NetModel>,
    r: Result<ClientTunParams, ClientError>,
)
    requires
        ok.assigned_ip@ == net::addr_text(assigned.bits as int),
        ok.gateway@ == net::addr_text(gateway.bits as int),
        net::is_cidr_text(ok.subnet@, subnet),
        1280 <= ok.mtu <= 65535,
        subnet.network() < gateway.bits < subnet.network() + subnet.size(),
        routes.len() == ok.routes@.len(),
        forall|i: int|
            0 <= i < routes.len() ==> net::is_cidr_text((#[trigger] ok.routes@[i])@, routes[i]),
        place_outcome(ok, r),
    ensures
        r matches Ok(p) && p.assigned_ip == assigned && p.gateway == gateway && p.subnet@
            == subnet && p.mtu == ok.mtu && p.routes@.len() == routes.len() && (forall|i: int|
            0 <= i < routes.len() ==> (#[trigger] p.routes@[i])@ == routes[i]),
{
    assert(is_addr(ok.assigned_ip@));
    assert(is_addr(ok.gateway@));
    assert(is_net(ok.subnet@));
    assert forall|i: int| 0 <= i < ok.routes@.len() implies is_net((#[trigger] ok.routes@[i])@) by {
        assert(net::is_cidr_text(ok.routes@[i]@, routes[i]));
    }
    match r {
        Ok(p) => {
            net::law_addr_text_is_unique(p.assigned_ip, assigned);
            net::law_addr_text_is_unique(p.gateway, gateway);
            net::lemma_cidr_text_unique(ok.subnet@, p.subnet@, subnet);
            assert forall|i: int| 0 <= i < routes.len() implies (#[trigger] p.routes@[i])@
                == routes[i] by {
                assert(net::is_cidr_text(ok.routes@[i]@, p.routes@[i]@));
                net::lemma_cidr_text_unique(ok.routes@[i]@, p.routes@[i]@, routes[i]);
            }
        },
        Err(ClientError::GatewayOutsideSubnet(g, n)) => {
            net::law_addr_text_is_unique(g, gateway);
            net::lemma_cidr_text_unique(ok.subnet@, n@, subnet);
        },
        Err(ClientError::GatewayIsNetworkAddr(g)) => {
            let n = choose|n: net::NetModel| #[trigger]
                net::is_cidr_text(ok.subnet@, n) && g.bits == n.network();
            net::law_addr_text_is_unique(g, gateway);
            net::lemma_cidr_text_unique(ok.subnet@, n, subnet);
        },
        Err(_) => {},
    }
}

/// A message is refused for what is wrong with it, and the refusal carries the part that is: a
/// text that is no address, or no network; an MTU that is below or above what a tunnel can have;
/// a gateway outside of its network, or at its lowest address; or one of its routes.
pub proof fn law_refusal_carries_the_fault(ok: AuthOk, e: ClientError)
    requires
        place_outcome(ok, Err(e)),
    ensures
        match e {
            ClientError::InvalidAssignedIp(s) => s@ == ok.assigned_ip@ && !(exists|a: Ipv4Addr|
                s@ == #[trigger] net::addr_text(a.bits as int)),
            ClientError::InvalidGateway(s) => s@ == ok.gateway@ && !(exists|a: Ipv4Addr|
                s@ == #[trigger] net::addr_text(a.bits as int)),
            ClientError::InvalidSubnet(s) => s@ == ok.subnet@ && forall|n: net::NetModel|
                !(#[trigger] net::is_cidr_text(s@, n)),
            ClientError::MtuTooSmall(mtu) => mtu == ok.mtu && mtu < 1280,
            ClientError::MtuTooLarge(mtu) => mtu == ok.mtu && mtu > 65535,
            ClientError::GatewayOutsideSubnet(gateway, subnet) => {
                &&& ok.gateway@ == net::addr_text(gateway.bits as int)
                &&& net::is_cidr_text(ok.subnet@, subnet@)
                &&& gateway.bits < subnet@.network() || subnet@.network() + subnet@.size()
                    <= gateway.bits
            },
            ClientError::GatewayIsNetworkAddr(gateway) => {
                &&& ok.gateway@ == net::addr_text(gateway.bits as int)
                &&& exists|n: net::NetModel| #[trigger]
                    net::is_cidr_text(ok.subnet@, n) && gateway.bits == n.network()
            },
            ClientError::InvalidRoute(_) => ok.routes@.len() > 0,
            _ => false,
        },
{
}

/// What is wrong is looked for in this order: the assigned address, the gateway's, the network,
/// the MTU, where the gateway lies, the routes. A refusal for one says that what is looked at
/// before it can be read.
pub proof fn law_faults_are_found_in_order(ok: AuthOk, e: ClientError)
    requires
        place_outcome(ok, Err(e)),
    ensures
        !(e is InvalidAssignedIp) ==> exists|a: Ipv4Addr|
            ok.assigned_ip@ == #[trigger] net::addr_text(a.bits as int),
        !(e is InvalidAssignedIp || e is InvalidGateway) ==> exists|a: Ipv4Addr|
            ok.gateway@ == #[trigger] net::addr_text(a.bits as int),
        !(e is InvalidAssignedIp || e is InvalidGateway || e is InvalidSubnet) ==> exists|
            n: net::NetModel,
        | #[trigger] net::is_cidr_text(ok.subnet@, n),
        e is GatewayOutsideSubnet || e is GatewayIsNetworkAddr || e is InvalidRoute ==> 1280
            <= ok.mtu <= 65535,
        e is InvalidRoute ==> exists|g: Ipv4Addr, n: net::NetModel|
            {
                &&& ok.gateway@ == #[trigger] net::addr_text(g.bits as int)
                &&& #[trigger] net::is_cidr_text(ok.subnet@, n)
                &&& n.network() < g.bits < n.network() + n.size()
            },
{
    lemma_refusal_reads(ok, e);
    if e is InvalidRoute {
        let (a, g, n) = choose|a: Ipv4Addr, g: Ipv4Addr, n: net::NetModel|
            #[trigger] reads_as(ok, a, g, n) && can_be_gateway(g, n);
        assert(ok.gateway@ == net::addr_text(g.bits as int));
        assert(net::is_cidr_text(ok.subnet@, n));
    }
}

/// A client that is turned away is told that its credentials are wrong for the reason with the
/// number 0, that the server is busy for the one with the number 1, and for any other number
/// that the reason is not known.
pub proof fn law_denied_client_is_told_why(e: ClientError, reason: i32)
    requires
        says_denied(e, reason),
    ensures
        e matches ClientError::AuthDenied(why) && why@ == if reason == 0 {
            "认证失败（用户名或密码错误）"@
        } else if reason == 1 {
            "服务端繁忙（IP 池耗尽）"@
        } else {
            "未知拒绝原因"@
        },
{
}

/// A greeting is taken if it is the first message, says hello and names the version that this
/// side speaks; one that names another is refused with that version. The methods are those that
/// it offers.
pub proof fn law_only_a_fitting_greeting_is_taken(
    received: Result<Option<ControlMessage>, FrameError>,
    r: Result<Vec<AuthMethod>, ClientError>,
)
    requires
        greeting_outcome(received, r),
    ensures
        r is Ok <==> match received {
            Ok(Some(m)) => match m.msg {
                Some(Msg::ServerHello(h)) => h.protocol_version == 1,
                _ => false,
            },
            _ => false,
        },
        r matches Ok(methods) ==> methods@ == methods_of(
            received->Ok_0->Some_0.msg->Some_0->ServerHello_0.supported_methods@,
        ),
        (received matches Ok(Some(m)) && m.msg matches Some(Msg::ServerHello(h))
            && h.protocol_version != 1) ==> r == Err::<Vec<AuthMethod>, ClientError>(
            ClientError::IncompatibleVersion(
                received->Ok_0->Some_0.msg->Some_0->ServerHello_0.protocol_version,
            ),
        ),
{
}

/// The methods that numbers stand for come one by one: the number 0 stands for a password, and
/// any other for none.
pub proof fn law_methods_come_one_by_one(raw: Seq<i32>, n: i32)
    ensures
        methods_of(Seq::empty()) == Seq::<AuthMethod>::empty(),
        n == 0 ==> methods_of(raw.push(n)) == methods_of(raw).push(AuthMethod::Password),
        n != 0 ==> methods_of(raw.push(n)) == methods_of(raw),
{
    assert(raw.push(n).drop_last() =~= raw);
}

/// While a client shows who it is, a challenge is always to be answered, as it is; being let in
/// or turned away is the end; and any other message is a fault of the server.
pub proof fn law_message_of_the_server_decides(msg: ControlMessage, r: AuthAction)
    requires
        auth_msg_outcome(msg, r),
    ensures
        msg.msg matches Some(Msg::AuthChallenge(c)) ==> r == AuthAction::Answer(c),
        r matches AuthAction::Answer(c) ==> msg.msg == Some(Msg::AuthChallenge(c)),
        r matches AuthAction::Done(p) ==> msg.msg matches Some(Msg::AuthOk(ok)) && place_outcome(
            ok,
            Ok(p),
        ),
        msg.msg matches Some(Msg::AuthOk(ok)) ==> match r {
            AuthAction::Done(p) => place_outcome(ok, Ok(p)),
            AuthAction::Fail(EntryError::Client(e)) => place_outcome(ok, Err(e)),
            _ => false,
        },
        msg.msg matches Some(Msg::AuthDenied(d)) ==> match r {
            AuthAction::Fail(EntryError::Client(e)) => says_denied(e, d.reason),
            _ => false,
        },
        !(r is Receive),
{
}

/// The first answer to a name and a password decides: who is let in has a place, and who is not
/// has the reason.
pub proof fn law_first_answer_decides(
    received: Result<Option<ControlMessage>, FrameError>,
    r: Result<ClientTunParams, EntryError>,
)
    requires
        answer_outcome(received, r),
    ensures
        r matches Ok(p) ==> received matches Ok(Some(m)) && m.msg matches Some(Msg::AuthOk(ok))
            && place_outcome(ok, Ok(p)),
        (received matches Ok(Some(m)) && m.msg is Some && m.msg->Some_0 is AuthOk) ==> match r {
            Ok(p) => place_outcome(received->Ok_0->Some_0.msg->Some_0->AuthOk_0, Ok(p)),
            Err(EntryError::Client(e)) => place_outcome(
                received->Ok_0->Some_0.msg->Some_0->AuthOk_0,
                Err(e),
            ),
            Err(EntryError::Way(_)) => false,
        },
        (received matches Ok(Some(m)) && m.msg is Some && m.msg->Some_0 is AuthDenied) ==> match r {
            Err(EntryError::Client(e)) => says_denied(
                e,
                received->Ok_0->Some_0.msg->Some_0->AuthDenied_0.reason,
            ),
            _ => false,
        },
{
}

/// A route that is refused is the first whose text is that of no network: the texts of all
/// routes before it are.
pub proof fn law_first_bad_route_is_named(ok: AuthOk, s: String) -> (before: Seq<net::NetModel>)
    requires
        place_outcome(ok, Err(ClientError::InvalidRoute(s))),
    ensures
        before.len() < ok.routes@.len(),
        ok.routes@[before.len() as int]@ == s@,
        forall|n: net::NetModel| !(#[trigger] net::is_cidr_text(s@, n)),
        forall|j: int|
            0 <= j < before.len() ==> net::is_cidr_text(
                (#[trigger] ok.routes@[j])@,
                before[j],
            ),
{
    let i = choose|i: int|
        {
            &&& 0 <= i < ok.routes@.len()
            &&& (#[trigger] ok.routes@[i])@ == s@
            &&& !is_net(ok.routes@[i]@)
            &&& forall|j: int| 0 <= j < i ==> is_net((#[trigger] ok.routes@[j])@)
        };
    let before = Seq::new(
        i as nat,
        |j: int| choose|n: net::NetModel| #[trigger] net::is_cidr_text(ok.routes@[j]@, n),
    );
    assert forall|j: int| 0 <= j < before.len() implies net::is_cidr_text(
        (#[trigger] ok.routes@[j])@,
        before[j],
    ) by {
        assert(is_net(ok.routes@[j]@));
    }
    before
}

/// A message that does not belong where it arrives is a breach of the protocol, and so is a
/// greeting that does not arrive.
pub proof fn law_other_messages_break_the_protocol(
    m: ControlMessage,
    e: FrameError,
    greeting: Result<Vec<AuthMethod>, ClientError>,
    answer: Result<ClientTunParams, EntryError>,
    action: AuthAction,
)
    ensures
        greeting_outcome(Ok(Some(m)), greeting) && !(m.msg matches Some(Msg::ServerHello(_)))
            ==> match greeting {
            Err(ClientError::Protocol(w)) => w@ == "expected ServerHello as first control message"@,
            _ => false,
        },
        greeting_outcome(Ok(None), greeting) ==> match greeting {
            Err(ClientError::Protocol(w)) => w@ == "control stream closed before ServerHello"@,
            _ => false,
        },
        greeting_outcome(Err(e), greeting) ==> match greeting {
            Err(ClientError::Protocol(w)) => w@ == "failed to receive ServerHello: "@ + e.text(),
            _ => false,
        },
        answer_outcome(Ok(Some(m)), answer) && !(m.msg matches Some(Msg::AuthOk(_))) && !(m.msg
            matches Some(Msg::AuthDenied(_))) ==> match answer {
            Err(EntryError::Client(ClientError::Protocol(w))) => w@
                == "expected AuthOk but got an unexpected message"@,
            _ => false,
        },
        answer_outcome(Ok(None), answer) ==> match answer {
            Err(EntryError::Way(w)) => w@ == "control stream closed before AuthOk"@,
            _ => false,
        },
        answer_outcome(Err(e), answer) ==> match answer {
            Err(EntryError::Way(w)) => w@ == "failed to decode first response: "@ + e.text(),
            _ => false,
        },
        auth_msg_outcome(m, action) && !(m.msg matches Some(Msg::AuthOk(_))) && !(m.msg
            matches Some(Msg::AuthDenied(_))) && !(m.msg matches Some(Msg::AuthChallenge(_)))
            ==> match action {
            AuthAction::Fail(EntryError::Client(ClientError::Protocol(w))) => w@
                == "unexpected message during auth loop"@,
            _ => false,
        },
{
}

/// An MTU can be used from 1280 bytes on, and up to what sixteen bits can hold; a gateway is any
/// address of its network but the lowest.
pub proof fn law_limits_of_a_place(mtu: u32, gateway: Ipv4Addr, subnet: net::NetModel)
    ensures
        mtu_fits(mtu) <==> 1280 <= mtu <= 65535,
        can_be_gateway(gateway, subnet) <==> subnet.network() < gateway.bits < subnet.network()
            + subnet.size(),
{
}

/// What is said to a client that does not get in.
pub proof fn law_client_errors_have_their_words(
    s: String,
    n: u32,
    gateway: Ipv4Addr,
    subnet: Ipv4Net,
)
    ensures
        ClientError::InvalidAssignedIp(s).text() == "AuthOk contains invalid assigned_ip: "@ + s@,
        ClientError::InvalidGateway(s).text() == "AuthOk contains invalid gateway: "@ + s@,
        ClientError::InvalidSubnet(s).text() == "AuthOk contains invalid subnet: "@ + s@,
        ClientError::MtuTooSmall(n).text() == "AuthOk mtu "@ + text::decimal(n as nat)
            + " is smaller than minimum "@ + text::decimal(1280),
        ClientError::MtuTooLarge(n).text() == "AuthOk mtu "@ + text::decimal(n as nat)
            + " exceeds maximum 65535"@,
        ClientError::GatewayOutsideSubnet(gateway, subnet).text() == "AuthOk gateway "@
            + net::addr_text(gateway.bits as int) + " is not inside subnet "@ + subnet@.text(),
        ClientError::GatewayIsNetworkAddr(gateway).text() == "AuthOk gateway "@ + net::addr_text(
            gateway.bits as int,
        ) + " equals the subnet network address"@,
        ClientError::InvalidRoute(s).text() == "AuthOk contains invalid route CIDR: "@ + s@,
        ClientError::AuthDenied(s).text() == "authentication failed: "@ + s@,
        ClientError::IncompatibleVersion(n).text() == "incompatible protocol version: server="@
            + text::decimal(n as nat) + ", client="@ + text::decimal(1),
        ClientError::Protocol(s).text() == "protocol error: "@ + s@,
        EntryError::Way(s).text() == s@,
        EntryError::Client(ClientError::Protocol(s)).text() == "protocol error: "@ + s@,
{
}

/// Where nothing fails, the way in goes from the end of the client over the connection to the
/// server of the configuration, the control stream and the message that opens it, to the
/// greeting; and the methods of a greeting that fits are what the client is ready with.
pub proof fn law_way_in_goes_through(
    config: &ClientConfig,
    hello: crate::vpn::ServerHello,
    built: ConnectAction,
    connected: ConnectAction,
    opened: ConnectAction,
    signalled: ConnectAction,
    greeted: ConnectAction,
)
    requires
        hello.protocol_version == 1,
        call_ensures(connect_step, (ConnectEvent::Built(Ok(())), config), built),
        call_ensures(connect_step, (ConnectEvent::Connected(Ok(())), config), connected),
        call_ensures(connect_step, (ConnectEvent::Opened(Ok(())), config), opened),
        call_ensures(connect_step, (ConnectEvent::Signalled(Ok(())), config), signalled),
        call_ensures(
            connect_step,
            (
                ConnectEvent::Greeted(
                    Ok(Some(ControlMessage { msg: Some(Msg::ServerHello(hello)) })),
                ),
                config,
            ),
            greeted,
        ),
    ensures
        built == ConnectAction::Connect(config.server),
        connected == ConnectAction::OpenStream,
        opened is Send,
        signalled == ConnectAction::ReceiveGreeting,
        greeted matches ConnectAction::Ready(methods) && methods@ == methods_of(
            hello.supported_methods@,
        ),
{
}

/// Whatever fails on the way in ends it.
pub proof fn law_way_in_ends_with_the_first_failure(
    config: &ClientConfig,
    e: String,
    built: ConnectAction,
    connected: ConnectAction,
    opened: ConnectAction,
    signalled: ConnectAction,
)
    requires
        call_ensures(connect_step, (ConnectEvent::Built(Err(e)), config), built),
        call_ensures(connect_step, (ConnectEvent::Connected(Err(e)), config), connected),
        call_ensures(connect_step, (ConnectEvent::Opened(Err(e)), config), opened),
        call_ensures(connect_step, (ConnectEvent::Signalled(Err(e)), config), signalled),
    ensures
        built is Fail,
        connected == ConnectAction::Fail(EntryError::Way(e)),
        opened is Fail,
        signalled is Fail,
{
}

/// A client that shows who it is waits for the server after each message that it has sent, and
/// gives up where it could not send one or nothing more arrives.
pub proof fn law_client_waits_after_each_message(
    what: String,
    e: FrameError,
    begun: AuthAction,
    answered: AuthAction,
    not_begun: AuthAction,
    not_answered: AuthAction,
    ended: AuthAction,
    broken: AuthAction,
)
    requires
        call_ensures(auth_step, (AuthEvent::InitSent(Ok(())),), begun),
        call_ensures(auth_step, (AuthEvent::ResponseSent(Ok(())),), answered),
        call_ensures(auth_step, (AuthEvent::InitSent(Err(what)),), not_begun),
        call_ensures(auth_step, (AuthEvent::ResponseSent(Err(what)),), not_answered),
        call_ensures(auth_step, (AuthEvent::Received(Ok(None)),), ended),
        call_ensures(auth_step, (AuthEvent::Received(Err(e)),), broken),
    ensures
        begun == AuthAction::Receive,
        answered == AuthAction::Receive,
        not_begun is Fail,
        not_answered is Fail,
        ended is Fail,
        broken is Fail,
{
}

/// Where nothing fails, a client that logs in connects to the server of the configuration, asks
/// with the name and the password that it was given, and waits for the answer, which decides.
pub proof fn law_login_goes_through(
    config: &ClientConfig,
    username: &str,
    password: &str,
    ok: AuthOk,
    built: LoginAction,
    connected: LoginAction,
    opened: LoginAction,
    sent: LoginAction,
    answered: LoginAction,
)
    requires
        call_ensures(login_step, (LoginEvent::Built(Ok(())), config, username, password), built),
        call_ensures(
            login_step,
            (LoginEvent::Connected(Ok(())), config, username, password),
            connected,
        ),
        call_ensures(login_step, (LoginEvent::Opened(Ok(())), config, username, password), opened),
        call_ensures(
            login_step,
            (LoginEvent::RequestSent(Ok(())), config, username, password),
            sent,
        ),
        call_ensures(
            login_step,
            (
                LoginEvent::Answered(Ok(Some(ControlMessage { msg: Some(Msg::AuthOk(ok)) }))),
                config,
                username,
                password,
            ),
            answered,
        ),
    ensures
        built == LoginAction::Connect(config.server),
        connected == LoginAction::OpenStream,
        match opened {
            LoginAction::Send(m) => match m.msg {
                Some(Msg::AuthRequest(q)) => q.username@ == username@ && q.password@ == password@,
                _ => false,
            },
            _ => false,
        },
        sent == LoginAction::ReceiveAnswer,
        match answered {
            LoginAction::Done(p) => place_outcome(ok, Ok(p)),
            LoginAction::Fail(EntryError::Client(e)) => place_outcome(ok, Err(e)),
            _ => false,
        },
{
}

/// A name counts without the spaces around it, and there must be something left.
pub proof fn law_name_counts_without_spaces(raw: &str, r: Result<String, String>)
    requires
        call_ensures(validate_username, (raw,), r),
    ensures
        r is Ok <==> text::trimmed(raw@).len() > 0,
        r matches Ok(name) ==> name@ == text::trimmed(raw@),
{
}

} // verus!
