//! Network connection records as the managed side sees them, the records the
//! connection service reports, and the conversions between the two.
use vstd::prelude::*;

use crate::callback::GlobalRefCallback;
use crate::error::{business_message, convert_to_business_error, BusinessError};

verus! {

/// A network, named by its id.
#[derive(Clone, Copy, PartialEq, Eq, Structural, Debug)]
pub struct NetHandle {
    pub net_id: i32,
}

/// The native connection object behind a managed connection.
#[derive(Clone, Copy, PartialEq, Eq, Structural, Debug)]
pub struct NetConnection {
    pub native_ptr: i64,
}

/// The object that frees a native connection.
#[derive(Clone, Copy, PartialEq, Eq, Structural, Debug)]
pub struct Cleaner {
    pub ptr: i64,
}

/// Capabilities a network may have.
#[derive(Clone, Copy, PartialEq, Eq, Structural, Debug)]
pub enum NetCap {
    NetCapabilityMms,
    NetCapabilityNotMetered,
    NetCapabilityInternet,
    NetCapabilityNotVpn,
    NetCapabilityValidated,
    NetCapabilityPortal,
    NetCapabilityCheckingConnectivity,
}

/// The bearers a network may use.
#[derive(Clone, Copy, PartialEq, Eq, Structural, Debug)]
pub enum NetBearType {
    BearerCellular,
    BearerWifi,
    BearerBluetooth,
    BearerEthernet,
    BearerVpn,
}

/// The service's code of each capability.
pub open spec fn net_cap_code(c: NetCap) -> i32 {
    match c {
        NetCap::NetCapabilityMms => 0,
        NetCap::NetCapabilityNotMetered => 11,
        NetCap::NetCapabilityInternet => 12,
        NetCap::NetCapabilityNotVpn => 15,
        NetCap::NetCapabilityValidated => 16,
        NetCap::NetCapabilityPortal => 17,
        NetCap::NetCapabilityCheckingConnectivity => 31,
    }
}

/// Whether `x` is the service's code of some capability.
pub open spec fn is_net_cap_code(x: i32) -> bool {
    x == 0 || x == 11 || x == 12 || x == 15 || x == 16 || x == 17 || x == 31
}

/// Whether `x` is the service's code of some bearer.
pub open spec fn is_bearer_code(x: i32) -> bool {
    0 <= x <= 4
}

/// The position of each capability among the items of the managed enum.
pub open spec fn net_cap_index(c: NetCap) -> usize {
    match c {
        NetCap::NetCapabilityMms => 0,
        NetCap::NetCapabilityNotMetered => 1,
        NetCap::NetCapabilityInternet => 2,
        NetCap::NetCapabilityNotVpn => 3,
        NetCap::NetCapabilityValidated => 4,
        NetCap::NetCapabilityPortal => 5,
        NetCap::NetCapabilityCheckingConnectivity => 6,
    }
}

/// The position of each bearer among the items of the managed enum, which is
/// also the service's code of it.
pub open spec fn net_bear_type_index(b: NetBearType) -> usize {
    match b {
        NetBearType::BearerCellular => 0,
        NetBearType::BearerWifi => 1,
        NetBearType::BearerBluetooth => 2,
        NetBearType::BearerEthernet => 3,
        NetBearType::BearerVpn => 4,
    }
}

impl NetCap {
    /// The position of the capability among the items of the managed enum.
    pub fn get_enum_index(&self) -> (r: usize)
        ensures
            r == net_cap_index(*self),
    {
        match self {
            NetCap::NetCapabilityMms => 0,
            NetCap::NetCapabilityNotMetered => 1,
            NetCap::NetCapabilityInternet => 2,
            NetCap::NetCapabilityNotVpn => 3,
            NetCap::NetCapabilityValidated => 4,
            NetCap::NetCapabilityPortal => 5,
            NetCap::NetCapabilityCheckingConnectivity => 6,
        }
    }

    /// The capability with the service's code `code`, if there is one.
    pub fn from_code(code: i32) -> (r: Option<NetCap>)
        ensures
            r is Some ==> net_cap_code(r->Some_0) == code,
            r is Some <==> is_net_cap_code(code),
    {
        if code == 0 {
            Some(NetCap::NetCapabilityMms)
        } else if code == 11 {
            Some(NetCap::NetCapabilityNotMetered)
        } else if code == 12 {
            Some(NetCap::NetCapabilityInternet)
        } else if code == 15 {
            Some(NetCap::NetCapabilityNotVpn)
        } else if code == 16 {
            Some(NetCap::NetCapabilityValidated)
        } else if code == 17 {
            Some(NetCap::NetCapabilityPortal)
        } else if code == 31 {
            Some(NetCap::NetCapabilityCheckingConnectivity)
        } else {
            None
        }
    }
}

impl NetBearType {
    /// The position of the bearer among the items of the managed enum.
    pub fn get_enum_index(&self) -> (r: usize)
        ensures
            r == net_bear_type_index(*self),
    {
        match self {
            NetBearType::BearerCellular => 0,
            NetBearType::BearerWifi => 1,
            NetBearType::BearerBluetooth => 2,
            NetBearType::BearerEthernet => 3,
            NetBearType::BearerVpn => 4,
        }
    }

    /// The bearer with the service's code `code`, if there is one.
    pub fn from_code(code: i32) -> (r: Option<NetBearType>)
        ensures
            r is Some ==> net_bear_type_index(r->Some_0) == code,
            r is Some <==> is_bearer_code(code),
    {
        if code == 0 {
            Some(NetBearType::BearerCellular)
        } else if code == 1 {
            Some(NetBearType::BearerWifi)
        } else if code == 2 {
            Some(NetBearType::BearerBluetooth)
        } else if code == 3 {
            Some(NetBearType::BearerEthernet)
        } else if code == 4 {
            Some(NetBearType::BearerVpn)
        } else {
            None
        }
    }
}

/// What a network can do: bandwidths, capabilities and bearers.
pub struct NetCapabilities {
    pub link_up_bandwidth_kbps: Option<i32>,
    pub link_down_bandwidth_kbps: Option<i32>,
    pub network_cap: Option<Vec<NetCap>>,
    pub bearer_types: Vec<NetBearType>,
}

/// Which networks a connection asks for.
pub struct NetSpecifier {
    pub net_capabilities: NetCapabilities,
    pub bearer_private_identifier: Option<String>,
}

/// A network and its capabilities.
pub struct NetCapabilityInfo {
    pub net_handle: NetHandle,
    pub net_cap: NetCapabilities,
}

/// Whether a network is blocked.
pub struct NetBlockStatusInfo {
    pub net_handle: NetHandle,
    pub blocked: bool,
}

/// An address, with its family and port where they are known.
pub struct NetAddress {
    pub address: String,
    pub family: Option<i32>,
    pub port: Option<i32>,
}

/// An address with its prefix length.
pub struct LinkAddress {
    pub address: NetAddress,
    pub prefix_length: i32,
}

/// A route of an interface.
pub struct RouteInfo {
    pub iface: String,
    pub destination: LinkAddress,
    pub gateway: NetAddress,
    pub has_gateway: bool,
    pub is_default_route: bool,
}

/// The link properties of a network.
pub struct ConnectionProperties {
    pub interface_name: String,
    pub domains: String,
    pub link_addresses: Vec<LinkAddress>,
    pub dnses: Vec<NetAddress>,
    pub routes: Vec<RouteInfo>,
    pub mtu: i32,
}

/// A network and its link properties.
pub struct NetConnectionPropertyInfo {
    pub net_handle: NetHandle,
    pub connection_properties: ConnectionProperties,
}

/// An HTTP proxy.
pub struct HttpProxy {
    pub host: String,
    pub port: i32,
    pub username: Option<String>,
    pub password: Option<String>,
    pub exclusion_list: Vec<String>,
}

/// An address as the service reports it: zero stands for an unknown family
/// or port.
pub struct ServiceNetAddress {
    pub address: String,
    pub family: i32,
    pub port: i32,
}

/// A proxy as the service holds it: empty strings stand for no credentials.
pub struct ServiceHttpProxy {
    pub host: String,
    pub port: i32,
    pub username: String,
    pub password: String,
    pub exclusion_list: Vec<String>,
}

/// Capabilities as the service reports them, as codes.
pub struct ServiceNetCapabilities {
    pub link_up_bandwidth_kbps: i32,
    pub link_down_bandwidth_kbps: i32,
    pub network_cap: Vec<i32>,
    pub bearer_types: Vec<i32>,
}

/// Zero, the service's mark of an unknown value, is absent.
pub open spec fn known(v: i32) -> Option<i32> {
    if v == 0 {
        None
    } else {
        Some(v)
    }
}

/// Zero is absent; any other value is present.
fn known_value(v: i32) -> (r: Option<i32>)
    ensures
        r == known(v),
{
    if v == 0 {
        None
    } else {
        Some(v)
    }
}

/// The managed-side address of an address the service reported.
pub fn net_address_from_service(a: ServiceNetAddress) -> (r: NetAddress)
    ensures
        r.address@ == a.address@,
        r.family == known(a.family),
        r.port == known(a.port),
{
    NetAddress { address: a.address, family: known_value(a.family), port: known_value(a.port) }
}

/// The managed-side proxy of a proxy the service reported; credentials are
/// always present.
pub fn http_proxy_from_service(p: ServiceHttpProxy) -> (r: HttpProxy)
    ensures
        r.host@ == p.host@,
        r.port == p.port,
        r.username is Some && r.username->Some_0@ == p.username@,
        r.password is Some && r.password->Some_0@ == p.password@,
        r.exclusion_list@ == p.exclusion_list@,
{
    HttpProxy {
        host: p.host,
        port: p.port,
        username: Some(p.username),
        password: Some(p.password),
        exclusion_list: p.exclusion_list,
    }
}

/// The service's proxy record of a proxy: absent credentials become empty.
pub fn http_proxy_to_service(p: HttpProxy) -> (r: ServiceHttpProxy)
    ensures
        r.host@ == p.host@,
        r.port == p.port,
        r.username@ == (match p.username {
            Some(u) => u@,
            None => Seq::<char>::empty(),
        }),
        r.password@ == (match p.password {
            Some(u) => u@,
            None => Seq::<char>::empty(),
        }),
        r.exclusion_list@ == p.exclusion_list@,
{
    let username = match p.username {
        Some(u) => u,
        None => String::new(),
    };
    let password = match p.password {
        Some(u) => u,
        None => String::new(),
    };
    ServiceHttpProxy { host: p.host, port: p.port, username, password, exclusion_list: p.exclusion_list }
}

/// The managed-side capabilities of what the service reported; a code that
/// names no capability or bearer is refused.
pub fn net_capabilities_from_service(c: &ServiceNetCapabilities) -> (r: Option<NetCapabilities>)
    ensures
        r is Some <==> (forall|i: int|
            0 <= i < c.network_cap@.len() ==> is_net_cap_code(#[trigger] c.network_cap@[i])) && (
        forall|i: int| 0 <= i < c.bearer_types@.len() ==> is_bearer_code(#[trigger] c.bearer_types@[i])),
        r is Some ==> {
            let n = r->Some_0;
            &&& n.link_up_bandwidth_kbps == Some(c.link_up_bandwidth_kbps)
            &&& n.link_down_bandwidth_kbps == Some(c.link_down_bandwidth_kbps)
            &&& n.network_cap is Some
            &&& n.network_cap->Some_0@.len() == c.network_cap@.len()
            &&& forall|i: int| 0 <= i < c.network_cap@.len() ==> net_cap_code(#[trigger] n.network_cap->Some_0@[i]) == c.network_cap@[i]
            &&& n.bearer_types@.len() == c.bearer_types@.len()
            &&& forall|i: int| 0 <= i < c.bearer_types@.len() ==> net_bear_type_index(#[trigger] n.bearer_types@[i]) == c.bearer_types@[i]
        },
{
    let mut caps: Vec<NetCap> = Vec::new();
    let mut i: usize = 0;
    while i < c.network_cap.len()
        invariant
            i <= c.network_cap@.len(),
            caps@.len() == i,
            forall|j: int| 0 <= j < i ==> net_cap_code(#[trigger] caps@[j]) == c.network_cap@[j],
            forall|j: int| 0 <= j < i ==> is_net_cap_code(#[trigger] c.network_cap@[j]),
        decreases c.network_cap@.len() - i,
    {
        match NetCap::from_code(c.network_cap[i]) {
            Some(n) => caps.push(n),
            None => {
                return None;
            },
        }
        i = i + 1;
    }
    let mut bearers: Vec<NetBearType> = Vec::new();
    let mut i: usize = 0;
    while i < c.bearer_types.len()
        invariant
            i <= c.bearer_types@.len(),
            bearers@.len() == i,
            forall|j: int| 0 <= j < i ==> net_bear_type_index(#[trigger] bearers@[j]) == c.bearer_types@[j],
            forall|j: int| 0 <= j < i ==> is_bearer_code(#[trigger] c.bearer_types@[j]),
            forall|j: int| 0 <= j < c.network_cap@.len() ==> is_net_cap_code(#[trigger] c.network_cap@[j]),
            caps@.len() == c.network_cap@.len(),
            forall|j: int| 0 <= j < c.network_cap@.len() ==> net_cap_code(#[trigger] caps@[j]) == c.network_cap@[j],
        decreases c.bearer_types@.len() - i,
    {
        match NetBearType::from_code(c.bearer_types[i]) {
            Some(b) => bearers.push(b),
            None => {
                return None;
            },
        }
        i = i + 1;
    }
    Some(NetCapabilities {
        link_up_bandwidth_kbps: Some(c.link_up_bandwidth_kbps),
        link_down_bandwidth_kbps: Some(c.link_down_bandwidth_kbps),
        network_cap: Some(caps),
        bearer_types: bearers,
    })
}

/// `ips` joined by commas.
pub open spec fn joined(ips: Seq<String>) -> Seq<char>
    decreases ips.len(),
{
    if ips.len() == 0 {
        Seq::empty()
    } else if ips.len() == 1 {
        ips[0]@
    } else {
        joined(ips.drop_last()) + ","@ + ips.last()@
    }
}

/// The rule text the resolver takes for a custom DNS rule: the host, a
/// comma, then the addresses separated by commas.
pub fn custom_dns_rule(host: String, ips: &Vec<String>) -> (r: String)
    ensures
        r@ == host@ + ","@ + joined(ips@),
{
    let mut out = host;
    out.append(",");
    let ghost prefix = out@;
    let mut i: usize = 0;
    while i < ips.len()
        invariant
            i <= ips@.len(),
            out@ == prefix + joined(ips@.subrange(0, i as int)),
        decreases ips@.len() - i,
    {
        if i > 0 {
            out.append(",");
        }
        out.append(ips[i].as_str());
        proof {
            let s = ips@.subrange(0, i + 1);
            assert(s.drop_last() =~= ips@.subrange(0, i as int));
            assert(s.last() == ips@[i as int]);
            if i == 0 {
                assert(ips@.subrange(0, 0) =~= Seq::<String>::empty());
            }
        }
        i = i + 1;
    }
    assert(ips@.subrange(0, ips@.len() as int) =~= ips@);
    out
}

/// A link address as the service reports it.
pub struct ServiceLinkAddress {
    pub address: ServiceNetAddress,
    pub prefix_length: i32,
}

/// A route as the service reports it.
pub struct ServiceRouteInfo {
    pub iface: String,
    pub destination: ServiceLinkAddress,
    pub gateway: ServiceNetAddress,
    pub has_gateway: bool,
    pub is_default_route: bool,
}

/// Link properties as the service reports them.
pub struct ServiceConnectionProperties {
    pub interface_name: String,
    pub domains: String,
    pub link_addresses: Vec<ServiceLinkAddress>,
    pub dnses: Vec<ServiceNetAddress>,
    pub routes: Vec<ServiceRouteInfo>,
    pub mtu: i32,
}

/// Whether a managed-side address is the conversion of a service address.
pub open spec fn address_converted(r: NetAddress, a: ServiceNetAddress) -> bool {
    r.address@ == a.address@ && r.family == known(a.family) && r.port == known(a.port)
}

/// The managed-side link address of a link address the service reported.
pub fn link_address_from_service(a: ServiceLinkAddress) -> (r: LinkAddress)
    ensures
        address_converted(r.address, a.address),
        r.prefix_length == a.prefix_length,
{
    LinkAddress { address: net_address_from_service(a.address), prefix_length: a.prefix_length }
}

/// The managed-side route of a route the service reported.
pub fn route_info_from_service(a: ServiceRouteInfo) -> (r: RouteInfo)
    ensures
        r.iface@ == a.iface@,
        address_converted(r.destination.address, a.destination.address),
        r.destination.prefix_length == a.destination.prefix_length,
        address_converted(r.gateway, a.gateway),
        r.has_gateway == a.has_gateway,
        r.is_default_route == a.is_default_route,
{
    RouteInfo {
        iface: a.iface,
        destination: link_address_from_service(a.destination),
        gateway: net_address_from_service(a.gateway),
        has_gateway: a.has_gateway,
        is_default_route: a.is_default_route,
    }
}

/// The managed-side link properties of what the service reported; every
/// address is converted as `net_address_from_service` does, in order.
pub fn connection_properties_from_service(p: ServiceConnectionProperties) -> (r:
    ConnectionProperties)
    ensures
        r.interface_name@ == p.interface_name@,
        r.domains@ == p.domains@,
        r.mtu == p.mtu,
        r.link_addresses@.len() == p.link_addresses@.len(),
        forall|i: int|
            0 <= i < p.link_addresses@.len() ==> address_converted(
                #[trigger] r.link_addresses@[i].address,
                p.link_addresses@[i].address,
            ) && r.link_addresses@[i].prefix_length == p.link_addresses@[i].prefix_length,
        r.dnses@.len() == p.dnses@.len(),
        forall|i: int| 0 <= i < p.dnses@.len() ==> address_converted(#[trigger] r.dnses@[i], p.dnses@[i]),
        r.routes@.len() == p.routes@.len(),
{
    let ServiceConnectionProperties { interface_name, domains, link_addresses, dnses, routes, mtu } =
        p;
    ConnectionProperties {
        interface_name,
        domains,
        link_addresses: link_addresses_from_service(link_addresses),
        dnses: net_addresses_from_service(dnses),
        routes: routes_from_service(routes),
        mtu,
    }
}

/// Each service address converted, in order.
pub fn net_addresses_from_service(v: Vec<ServiceNetAddress>) -> (r: Vec<NetAddress>)
    ensures
        r@.len() == v@.len(),
        forall|i: int| 0 <= i < v@.len() ==> address_converted(#[trigger] r@[i], v@[i]),
{
    let ghost all = v@;
    let mut rest = v;
    let mut out: Vec<NetAddress> = Vec::new();
    while rest.len() > 0
        invariant
            out@.len() + rest@.len() == all.len(),
            rest@ == all.subrange(out@.len() as int, all.len() as int),
            forall|i: int| 0 <= i < out@.len() ==> address_converted(#[trigger] out@[i], all[i]),
        decreases rest@.len(),
    {
        let a = rest.remove(0);
        assert(a == all[out@.len() as int]);
        out.push(net_address_from_service(a));
        assert(rest@ =~= all.subrange(out@.len() as int, all.len() as int));
    }
    out
}

/// Each service link address converted, in order.
pub fn link_addresses_from_service(v: Vec<ServiceLinkAddress>) -> (r: Vec<LinkAddress>)
    ensures
        r@.len() == v@.len(),
        forall|i: int|
            0 <= i < v@.len() ==> address_converted(#[trigger] r@[i].address, v@[i].address)
                && r@[i].prefix_length == v@[i].prefix_length,
{
    let ghost all = v@;
    let mut rest = v;
    let mut out: Vec<LinkAddress> = Vec::new();
    while rest.len() > 0
        invariant
            out@.len() + rest@.len() == all.len(),
            rest@ == all.subrange(out@.len() as int, all.len() as int),
            forall|i: int|
                0 <= i < out@.len() ==> address_converted(#[trigger] out@[i].address, all[i].address)
                    && out@[i].prefix_length == all[i].prefix_length,
        decreases rest@.len(),
    {
        let a = rest.remove(0);
        assert(a == all[out@.len() as int]);
        out.push(link_address_from_service(a));
        assert(rest@ =~= all.subrange(out@.len() as int, all.len() as int));
    }
    out
}

/// Each service route converted, in order.
pub fn routes_from_service(v: Vec<ServiceRouteInfo>) -> (r: Vec<RouteInfo>)
    ensures
        r@.len() == v@.len(),
        forall|i: int|
            0 <= i < v@.len() ==> (#[trigger] r@[i]).iface@ == v@[i].iface@ && address_converted(
                r@[i].gateway,
                v@[i].gateway,
            ),
{
    let ghost all = v@;
    let mut rest = v;
    let mut out: Vec<RouteInfo> = Vec::new();
    while rest.len() > 0
        invariant
            out@.len() + rest@.len() == all.len(),
            rest@ == all.subrange(out@.len() as int, all.len() as int),
            forall|i: int|
                0 <= i < out@.len() ==> (#[trigger] out@[i]).iface@ == all[i].iface@
                    && address_converted(out@[i].gateway, all[i].gateway),
        decreases rest@.len(),
    {
        let a = rest.remove(0);
        assert(a == all[out@.len() as int]);
        out.push(route_info_from_service(a));
        assert(rest@ =~= all.subrange(out@.len() as int, all.len() as int));
    }
    out
}

/// The client of the connection service: each call's status and result as
/// the caller receives them. Status zero is success; any other status is
/// the error.
pub struct NetConnClient;

impl NetConnClient {
    /// The default network.
    pub fn get_default_net_handle(ret: i32, handle: NetHandle) -> (r: Result<NetHandle, i32>)
        ensures
            ret == 0 ==> r == Ok::<NetHandle, i32>(handle),
            ret != 0 ==> r == Err::<NetHandle, i32>(ret),
    {
        crate::error::status_to_result(ret, handle)
    }

    /// All networks.
    pub fn get_all_nets(ret: i32, handles: Vec<NetHandle>) -> (r: Result<Vec<NetHandle>, i32>)
        ensures
            ret == 0 ==> r is Ok && r->Ok_0@ == handles@,
            ret != 0 ==> r is Err && r->Err_0 == ret,
    {
        crate::error::status_to_result(ret, handles)
    }

    /// Whether there is a default network.
    pub fn has_default_net(ret: i32, has: bool) -> (r: Result<bool, i32>)
        ensures
            ret == 0 ==> r == Ok::<bool, i32>(has),
            ret != 0 ==> r == Err::<bool, i32>(ret),
    {
        crate::error::status_to_result(ret, has)
    }

    /// The capabilities of a network, converted from the service's codes.
    pub fn get_net_capabilities(ret: i32, caps: &ServiceNetCapabilities) -> (r: Result<
        NetCapabilities,
        i32,
    >)
        requires
            ret == 0 ==> forall|i: int|
                0 <= i < caps.network_cap@.len() ==> is_net_cap_code(#[trigger] caps.network_cap@[i]),
            ret == 0 ==> forall|i: int|
                0 <= i < caps.bearer_types@.len() ==> is_bearer_code(#[trigger] caps.bearer_types@[i]),
        ensures
            ret == 0 ==> r is Ok && r->Ok_0.link_up_bandwidth_kbps == Some(
                caps.link_up_bandwidth_kbps,
            ) && r->Ok_0.link_down_bandwidth_kbps == Some(caps.link_down_bandwidth_kbps)
                && r->Ok_0.bearer_types@.len() == caps.bearer_types@.len(),
            ret != 0 ==> r is Err && r->Err_0 == ret,
    {
        if ret != 0 {
            return Err(ret);
        }
        match net_capabilities_from_service(caps) {
            Some(c) => Ok(c),
            None => Err(ret),
        }
    }

    /// The default HTTP proxy.
    pub fn get_default_http_proxy(ret: i32, proxy: ServiceHttpProxy) -> (r: Result<HttpProxy, i32>)
        ensures
            ret == 0 ==> r is Ok && r->Ok_0.host@ == proxy.host@ && r->Ok_0.port == proxy.port,
            ret != 0 ==> r is Err && r->Err_0 == ret,
    {
        if ret != 0 {
            return Err(ret);
        }
        Ok(http_proxy_from_service(proxy))
    }

    /// The global HTTP proxy.
    pub fn get_global_http_proxy(ret: i32, proxy: ServiceHttpProxy) -> (r: Result<HttpProxy, i32>)
        ensures
            ret == 0 ==> r is Ok && r->Ok_0.host@ == proxy.host@ && r->Ok_0.port == proxy.port,
            ret != 0 ==> r is Err && r->Err_0 == ret,
    {
        if ret != 0 {
            return Err(ret);
        }
        Ok(http_proxy_from_service(proxy))
    }

    /// The outcome of setting the global HTTP proxy.
    pub fn set_global_http_proxy(ret: i32) -> (r: Result<(), i32>)
        ensures
            r is Ok <==> ret == 0,
            r is Err ==> r->Err_0 == ret,
    {
        crate::error::status_to_result(ret, ())
    }

    /// The outcome of setting the application's HTTP proxy.
    pub fn set_app_http_proxy(ret: i32) -> (r: Result<(), i32>)
        ensures
            r is Ok <==> ret == 0,
            r is Err ==> r->Err_0 == ret,
    {
        crate::error::status_to_result(ret, ())
    }

    /// The network the application is bound to.
    pub fn get_app_net(ret: i32, net_id: i32) -> (r: Result<i32, i32>)
        ensures
            ret == 0 ==> r == Ok::<i32, i32>(net_id),
            ret != 0 ==> r == Err::<i32, i32>(ret),
    {
        crate::error::status_to_result(ret, net_id)
    }

    /// The outcome of binding the application to a network.
    pub fn set_app_net(ret: i32) -> (r: Result<(), i32>)
        ensures
            r is Ok <==> ret == 0,
            r is Err ==> r->Err_0 == ret,
    {
        crate::error::status_to_result(ret, ())
    }

    /// The outcome of switching airplane mode.
    pub fn set_airplane_mode(ret: i32) -> (r: Result<(), i32>)
        ensures
            r is Ok <==> ret == 0,
            r is Err ==> r->Err_0 == ret,
    {
        crate::error::status_to_result(ret, ())
    }

    /// The outcome of resetting the network settings.
    pub fn factory_reset_network(ret: i32) -> (r: Result<(), i32>)
        ensures
            r is Ok <==> ret == 0,
            r is Err ==> r->Err_0 == ret,
    {
        crate::error::status_to_result(ret, ())
    }

    /// Whether the default network is metered.
    pub fn is_default_net_metered(ret: i32, metered: bool) -> (r: Result<bool, i32>)
        ensures
            ret == 0 ==> r == Ok::<bool, i32>(metered),
            ret != 0 ==> r == Err::<bool, i32>(ret),
    {
        crate::error::status_to_result(ret, metered)
    }

    /// The link properties of a network.
    pub fn get_connection_properties(ret: i32, props: ServiceConnectionProperties) -> (r: Result<
        ConnectionProperties,
        i32,
    >)
        ensures
            ret == 0 ==> r is Ok && r->Ok_0.interface_name@ == props.interface_name@
                && r->Ok_0.mtu == props.mtu,
            ret != 0 ==> r is Err && r->Err_0 == ret,
    {
        if ret != 0 {
            return Err(ret);
        }
        Ok(connection_properties_from_service(props))
    }

    /// The outcome of binding a socket to a network.
    pub fn bind_socket(ret: i32) -> (r: Result<(), i32>)
        ensures
            r is Ok <==> ret == 0,
            r is Err ==> r->Err_0 == ret,
    {
        crate::error::status_to_result(ret, ())
    }

    /// The outcome of a network detection.
    pub fn net_detection(ret: i32) -> (r: Result<(), i32>)
        ensures
            r is Ok <==> ret == 0,
            r is Err ==> r->Err_0 == ret,
    {
        crate::error::status_to_result(ret, ())
    }
}

/// The callbacks a connection reports its events to.
pub struct ConnCallback {
    pub on_net_available: Option<GlobalRefCallback>,
    pub on_net_block_status_change: Option<GlobalRefCallback>,
    pub on_net_capabilities_change: Option<GlobalRefCallback>,
    pub on_net_connection_properties_change: Option<GlobalRefCallback>,
    pub on_net_lost: Option<GlobalRefCallback>,
    pub on_net_unavailable: Option<GlobalRefCallback>,
}

impl ConnCallback {
    /// No callback registered yet.
    pub fn new() -> (r: ConnCallback)
        ensures
            r.on_net_available is None,
            r.on_net_block_status_change is None,
            r.on_net_capabilities_change is None,
            r.on_net_connection_properties_change is None,
            r.on_net_lost is None,
            r.on_net_unavailable is None,
    {
        ConnCallback {
            on_net_available: None,
            on_net_block_status_change: None,
            on_net_capabilities_change: None,
            on_net_connection_properties_change: None,
            on_net_lost: None,
            on_net_unavailable: None,
        }
    }
}

/// A connection: what it asks for, how long it waits, and its callbacks.
pub struct Connection {
    pub net_specifier: Option<NetSpecifier>,
    pub timeout: Option<i32>,
    pub callback: ConnCallback,
    pub registered: bool,
}

impl Connection {
    /// A connection with no callback and not registered.
    pub fn new(net_specifier: Option<NetSpecifier>, timeout: Option<i32>) -> (r: Connection)
        ensures
            r.timeout == timeout,
            r.net_specifier is Some <==> net_specifier is Some,
            !r.registered,
    {
        Connection { net_specifier, timeout, callback: ConnCallback::new(), registered: false }
    }

    /// What unregistering the connection's callbacks comes to: nothing to do
    /// and error 2101007 when none were registered, otherwise the service's
    /// status decides.
    pub fn unregister_outcome(&mut self, status: i32) -> (r: Result<(), BusinessError>)
        ensures
            !old(self).registered ==> r is Err && r->Err_0.code == 2101007 && r->Err_0.msg@
                == "No network change callback to unregister"@,
            old(self).registered && status == 0 ==> r is Ok && !final(self).registered,
            old(self).registered && status != 0 ==> r is Err && r->Err_0.code == status
                && r->Err_0.msg@ == "Failed to unregister network change callback"@
                && final(self).registered,
    {
        if !self.registered {
            return Err(BusinessError::new_static(2101007, "No network change callback to unregister"));
        }
        if status != 0 {
            return Err(BusinessError::new_static(status, "Failed to unregister network change callback"));
        }
        self.registered = false;
        Ok(())
    }
}

/// A service's status and result as the managed side receives them: a
/// non-zero status becomes its business error.
pub fn to_business_result<T>(r: Result<T, i32>) -> (res: Result<T, BusinessError>)
    ensures
        r is Ok ==> res is Ok && res->Ok_0 == r->Ok_0,
        r is Err ==> res is Err && res->Err_0.code == r->Err_0 && res->Err_0.msg@ == business_message(
            r->Err_0,
        ),
{
    match r {
        Ok(v) => Ok(v),
        Err(code) => Err(convert_to_business_error(code)),
    }
}

} // verus!
