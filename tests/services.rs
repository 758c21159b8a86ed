use ani_rs::callback::{GlobalRefCallback, Holders};
use ani_rs::connection::{
    custom_dns_rule, http_proxy_from_service, http_proxy_to_service, net_address_from_service,
    net_capabilities_from_service, Connection, HttpProxy, NetBearType, NetCap, NetConnClient,
    NetHandle, ServiceHttpProxy, ServiceNetAddress, ServiceNetCapabilities,
};
use ani_rs::connection_ani::{net_address_to_ani, ConnEvent};
use ani_rs::env::{AniEnv, ManagedValue};
use ani_rs::error::convert_to_business_error;
use ani_rs::connection::NetAddress;
use ani_rs::statistics::{
    get_all_rx_bytes, get_traffic_stats_by_network, uid_stats_map, AniUidNetStatsInfoPair,
    CallbackFlavor, NetStatsChangeInfo, NetStatsInfo, Registar,
};
use ani_rs::worker::WorkerQueue;

fn stats(n: i64) -> NetStatsInfo {
    NetStatsInfo { rx_bytes: n, tx_bytes: n + 1, rx_packets: n + 2, tx_packets: n + 3 }
}

#[test]
fn business_error_codes_and_messages() {
    let e = convert_to_business_error(201);
    assert_eq!((e.code, e.msg.as_str()), (201, "Permission denied."));
    let e = convert_to_business_error(401);
    assert_eq!((e.code, e.msg.as_str()), (401, "Parameter error."));
    let e = convert_to_business_error(2100002);
    assert_eq!(e.msg, "Failed to connect to the service.");
    let e = convert_to_business_error(2100003);
    assert_eq!(e.msg, "System internal error.");
    let e = convert_to_business_error(-5);
    assert_eq!((e.code, e.msg.as_str()), (-5, "Unknown error"));
}

#[test]
fn service_status_decides_result() {
    assert_eq!(NetConnClient::get_app_net(0, 12), Ok(12));
    assert_eq!(NetConnClient::get_app_net(2100003, 12), Err(2100003));
    assert_eq!(NetConnClient::set_app_net(0), Ok(()));
    assert_eq!(NetConnClient::bind_socket(-1), Err(-1));
    assert_eq!(
        NetConnClient::get_default_net_handle(0, NetHandle { net_id: 100 }),
        Ok(NetHandle { net_id: 100 })
    );
}

#[test]
fn zero_family_and_port_are_absent() {
    let a = net_address_from_service(ServiceNetAddress {
        address: "10.0.0.1".to_string(),
        family: 0,
        port: 80,
    });
    assert_eq!(a.address, "10.0.0.1");
    assert_eq!(a.family, None);
    assert_eq!(a.port, Some(80));
}

#[test]
fn proxy_credentials_round_trip() {
    let p = HttpProxy {
        host: "proxy".to_string(),
        port: 8080,
        username: None,
        password: Some("pw".to_string()),
        exclusion_list: vec!["a".to_string()],
    };
    let s = http_proxy_to_service(p);
    assert_eq!(s.username, "");
    assert_eq!(s.password, "pw");
    let back = http_proxy_from_service(ServiceHttpProxy { ..s });
    assert_eq!(back.username, Some(String::new()));
    assert_eq!(back.exclusion_list, vec!["a".to_string()]);
}

#[test]
fn capability_codes_convert() {
    let c = ServiceNetCapabilities {
        link_up_bandwidth_kbps: 10,
        link_down_bandwidth_kbps: 20,
        network_cap: vec![12, 16],
        bearer_types: vec![1],
    };
    let n = net_capabilities_from_service(&c).unwrap();
    assert_eq!(n.network_cap.unwrap(), vec![NetCap::NetCapabilityInternet, NetCap::NetCapabilityValidated]);
    assert_eq!(n.bearer_types, vec![NetBearType::BearerWifi]);
    assert_eq!(NetCap::NetCapabilityCheckingConnectivity.get_enum_index(), 6);
    assert_eq!(NetBearType::BearerVpn.get_enum_index(), 4);
    let bad = ServiceNetCapabilities { network_cap: vec![13], ..c };
    assert!(net_capabilities_from_service(&bad).is_none());
}

#[test]
fn dns_rule_text() {
    let ips = vec!["1.1.1.1".to_string(), "8.8.8.8".to_string()];
    assert_eq!(custom_dns_rule("example.com".to_string(), &ips), "example.com,1.1.1.1,8.8.8.8");
    assert_eq!(custom_dns_rule("h".to_string(), &Vec::new()), "h,");
}

#[test]
fn unregister_without_registration_fails() {
    let mut c = Connection::new(None, Some(5));
    let e = c.unregister_outcome(0).unwrap_err();
    assert_eq!(e.code, 2101007);
    c.registered = true;
    assert_eq!(c.unregister_outcome(3).unwrap_err().code, 3);
    assert!(c.unregister_outcome(0).is_ok());
    assert!(!c.registered);
}

#[test]
fn address_written_as_object() {
    let mut env = AniEnv::new();
    let a = NetAddress { address: "::1".to_string(), family: Some(10), port: None };
    let h = net_address_to_ani(&mut env, &a).unwrap();
    match env.value_of(&h).unwrap() {
        ManagedValue::Object { class, fields } => {
            assert_eq!(class, "@ohos.net.connection.connection.NetAddressInner");
            assert!(matches!(env.value_of(&fields[1]).unwrap(), ManagedValue::Int(10)));
            assert!(matches!(env.value_of(&fields[2]).unwrap(), ManagedValue::Int(0)));
        }
        other => panic!("not an object: {:?}", other),
    }
}

#[test]
fn connection_event_goes_to_its_callback() {
    let mut env = AniEnv::new();
    let mut holders = Holders::new();
    let mut queue: WorkerQueue<ConnEvent> = WorkerQueue::new();
    let f = env.new_function(1).unwrap();
    let g = f.into_global_callback(&mut env, &mut holders).unwrap();
    let mut cb = ani_rs::connection::ConnCallback::new();
    assert_eq!(cb.dispatch(&holders, &mut queue, ConnEvent::Lost(NetHandle { net_id: 1 })), 0);
    assert_eq!(queue.pending.len(), 0);
    cb.on_net_lost = Some(g);
    cb.dispatch(&holders, &mut queue, ConnEvent::Lost(NetHandle { net_id: 1 }));
    assert_eq!(queue.drain(&mut env), 0);
    assert_eq!(env.calls.len(), 1);
}

#[test]
fn byte_counts_and_errors() {
    assert_eq!(get_all_rx_bytes(0, 1234).unwrap(), 1234);
    assert_eq!(get_all_rx_bytes(0, u64::MAX).unwrap(), -1);
    assert_eq!(get_all_rx_bytes(2103005, 7).unwrap_err().code, 2103005);
}

#[test]
fn last_traffic_per_uid_wins() {
    let pairs = vec![
        AniUidNetStatsInfoPair { uid: 1, net_stats_info: stats(10) },
        AniUidNetStatsInfoPair { uid: 2, net_stats_info: stats(20) },
        AniUidNetStatsInfoPair { uid: 1, net_stats_info: stats(30) },
    ];
    let m = uid_stats_map(&pairs);
    assert_eq!(m.len(), 2);
    assert_eq!(m.get(&1), Some(&stats(30)));
    assert_eq!(m.get(&2), Some(&stats(20)));
    assert!(get_traffic_stats_by_network(5, pairs).is_err());
}

#[test]
fn registrar_replaces_and_dispatches() {
    let mut env = AniEnv::new();
    let mut holders = Holders::new();
    let mut queue: WorkerQueue<NetStatsChangeInfo> = WorkerQueue::new();
    let mut reg = Registar::new();
    let f1 = env.new_function(1).unwrap();
    let g1 = f1.into_global_callback(&mut env, &mut holders).unwrap();
    let f2 = env.new_function(2).unwrap();
    let g2 = f2.into_global_callback(&mut env, &mut holders).unwrap();
    assert_eq!(reg.register(CallbackFlavor::NetStatesChange(GlobalRefCallback { slot: g1.slot }), 7), Err(7));
    assert!(reg.listeners.is_empty());
    reg.register(CallbackFlavor::NetStatesChange(g1), 0).unwrap();
    reg.register(CallbackFlavor::NetStatesChange(g2), 0).unwrap();
    assert_eq!(reg.listeners.len(), 2);
    reg.on_net_iface_stats_changed(&holders, &mut queue, "wlan0".to_string(), 1000);
    assert_eq!(queue.pending.len(), 2);
    assert_eq!(queue.pending[0].input.uid, None);
    reg.on_net_uid_stats_changed(&holders, &mut queue, "wlan0".to_string(), 1000);
    assert_eq!(queue.pending[3].input.uid, Some(1000));
    assert_eq!(queue.drain(&mut env), 0);
    assert_eq!(env.calls.len(), 4);
    assert!(!reg.unregister(Some(CallbackFlavor::NetStatesChange(GlobalRefCallback { slot: 0 }))));
    assert_eq!(reg.listeners.len(), 1);
    assert!(reg.unregister(None));
}

#[test]
fn three_listeners_on_one_event_each_run_once_in_order() {
    let mut env = AniEnv::new();
    let mut holders = Holders::new();
    let mut queue: WorkerQueue<NetStatsChangeInfo> = WorkerQueue::new();
    let mut reg = Registar::new();
    let mut handles = Vec::new();
    for id in 0..3 {
        let f = env.new_function(id).unwrap();
        let g = f.into_global_callback(&mut env, &mut holders).unwrap();
        handles.push(holders.global_of(&g).as_raw());
        reg.register(CallbackFlavor::NetStatesChange(g), 0).unwrap();
    }
    reg.on_net_iface_stats_changed(&holders, &mut queue, "eth0".to_string(), 5);
    assert_eq!(queue.drain(&mut env), 0);
    let called: Vec<u64> = env.calls.iter().map(|c| c.function).collect();
    assert_eq!(called, handles);
}

