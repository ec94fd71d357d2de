use shoes::connector::{
    advance_endpoint_counter, derive_sni_hostname, pick_endpoint, quic_endpoint_count,
    ClientConfig, ClientProxyConfig, ClientQuicConfig, ConnectorPlan, NoneOrOne, TcpConfig,
    Transport, TransportPlan,
};
use shoes::location::{write_location_to_vec, NetLocation};

fn config(transport: Transport, protocol: ClientProxyConfig) -> ClientConfig {
    ClientConfig {
        bind_interface: NoneOrOne::Unspecified,
        address: NetLocation::from_hostname(b"proxy.example".to_vec(), 8388).unwrap(),
        transport,
        tcp_settings: None,
        quic_settings: None,
        protocol,
        resolve_hostnames: false,
    }
}

#[test]
fn unsupported_transport_fails_at_construction() {
    assert!(ConnectorPlan::try_from(config(Transport::Udp, ClientProxyConfig::Direct), 4).is_none());
}

#[test]
fn unknown_cipher_fails_at_construction() {
    let protocol = ClientProxyConfig::Shadowsocks {
        cipher: "rot13".to_string(),
        password: "pw".to_string(),
    };
    assert!(ConnectorPlan::try_from(config(Transport::Tcp, protocol), 4).is_none());
}

#[test]
fn tcp_plan_keeps_no_delay() {
    let mut c = config(Transport::Tcp, ClientProxyConfig::Direct);
    c.tcp_settings = Some(TcpConfig { no_delay: false });
    c.bind_interface = NoneOrOne::One("eth0".to_string());
    let plan = ConnectorPlan::try_from(c, 4).unwrap();
    assert!(matches!(plan.transport(), TransportPlan::Tcp { no_delay: false }));
    assert!(plan.handler().is_none());
    assert_eq!(plan.bind_interface(), Some(&"eth0".to_string()));
    let remote = NetLocation::from_ipv4([8, 8, 8, 8], 53);
    assert_eq!(
        write_location_to_vec(plan.connect_target(&remote)),
        write_location_to_vec(&remote)
    );
    assert_eq!(plan.quic_domain(), None);
}

#[test]
fn proxied_plan_connects_to_proxy() {
    let protocol = ClientProxyConfig::ShadowsocksAead2022 {
        cipher: "2022-blake3-aes-256-gcm".to_string(),
        key: vec![5; 32],
    };
    let plan = ConnectorPlan::try_from(config(Transport::Tcp, protocol), 4).unwrap();
    assert!(matches!(plan.transport(), TransportPlan::Tcp { no_delay: true }));
    assert!(plan.handler().unwrap().is_aead2022());
    let remote = NetLocation::from_hostname(b"example.org".to_vec(), 443).unwrap();
    assert_eq!(
        write_location_to_vec(plan.connect_target(&remote)),
        write_location_to_vec(plan.location())
    );
    assert!(!plan.should_resolve_remote(&remote));
}

#[test]
fn resolving_hostnames_is_opt_in() {
    let protocol = ClientProxyConfig::Shadowsocks {
        cipher: "aes-128-gcm".to_string(),
        password: "pw".to_string(),
    };
    let mut c = config(Transport::Tcp, protocol);
    c.resolve_hostnames = true;
    let plan = ConnectorPlan::try_from(c, 1).unwrap();
    let by_name = NetLocation::from_hostname(b"example.org".to_vec(), 443).unwrap();
    let by_address = NetLocation::from_ipv4([1, 2, 3, 4], 443);
    assert!(plan.should_resolve_remote(&by_name));
    assert!(!plan.should_resolve_remote(&by_address));
}

#[test]
fn quic_plan_defaults_sni_to_destination_hostname() {
    let plan = ConnectorPlan::try_from(config(Transport::Quic, ClientProxyConfig::Direct), 64).unwrap();
    match plan.transport() {
        TransportPlan::Quic { sni_hostname, verify, alpn_protocols, endpoint_count } => {
            assert_eq!(sni_hostname.as_deref(), Some(&b"proxy.example"[..]));
            assert!(*verify);
            assert!(alpn_protocols.is_empty());
            assert_eq!(*endpoint_count, 32);
        }
        other => panic!("unexpected {:?}", other),
    }
    assert_eq!(plan.quic_domain(), Some(b"proxy.example".to_vec()));
}

#[test]
fn quic_plan_with_sni_disabled() {
    let mut c = config(Transport::Quic, ClientProxyConfig::Direct);
    c.quic_settings = Some(ClientQuicConfig {
        verify: false,
        alpn_protocols: vec!["h3".to_string()],
        sni_hostname: NoneOrOne::Absent,
    });
    let plan = ConnectorPlan::try_from(c, 3).unwrap();
    match plan.transport() {
        TransportPlan::Quic { sni_hostname, verify, alpn_protocols, endpoint_count } => {
            assert_eq!(*sni_hostname, None);
            assert!(!*verify);
            assert_eq!(alpn_protocols, &vec!["h3".to_string()]);
            assert_eq!(*endpoint_count, 3);
        }
        other => panic!("unexpected {:?}", other),
    }
    assert_eq!(plan.quic_domain(), Some(b"proxy.example".to_vec()));
}

#[test]
fn sni_precedence() {
    let default = Some(b"dest.example".to_vec());
    assert_eq!(
        derive_sni_hostname(NoneOrOne::One(b"sni.example".to_vec()), default.clone()),
        Some(b"sni.example".to_vec())
    );
    assert_eq!(derive_sni_hostname(NoneOrOne::Unspecified, default.clone()), default);
    assert_eq!(derive_sni_hostname(NoneOrOne::Absent, default), None);
    assert_eq!(derive_sni_hostname(NoneOrOne::Unspecified, None), None);
}

#[test]
fn endpoint_count_is_capped() {
    assert_eq!(quic_endpoint_count(1), 1);
    assert_eq!(quic_endpoint_count(8), 8);
    assert_eq!(quic_endpoint_count(32), 32);
    assert_eq!(quic_endpoint_count(33), 32);
}

#[test]
fn endpoints_are_taken_in_rotation() {
    let pool_len = 4;
    let mut counter = 0;
    let mut picked = Vec::new();
    for _ in 0..2 * pool_len {
        picked.push(pick_endpoint(counter, pool_len));
        counter = advance_endpoint_counter(counter, pool_len);
    }
    assert_eq!(picked, vec![0, 1, 2, 3, 0, 1, 2, 3]);
}

#[test]
fn single_endpoint_pool_always_picks_it() {
    let mut counter = 0;
    for _ in 0..3 {
        assert_eq!(pick_endpoint(counter, 1), 0);
        counter = advance_endpoint_counter(counter, 1);
    }
    assert_eq!(counter, 0);
}
