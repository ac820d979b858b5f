use ostrich_protocol::tun_inbound::{
    has_fake_dns_conflict, plan_tun_inbound, FakeDnsMode, TunDeviceConfig, TunInboundError, TunInboundSettings,
};

fn settings() -> TunInboundSettings {
    TunInboundSettings {
        fd: -1,
        auto: false,
        name: "utun8".to_string(),
        address: "10.10.0.2".to_string(),
        gateway: "10.10.0.1".to_string(),
        netmask: "255.255.255.0".to_string(),
        mtu: 1500,
        fake_dns_exclude: vec![],
        fake_dns_include: vec![],
    }
}

#[test]
fn both_fake_dns_lists_are_refused() {
    let mut s = settings();
    s.fake_dns_exclude = vec!["a.com".to_string()];
    s.fake_dns_include = vec!["b.com".to_string()];
    let err = plan_tun_inbound(s).err().unwrap();
    assert_eq!(err, TunInboundError::FakeDnsModeConflict);
    assert_eq!(err.message(), "fake DNS run in either include mode or exclude mode");
}

#[test]
fn include_list_selects_include_mode() {
    let mut s = settings();
    s.fake_dns_include = vec!["b.com".to_string()];
    let plan = plan_tun_inbound(s).ok().unwrap();
    assert_eq!(plan.fake_dns_mode, FakeDnsMode::Include);
    assert_eq!(plan.fake_dns_filters, vec!["b.com".to_string()]);
}

#[test]
fn exclude_mode_is_the_default() {
    let mut s = settings();
    s.fake_dns_exclude = vec!["a.com".to_string()];
    let plan = plan_tun_inbound(s).ok().unwrap();
    assert_eq!(plan.fake_dns_mode, FakeDnsMode::Exclude);
    assert_eq!(plan.fake_dns_filters, vec!["a.com".to_string()]);
    let plan = plan_tun_inbound(settings()).ok().unwrap();
    assert_eq!(plan.fake_dns_mode, FakeDnsMode::Exclude);
    assert!(plan.fake_dns_filters.is_empty());
}

#[test]
fn device_choice() {
    let mut s = settings();
    s.fd = 7;
    match plan_tun_inbound(s).ok().unwrap().device {
        TunDeviceConfig::RawFd(fd) => assert_eq!(fd, 7),
        _ => panic!("expected a raw descriptor"),
    }
    let mut s = settings();
    s.auto = true;
    assert!(matches!(plan_tun_inbound(s).ok().unwrap().device, TunDeviceConfig::Auto));
    match plan_tun_inbound(settings()).ok().unwrap().device {
        TunDeviceConfig::Manual { name, address, gateway, netmask, mtu } => {
            assert_eq!(name, "utun8");
            assert_eq!(address, "10.10.0.2");
            assert_eq!(gateway, "10.10.0.1");
            assert_eq!(netmask, "255.255.255.0");
            assert_eq!(mtu, 1500);
        }
        _ => panic!("expected a manual device"),
    }
}

#[test]
fn conflict_is_detected() {
    let mut s = settings();
    assert!(!has_fake_dns_conflict(&s));
    s.fake_dns_exclude = vec!["a.com".to_string()];
    assert!(!has_fake_dns_conflict(&s));
    s.fake_dns_include = vec!["b.com".to_string()];
    assert!(has_fake_dns_conflict(&s));
}
