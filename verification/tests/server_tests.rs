use cmux_preview_proxy::server::{
    BindOutcome, BindStep, ProxyConfig, ProxyServer, StartDecision,
};

#[test]
fn default_range_is_fifty_ports_from_39385() {
    let config = ProxyConfig::default();
    assert_eq!(config.port_start, 39385);
    assert_eq!(config.port_range, 50);
}

#[test]
fn scan_moves_on_only_when_the_address_is_in_use() {
    let config = ProxyConfig { port_start: 50000, port_range: 3 };
    assert_eq!(config.first_step(), BindStep::Try(50000));
    assert_eq!(config.next_step(50000, BindOutcome::AddrInUse), BindStep::Try(50001));
    assert_eq!(config.next_step(50001, BindOutcome::AddrInUse), BindStep::Try(50002));
    assert_eq!(config.next_step(50002, BindOutcome::AddrInUse), BindStep::Exhausted);
    assert_eq!(config.next_step(50001, BindOutcome::Bound), BindStep::Listening(50001));
    assert_eq!(config.next_step(50000, BindOutcome::Failed), BindStep::Fatal);
}

#[test]
fn scan_stops_at_the_last_port_there_is() {
    let config = ProxyConfig { port_start: 65534, port_range: 10 };
    assert_eq!(config.first_step(), BindStep::Try(65534));
    assert_eq!(config.next_step(65534, BindOutcome::AddrInUse), BindStep::Try(65535));
    assert_eq!(config.next_step(65535, BindOutcome::AddrInUse), BindStep::Exhausted);
    let none = ProxyConfig { port_start: 4000, port_range: 0 };
    assert_eq!(none.first_step(), BindStep::Exhausted);
}

#[test]
fn start_is_idempotent_while_the_listener_stands() {
    let config = ProxyConfig { port_start: 50000, port_range: 10 };
    let mut server = ProxyServer::new();
    assert_eq!(server.port(), None);
    assert_eq!(server.start(&config), StartDecision::Bind(BindStep::Try(50000)));
    server.listener_bound(50003);
    assert_eq!(server.port(), Some(50003));
    assert_eq!(server.start(&config), StartDecision::Running(50003));
    assert_eq!(server.start(&config), StartDecision::Running(50003));
    assert_eq!(server.shutdown(), Some(50003));
    assert_eq!(server.shutdown(), None);
    assert_eq!(server.start(&config), StartDecision::Bind(BindStep::Try(50000)));
}

#[test]
fn contexts_can_be_registered_before_start_and_outlive_a_stop() {
    let mut server = ProxyServer::new();
    let cred = server
        .register_context(9, "https://cmux-abc-base-3000.cmux.app/", None)
        .unwrap();
    assert_eq!(server.credentials_for_context(9).unwrap().username, cred.username);
    assert!(server.register_context(10, "https://example.com", None).is_none());
    server.listener_bound(40000);
    server.shutdown();
    assert_eq!(server.state().get_context_by_web_contents_id(9).unwrap().password, cred.password);
    assert!(server.release_context(9));
    assert!(!server.release_context(9));
    assert!(server.credentials_for_context(9).is_none());
    server.set_logging_enabled(true);
    assert!(server.state().is_logging_enabled());
}

#[test]
fn persist_key_filter_is_set_on_the_server() {
    let url = "https://cmux-abc-base-3000.cmux.app/";
    let mut server = ProxyServer::new();
    server.set_persist_key_prefix(Some("task-".to_string()));
    assert!(server.register_context(1, url, None).is_none());
    assert!(server.register_context(1, url, Some("other-1".to_string())).is_none());
    assert!(server.credentials_for_context(1).is_none());
    assert!(server.register_context(1, url, Some("task-1".to_string())).is_some());
    assert!(server.credentials_for_context(1).is_some());
    server.set_persist_key_prefix(None);
    assert!(server.register_context(2, url, None).is_some());
    assert!(server.credentials_for_context(1).is_some());
}
