use corp::proxy::{forward_step, ForwardAction, ForwardEvent};
use corp::colony::Colony;
use corp::proxy::{
    backend_headers, close_plan, init_config, is_connection_closed, lowered_error_means_closed,
    resolve_backend, CloseReason, CloseTrigger, ConnectionAction, ConnectionManager,
    ConnectionState, GameProxy, ProxyConfig, RouteError,
};
use corp::routes::RouteTable;

#[test]
fn colony_names_parse_exactly() {
    assert_eq!(Colony::parse("Iris"), Some(Colony::Iris));
    assert_eq!(Colony::parse("StarMap"), Some(Colony::StarMap));
    assert_eq!(Colony::parse("Playground"), Some(Colony::Playground));
    assert_eq!(Colony::parse("iris"), None);
    assert_eq!(Colony::parse(""), None);
    assert_eq!(Colony::parse("Iris "), None);
    for c in [Colony::Iris, Colony::Cloning, Colony::StarMap, Colony::Liberte, Colony::Playground] {
        assert_eq!(Colony::parse(c.name()), Some(c));
    }
}

#[test]
fn route_table_reads_back_writes() {
    let mut routes = RouteTable::new();
    assert!(routes.entries().is_empty());
    routes.insert(Colony::Iris, "https://a:1".to_string());
    routes.insert(Colony::Liberte, "https://b:2".to_string());
    routes.insert(Colony::Iris, "https://c:3".to_string());
    assert_eq!(
        routes.entries(),
        vec![(Colony::Iris, "https://c:3".to_string()), (Colony::Liberte, "https://b:2".to_string())]
    );
    assert_eq!(routes.get(Colony::Iris), Some(&"https://c:3".to_string()));
    assert_eq!(routes.get(Colony::Liberte), Some(&"https://b:2".to_string()));
    assert_eq!(routes.get(Colony::Cloning), None);
}

#[test]
fn deployed_config_routes_four_colonies() {
    let config = init_config();
    assert_eq!(config.port, 25560);
    assert_eq!(config.routes.entries().len(), 4);
    assert_eq!(config.routes.get(Colony::Iris), Some(&"https://localhost:25565".to_string()));
    assert_eq!(config.routes.get(Colony::Cloning), Some(&"https://localhost:25566".to_string()));
    assert_eq!(config.routes.get(Colony::StarMap), Some(&"https://localhost:25567".to_string()));
    assert_eq!(config.routes.get(Colony::Liberte), Some(&"https://localhost:25568".to_string()));
    assert_eq!(config.routes.get(Colony::Playground), None);
    assert!(config.cert_path.is_none() && config.key_path.is_none());
}

#[test]
fn default_config() {
    let config = ProxyConfig::default();
    assert_eq!(config.port, 8000);
    assert!(config.routes.entries().is_empty());
    assert!(config.cert_path.is_none() && config.key_path.is_none());
}

#[test]
fn identity_files_default_to_certs_dir() {
    let proxy = GameProxy::new(ProxyConfig::default());
    let (cert, key) = proxy.identity_files();
    assert_eq!(cert, "./certs/server.pem");
    assert_eq!(key, "./certs/server.key");
    let mut config = ProxyConfig::default();
    config.cert_path = Some("/etc/c.pem".to_string());
    let (cert, key) = GameProxy::new(config).identity_files();
    assert_eq!(cert, "/etc/c.pem");
    assert_eq!(key, "./certs/server.key");
}

#[test]
fn sessions_resolve_to_their_backend() {
    let config = init_config();
    assert_eq!(
        resolve_backend(&config.routes, Some("Liberte")),
        Ok("https://localhost:25568".to_string())
    );
    assert_eq!(
        resolve_backend(&config.routes, Some("Playground")),
        Err(RouteError::NoBackend("Playground".to_string()))
    );
    assert_eq!(
        resolve_backend(&config.routes, Some("Atlantis")),
        Err(RouteError::UnknownColony("Atlantis".to_string()))
    );
    assert_eq!(
        resolve_backend(&config.routes, None),
        Err(RouteError::UnknownColony(String::new()))
    );
}

#[test]
fn backend_headers_forward_token_and_route() {
    let headers = backend_headers(Some("abc"), Some("Iris"));
    assert_eq!(
        headers,
        vec![
            ("x-token".to_string(), "abc".to_string()),
            ("x-route".to_string(), "Iris".to_string())
        ]
    );
    let headers = backend_headers(None, None);
    assert_eq!(headers[0].1, "");
    assert_eq!(headers[1].1, "");
}

#[test]
fn closed_connection_errors_are_recognised() {
    assert!(is_connection_closed("Connection reset by peer"));
    assert!(is_connection_closed("APPLICATION CLOSED (code 0)"));
    assert!(is_connection_closed("the stream was Closed"));
    assert!(is_connection_closed("operation Timed Out"));
    assert!(is_connection_closed("No route to host"));
    assert!(!is_connection_closed("invalid header value"));
    assert!(!is_connection_closed(""));
    assert!(lowered_error_means_closed("broken pipe"));
    assert!(!lowered_error_means_closed("BROKEN PIPE"));
}

#[test]
fn connection_life_cycle() {
    let mut manager = ConnectionManager::new();
    assert!(manager.is_connected());
    assert!(!manager.is_cancelled());
    assert_eq!(manager.mark_disconnecting(), ConnectionAction::CancelTasks);
    assert!(!manager.is_connected());
    assert_eq!(manager.state(), ConnectionState::Disconnecting);
    assert!(manager.is_cancelled());
    assert_eq!(manager.mark_disconnected(), ConnectionAction::SignalCleanup);
    assert_eq!(manager.state(), ConnectionState::Disconnected);
    assert!(manager.is_cancelled());
    assert!(!manager.is_connected());
}

#[test]
fn disconnected_without_cancel_keeps_tasks() {
    let mut manager = ConnectionManager::new();
    manager.mark_disconnected();
    assert!(!manager.is_connected());
    assert!(!manager.is_cancelled());
}

#[test]
fn closes_are_forwarded() {
    assert_eq!(close_plan(CloseTrigger::FrontendClosed), (None, Some(CloseReason::ClientDisconnected)));
    assert_eq!(close_plan(CloseTrigger::BackendClosed), (Some(CloseReason::ServerDisconnected), None));
    assert_eq!(
        close_plan(CloseTrigger::Cancelled),
        (Some(CloseReason::ProxyShutdown), Some(CloseReason::ProxyShutdown))
    );
}

#[test]
fn forwarding_loops_stop_on_closed_connections() {
    assert_eq!(forward_step(&ForwardEvent::StreamAccepted), ForwardAction::OpenPeer);
    assert_eq!(forward_step(&ForwardEvent::PeerStreamOpened), ForwardAction::Forward);
    assert_eq!(forward_step(&ForwardEvent::DatagramReceived), ForwardAction::Forward);
    assert_eq!(forward_step(&ForwardEvent::Cancelled), ForwardAction::Stop);
    assert_eq!(
        forward_step(&ForwardEvent::Failed("Connection Lost".to_string())),
        ForwardAction::Stop
    );
    assert_eq!(
        forward_step(&ForwardEvent::Failed("flow control violation".to_string())),
        ForwardAction::Continue
    );
    assert_eq!(
        forward_step(&ForwardEvent::PeerConnectionFailed("QUIC protocol error".to_string())),
        ForwardAction::Abort
    );
    assert_eq!(
        forward_step(&ForwardEvent::PeerConnectionFailed("connection closed".to_string())),
        ForwardAction::Abort
    );
}
