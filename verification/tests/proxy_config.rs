use bulletforcehax::config::{get_app_config, get_config, AppConfig, Config, PartialAppConfig, PartialConfig};
use bulletforcehax::proxy::{plan_web_request, websocket_target_port, Direction, ProxyError, RequestPlan, WebSocketServer};

#[test]
fn servers_by_port() {
    assert_eq!(WebSocketServer::from_port(2053), Some(WebSocketServer::LobbyServer));
    assert_eq!(WebSocketServer::from_port(2083), Some(WebSocketServer::GameServer));
    assert_eq!(WebSocketServer::from_port(443), None);
    assert_eq!(WebSocketServer::LobbyServer.name(), "lobby");
    assert_eq!(WebSocketServer::GameServer.name(), "game");
    assert_eq!(Direction::ClientToServer.name(), "c->s");
    assert_eq!(Direction::ServerToClient.name(), "s->c");
}

#[test]
fn websocket_targets() {
    assert_eq!(websocket_target_port(Some("wss://game-eu.exitgames.com:2083/")), Ok(2083));
    assert_eq!(websocket_target_port(Some("wss://game-eu.exitgames.com/")), Ok(0));
    assert_eq!(websocket_target_port(None), Err(ProxyError::NoQuery));
    assert_eq!(websocket_target_port(Some("not a uri")), Err(ProxyError::InvalidUri));
}

#[test]
fn web_request_plans() {
    assert_eq!(plan_web_request(None, "GET"), Ok(RequestPlan::NoTarget));
    assert_eq!(plan_web_request(Some("https://cdp.cloud.unity3d.com/v1/events"), "POST"), Ok(RequestPlan::Blocked));
    assert_eq!(plan_web_request(Some("https://pref-events.cloud.unity3d.com/x"), "GET"), Ok(RequestPlan::Blocked));
    assert_eq!(plan_web_request(Some("https://example.com/x"), "GET"), Ok(RequestPlan::Forward { with_body: true }));
    assert_eq!(plan_web_request(Some("https://example.com/x"), "PUT"), Ok(RequestPlan::Forward { with_body: true }));
    assert_eq!(plan_web_request(Some("https://example.com/x"), "HEAD"), Ok(RequestPlan::Forward { with_body: false }));
    assert_eq!(plan_web_request(Some("not a uri"), "GET"), Err(ProxyError::InvalidUri));
}

fn empty() -> PartialConfig<String> {
    PartialConfig::empty()
}

#[test]
fn config_defaults() {
    let c = get_config(Config::defaults(), empty(), empty());
    assert_eq!(c.config_file, "config.toml");
    assert_eq!(c.port, 48897);
    assert_eq!(c.game_dir, "bfhax_data/game_files");
    assert_eq!(c.log_dir, "bfhax_data/logs");
    assert!(!c.hax);
    assert!(c.hax_http);
}

#[test]
fn config_file_then_command_line() {
    let mut file = empty();
    file.hax = Some(true);
    file.port = Some(1234);
    file.log_dir = Some("file_logs".to_string());
    let mut cli = empty();
    cli.port = Some(4321);
    cli.hax_http = Some(false);
    let c = get_config(Config::defaults(), file, cli);
    assert!(c.hax);
    assert_eq!(c.port, 4321);
    assert_eq!(c.log_dir, "file_logs");
    assert!(!c.hax_http);
    assert_eq!(c.game_dir, "bfhax_data/game_files");
}

#[test]
fn app_config() {
    let c = get_app_config(AppConfig::defaults(), PartialAppConfig { profile_dir: None, game_dir: Some("g".to_string()), log_dir: None });
    assert_eq!(c.profile_dir, "bfhax_data/browser_profile");
    assert_eq!(c.game_dir, "g");
    assert_eq!(c.log_dir, "bfhax_data/logs");
}
