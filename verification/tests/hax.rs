use bulletforcehax::hax::rooms::{force_games_current_ver, force_games_web, strip_password};
use bulletforcehax::hax::{forwards, HaxError, HaxState};
use bulletforcehax::highlevel::constants::{event_code, operation_code, parameter_code};
use bulletforcehax::highlevel::structs::RoomInfo;
use bulletforcehax::message::{EventData, OperationRequest, PhotonMessage};
use bulletforcehax::ordered_map::OrderedMap;
use bulletforcehax::proxy::{Direction, WebSocketServer};
use bulletforcehax::state::{C2SMessage, FeatureSettings, S2CMessage};
use bulletforcehax::value::{PhotonDataType, PhotonHashmap};
use bulletforcehax::error::ReadError;

fn s(x: &str) -> PhotonDataType {
    PhotonDataType::String(x.to_string())
}

fn room(props: &[(&str, &str)]) -> RoomInfo {
    let mut custom = OrderedMap::new();
    for (k, v) in props {
        custom.insert(k.to_string(), s(v));
    }
    RoomInfo {
        removed: None,
        max_players: None,
        is_open: None,
        is_visible: None,
        player_count: None,
        cleanup_cache_on_leave: None,
        master_client_id: None,
        props_listed_in_lobby: None,
        expected_users: None,
        empty_room_ttl: None,
        player_ttl: None,
        custom_properties: custom,
    }
}

fn prop(r: &RoomInfo, k: &str) -> Option<String> {
    match r.custom_properties.get(&k.to_string()) {
        Some(PhotonDataType::String(v)) => Some(v.clone()),
        _ => None,
    }
}

fn encode(m: &PhotonMessage) -> Vec<u8> {
    let mut buf = vec![];
    m.to_websocket_bytes(&mut buf).unwrap();
    buf
}

#[test]
fn strip_password_marks_and_clears() {
    let mut r = room(&[("roomName", "Room"), ("password", "secret")]);
    strip_password(&mut r);
    assert_eq!(prop(&r, "roomName").unwrap(), "[p] Room");
    assert_eq!(prop(&r, "password").unwrap(), "");
    // a second pass changes nothing: the password is gone
    strip_password(&mut r);
    assert_eq!(prop(&r, "roomName").unwrap(), "[p] Room");
}

#[test]
fn strip_password_leaves_open_rooms() {
    let mut r = room(&[("roomName", "Room"), ("password", "")]);
    strip_password(&mut r);
    assert_eq!(prop(&r, "roomName").unwrap(), "Room");
    let mut r = room(&[("roomName", "Room")]);
    strip_password(&mut r);
    assert_eq!(prop(&r, "roomName").unwrap(), "Room");
    assert_eq!(prop(&r, "password"), None);
}

#[test]
fn force_games_web_renames_by_store() {
    let mut r = room(&[("roomName", "Room"), ("storeID", "BALYZE_MOBILE")]);
    force_games_web(&mut r);
    assert_eq!(prop(&r, "roomName").unwrap(), "[M] Room");
    assert_eq!(prop(&r, "storeID").unwrap(), "BALYZE_WEB");

    let mut r = room(&[("roomName", "Room"), ("storeID", "STEAM")]);
    force_games_web(&mut r);
    assert_eq!(prop(&r, "roomName").unwrap(), "[STEAM] Room");
    assert_eq!(prop(&r, "storeID").unwrap(), "BALYZE_WEB");

    let mut r = room(&[("roomName", "Room"), ("storeID", "BALYZE_WEB")]);
    force_games_web(&mut r);
    assert_eq!(prop(&r, "roomName").unwrap(), "Room");

    let mut r = room(&[("roomName", "Room")]);
    force_games_web(&mut r);
    assert_eq!(prop(&r, "roomName").unwrap(), "Room");
    assert_eq!(prop(&r, "storeID"), None);
}

#[test]
fn force_games_current_ver_rewrites_other_versions() {
    let mut r = room(&[("roomName", "Room"), ("gameVersion", "1.88")]);
    force_games_current_ver(&mut r, "1.89.1");
    assert_eq!(prop(&r, "roomName").unwrap(), "[1.88] Room");
    assert_eq!(prop(&r, "gameVersion").unwrap(), "1.89.1");

    let mut r = room(&[("roomName", "Room"), ("gameVersion", "1.89.1")]);
    force_games_current_ver(&mut r, "1.89.1");
    assert_eq!(prop(&r, "roomName").unwrap(), "Room");

    let mut r = room(&[("roomName", "Room")]);
    force_games_current_ver(&mut r, "1.89.1");
    assert_eq!(prop(&r, "roomName").unwrap(), "Room");
}

#[test]
fn hook_authenticate_records_versions_and_user() {
    let mut state = HaxState::default();
    let mut params = OrderedMap::new();
    params.insert(parameter_code::APP_VERSION, s("1.89.1_1.99"));
    params.insert(parameter_code::USER_ID, s("user-1"));
    let msg = PhotonMessage::OperationRequest(OperationRequest { operation_code: operation_code::AUTHENTICATE, parameters: params });
    let mut data = encode(&msg);
    let before = data.clone();
    let r = state.websocket_hook(&mut data, WebSocketServer::LobbyServer, Direction::ClientToServer);
    assert_eq!(r, Ok(true));
    assert_eq!(data, before);
    let v = state.global_state.version.as_ref().unwrap();
    assert_eq!(v.game_version, "1.89.1");
    assert_eq!(v.photon_version, "1.99");
    assert_eq!(state.global_state.user_id.as_deref(), Some("user-1"));
}

fn game_list_message() -> PhotonMessage {
    let mut props = PhotonHashmap::new();
    props.insert(s("roomName"), s("Room"));
    props.insert(s("password"), s("secret"));
    props.insert(s("storeID"), s("BALYZE_MOBILE"));
    let mut games = PhotonHashmap::new();
    games.insert(s("room-1"), PhotonDataType::Hashtable(props));
    let mut params = OrderedMap::new();
    params.insert(parameter_code::GAME_LIST, PhotonDataType::Hashtable(games));
    PhotonMessage::EventData(EventData { code: event_code::GAME_LIST, parameters: params })
}

fn room_prop(data: &[u8], key: &str) -> Option<String> {
    let mut cursor = data;
    let m = PhotonMessage::from_websocket_bytes(&mut cursor).unwrap();
    let PhotonMessage::EventData(e) = m else { panic!("not an event") };
    let Some(PhotonDataType::Hashtable(games)) = e.parameters.get(&parameter_code::GAME_LIST) else { panic!("no games") };
    let Some(PhotonDataType::Hashtable(props)) = games.get(&s("room-1")) else { panic!("no room") };
    match props.get(&s(key)) {
        Some(PhotonDataType::String(v)) => Some(v.clone()),
        _ => None,
    }
}

#[test]
fn hook_rewrites_game_list_with_settings() {
    let mut state = HaxState::default();
    state.features.strip_passwords = true;
    state.features.show_mobile_games = true;
    let mut data = encode(&game_list_message());
    let r = state.websocket_hook(&mut data, WebSocketServer::LobbyServer, Direction::ServerToClient);
    assert_eq!(r, Ok(true));
    assert_eq!(room_prop(&data, "roomName").unwrap(), "[p] [M] Room");
    assert_eq!(room_prop(&data, "password").unwrap(), "");
    assert_eq!(room_prop(&data, "storeID").unwrap(), "BALYZE_WEB");
}

#[test]
fn hook_leaves_game_list_without_settings() {
    let mut state = HaxState::default();
    let mut data = encode(&game_list_message());
    let before = data.clone();
    let r = state.websocket_hook(&mut data, WebSocketServer::LobbyServer, Direction::ServerToClient);
    assert_eq!(r, Ok(true));
    assert_eq!(data, before);
}

#[test]
fn hook_reports_unreadable_data() {
    let mut state = HaxState::default();
    let mut data = vec![0x12, 0x34];
    let r = state.websocket_hook(&mut data, WebSocketServer::GameServer, Direction::ServerToClient);
    assert_eq!(r, Err(HaxError::Read(ReadError::InvalidMagicNumber(0x12))));
    assert_eq!(data, vec![0x12, 0x34]);
}

#[test]
fn game_messages_without_game_connection() {
    let mut state = HaxState::default();
    let msg = PhotonMessage::EventData(EventData { code: event_code::JOIN, parameters: OrderedMap::new() });
    let mut data = encode(&msg);
    let r = state.websocket_hook(&mut data, WebSocketServer::GameServer, Direction::ServerToClient);
    assert_eq!(r, Err(HaxError::NoGameplayState));
}

#[test]
fn proxy_hook_skips_unknown_ports() {
    let mut state = HaxState::default();
    let mut data = vec![0x12];
    assert_eq!(state.proxy_hook(443, Direction::ClientToServer, &mut data), None);
    assert_eq!(data, vec![0x12]);
    assert!(forwards(&None));
    let r = state.proxy_hook(2083, Direction::ClientToServer, &mut data);
    assert_eq!(r, Some(Err(HaxError::Read(ReadError::InvalidMagicNumber(0x12)))));
    assert!(forwards(&r));
    assert!(forwards(&Some(Ok(true))));
    assert!(!forwards(&Some(Ok(false))));
}

#[test]
fn connections_open_and_close() {
    let mut state = HaxState::default();
    assert!(!state.connection_opened(WebSocketServer::GameServer));
    assert!(state.gameplay_state.is_some());
    assert!(state.connection_opened(WebSocketServer::GameServer));
    assert!(state.connection_closed(WebSocketServer::GameServer));
    assert!(state.gameplay_state.is_none());
    assert!(!state.connection_closed(WebSocketServer::GameServer));
    assert!(!state.connection_opened(WebSocketServer::LobbyServer));
    assert!(state.lobby_state.is_some());
    assert!(state.gameplay_state.is_none());
}

#[test]
fn client_settings_replace_features() {
    let mut state = HaxState::default();
    state.apply_client_message(C2SMessage::UpdateSettings(FeatureSettings {
        show_mobile_games: true,
        show_other_versions: false,
        strip_passwords: true,
        spoofed_name: (true, "name".to_string()),
    }));
    assert!(state.features.show_mobile_games);
    assert!(state.features.strip_passwords);
    assert_eq!(state.features.spoofed_name.1, "name");
    match state.initial_message() {
        S2CMessage::InitialState(u, f) => {
            assert!(u.lobby_state.is_none());
            assert!(f.show_mobile_games);
        },
        _ => panic!("wrong message"),
    }
    assert!(matches!(state.state_message(), S2CMessage::NewGameState(_)));
}
