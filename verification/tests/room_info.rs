use bulletforcehax::highlevel::constants::game_property_key;
use bulletforcehax::highlevel::structs::RoomInfo;
use bulletforcehax::highlevel::PhotonMapConversion;
use bulletforcehax::ordered_map::OrderedMap;
use bulletforcehax::value::{PhotonDataType, PhotonHashmap};

fn s(x: &str) -> PhotonDataType {
    PhotonDataType::String(x.to_string())
}

fn float(x: f32) -> PhotonDataType {
    PhotonDataType::Float(x.to_bits())
}

/// Two photon maps hold the same entries, whatever their order.
fn same_map(a: &PhotonHashmap, b: &PhotonHashmap) -> bool {
    a.len() == b.len()
        && (0..a.len()).all(|i| {
            let (k, v) = a.entry_at(i);
            match b.get(k) {
                Some(w) => v.same_value(w),
                None => false,
            }
        })
}

/// Two maps of custom properties hold the same entries, whatever their order.
fn same_props(a: &OrderedMap<String, PhotonDataType>, b: &OrderedMap<String, PhotonDataType>) -> bool {
    a.len() == b.len()
        && (0..a.len()).all(|i| {
            let (k, v) = a.entry_at(i);
            match b.get(k) {
                Some(w) => v.same_value(w),
                None => false,
            }
        })
}

fn same_room_info(a: &RoomInfo, b: &RoomInfo) -> bool {
    a.removed == b.removed
        && a.max_players == b.max_players
        && a.is_open == b.is_open
        && a.is_visible == b.is_visible
        && a.player_count == b.player_count
        && a.cleanup_cache_on_leave == b.cleanup_cache_on_leave
        && a.master_client_id == b.master_client_id
        && a.props_listed_in_lobby == b.props_listed_in_lobby
        && a.expected_users == b.expected_users
        && a.empty_room_ttl == b.empty_room_ttl
        && a.player_ttl == b.player_ttl
        && same_props(&a.custom_properties, &b.custom_properties)
}

fn room_info_with(custom_properties: OrderedMap<String, PhotonDataType>) -> RoomInfo {
    RoomInfo {
        removed: None,
        max_players: Some(15),
        is_open: Some(true),
        is_visible: None,
        player_count: Some(3),
        cleanup_cache_on_leave: None,
        master_client_id: None,
        props_listed_in_lobby: None,
        expected_users: None,
        empty_room_ttl: None,
        player_ttl: None,
        custom_properties,
    }
}

fn small_props() -> Vec<(&'static str, PhotonDataType)> {
    vec![
        ("switchingmap", PhotonDataType::Boolean(false)),
        ("meanKD", float(0.72795415)),
        ("seasonID", s("")),
        ("eventcode", PhotonDataType::Integer(0)),
    ]
}

fn small_room_info() -> RoomInfo {
    let mut props = OrderedMap::new();
    for (k, v) in small_props() {
        props.insert(k.to_string(), v);
    }
    room_info_with(props)
}

fn small_photon_map() -> PhotonHashmap {
    let mut map = PhotonHashmap::new();
    map.insert(s("switchingmap"), PhotonDataType::Boolean(false));
    map.insert(PhotonDataType::Byte(game_property_key::MAX_PLAYERS), PhotonDataType::Byte(15));
    map.insert(s("meanKD"), float(0.72795415));
    map.insert(PhotonDataType::Byte(game_property_key::IS_OPEN), PhotonDataType::Boolean(true));
    map.insert(s("seasonID"), s(""));
    map.insert(PhotonDataType::Byte(game_property_key::PLAYER_COUNT), PhotonDataType::Byte(3));
    map.insert(s("eventcode"), PhotonDataType::Integer(0));
    map
}

fn large_props() -> Vec<(&'static str, PhotonDataType)> {
    vec![
        ("switchingmap", PhotonDataType::Boolean(false)),
        ("meanKD", float(0.72795415)),
        ("seasonID", s("")),
        ("eventcode", PhotonDataType::Integer(0)),
        ("timesPlayingSameMatch", PhotonDataType::Integer(1)),
        ("averagerank", PhotonDataType::Integer(14)),
        ("dedicated", PhotonDataType::Boolean(false)),
        ("roomType", PhotonDataType::Byte(0)),
        ("password", s("")),
        ("gameVersion", s("1.89.1")),
        ("isDevMatch", PhotonDataType::Boolean(false)),
        ("meanRank", float(4.6666665)),
        ("gameID", s("PC-leys2006_1665094204")),
        ("mapName", s("Woods")),
        ("matchStarted", PhotonDataType::Boolean(true)),
        ("roomID", s("PC-leys2006_1665094175")),
        ("storeID", s("BALYZE_WEB")),
        ("modeName", s("Team Deathmatch")),
        (
            "allowedweapons",
            PhotonDataType::Array(vec![PhotonDataType::Integer(-1), PhotonDataType::Integer(-1), PhotonDataType::Integer(-1)]),
        ),
        ("roomName", s("Beginner (#5625)")),
        ("hardcore", PhotonDataType::Boolean(false)),
    ]
}

fn large_room_info() -> RoomInfo {
    let mut props = OrderedMap::new();
    for (k, v) in large_props() {
        props.insert(k.to_string(), v);
    }
    room_info_with(props)
}

fn large_photon_map() -> PhotonHashmap {
    let mut map = PhotonHashmap::new();
    map.insert(PhotonDataType::Byte(game_property_key::MAX_PLAYERS), PhotonDataType::Byte(15));
    map.insert(PhotonDataType::Byte(game_property_key::IS_OPEN), PhotonDataType::Boolean(true));
    map.insert(PhotonDataType::Byte(game_property_key::PLAYER_COUNT), PhotonDataType::Byte(3));
    for (k, v) in large_props() {
        map.insert(s(k), v);
    }
    map
}

#[test]
fn lobby_room_info() {
    {
        let mut deserialized = PhotonHashmap::new();
        small_room_info().into_map(&mut deserialized);
        assert!(same_map(&deserialized, &small_photon_map()));
    }

    {
        let serialized = RoomInfo::from_map(&mut small_photon_map()).unwrap();
        assert!(same_room_info(&serialized, &small_room_info()));
    }
}

#[test]
fn structs_room_info() {
    {
        let mut deserialized = PhotonHashmap::new();
        small_room_info().into_map(&mut deserialized);
        assert!(same_map(&deserialized, &small_photon_map()));
    }

    {
        let serialized = RoomInfo::from_map(&mut small_photon_map()).unwrap();
        assert!(same_room_info(&serialized, &small_room_info()));
    }
}

#[test]
fn mod_room_info() {
    {
        let mut deserialized = PhotonHashmap::new();
        large_room_info().into_map(&mut deserialized);
        assert!(same_map(&deserialized, &large_photon_map()));
    }

    {
        let serialized = RoomInfo::from_map(&mut large_photon_map()).unwrap();
        assert!(same_room_info(&serialized, &large_room_info()));
    }
}

#[test]
fn room_info_keeps_order_of_custom_properties() {
    let mut deserialized = PhotonHashmap::new();
    large_room_info().into_map(&mut deserialized);
    assert_eq!(deserialized.len(), 24);
    let (k, _) = deserialized.entry_at(0);
    assert!(k.same_value(&PhotonDataType::Byte(game_property_key::MAX_PLAYERS)));
    let (k, _) = deserialized.entry_at(3);
    assert!(k.same_value(&s("switchingmap")));
    let (k, _) = deserialized.entry_at(23);
    assert!(k.same_value(&s("hardcore")));

    let back = RoomInfo::from_map(&mut deserialized).unwrap();
    let (k, _) = back.custom_properties.entry_at(0);
    assert_eq!(k, "switchingmap");
    let (k, _) = back.custom_properties.entry_at(20);
    assert_eq!(k, "hardcore");
}

#[test]
fn room_info_with_wrongly_typed_field() {
    let mut map = PhotonHashmap::new();
    map.insert(PhotonDataType::Byte(game_property_key::MAX_PLAYERS), PhotonDataType::Integer(15));
    map.insert(PhotonDataType::Integer(7), PhotonDataType::Boolean(true));
    let info = RoomInfo::from_map(&mut map).unwrap();
    assert_eq!(info.max_players, None);
    assert_eq!(info.custom_properties.len(), 0);
}

#[test]
fn read_then_write_gives_same_entries() {
    let mut map = large_photon_map();
    let info = RoomInfo::from_map(&mut map).unwrap();
    assert_eq!(map.len(), 0);
    let mut written = PhotonHashmap::new();
    info.into_map(&mut written);
    assert!(same_map(&written, &large_photon_map()));
}
