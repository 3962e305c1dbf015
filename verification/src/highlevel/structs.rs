//! High-level representations of the parameters of Photon messages, and of the hashtables they
//! carry.
use vstd::prelude::*;

use crate::codec;
use crate::convert::{
    array_entry, array_field, array_value, bool_entry, bool_field, bool_value, byte_entry, byte_field,
    byte_value, custom_entry, custom_field, custom_value, drain_custom, hashtable_entry,
    hashtable_field, hashtable_value, int_array_entry, int_array_field, int_array_value, int_entry,
    int_field, int_value, kinded, missing_from, object_array_entry, object_array_field,
    object_array_value, pop_field, put_custom_entries, put_params, put_table_fields, short_entry,
    short_field, short_value, string_array_entry, string_array_field, string_array_value,
    string_entry, string_field, string_value, take_params, take_table_fields, lemma_params_roundtrip,
    lemma_table_roundtrip, lemma_params_reread, lemma_table_reread, lemma_none_missing, FromMapError,
};
use crate::highlevel::constants::{actor_properties, game_property_key, parameter_code};
use crate::highlevel::{PhotonMapConversion, PhotonParameterMapConversion};
use crate::message::ParameterMap;
use crate::ordered_map::OrderedMap;
use crate::value::{CustomData, PhotonDataType, PhotonHashmap};

verus! {

/// Parameter of `event_code::GAME_LIST` and `event_code::GAME_LIST_UPDATE`. Contains a list of [RoomInfo].
#[derive(Debug)]
pub struct RoomInfoList {
    pub games: PhotonHashmap,
}

impl PhotonParameterMapConversion for RoomInfoList {
    open spec fn keys() -> Seq<u8> {
        seq![parameter_code::GAME_LIST]
    }

    open spec fn kinds() -> Seq<Option<u8>> {
        seq![Some(codec::HASHTABLE)]
    }

    open spec fn required() -> Seq<bool> {
        seq![true]
    }

    open spec fn fields(&self) -> Seq<Option<PhotonDataType>> {
        seq![hashtable_value(Some(self.games))]
    }

    #[verifier::rlimit(80)]
    fn from_map(properties: &mut ParameterMap) -> (r: Result<Self, FromMapError>) {
        let keys: Vec<u8> = vec![parameter_code::GAME_LIST];
        assert(keys@ =~= Self::keys());
        let mut vals = take_params(properties, &keys);
        let ghost kv = kinded(vals@, Self::kinds());
        let ghost g = vals@;
        let v0 = hashtable_field(pop_field(&mut vals));
        assert(vals@ =~= g.subrange(0, 0) && hashtable_value(v0) == kv[0]);
        let v0 = match v0 {
            Some(x) => x,
            None => {
                proof {
                    reveal_with_fuel(missing_from, 2);
                }
                return Err(FromMapError::MissingField(parameter_code::GAME_LIST));
            },
        };
        let r = RoomInfoList { games: v0 };
        proof {
            assert(r.fields() =~= kv);
            assert(missing_from(kv, Self::required(), 0) is None) by {
                reveal_with_fuel(missing_from, 3);
            }
        }
        Ok(r)
    }

    fn into_map(self, map: &mut ParameterMap) {
        let keys: Vec<u8> = vec![parameter_code::GAME_LIST];
        let ghost fields = self.fields();
        let mut vals: Vec<Option<PhotonDataType>> = Vec::new();
        vals.push(hashtable_entry(Some(self.games)));
        assert(keys@ =~= Self::keys());
        assert(vals@ =~= fields);
        put_params(map, &keys, vals);
    }

    proof fn lemma_map_roundtrip(&self) {
        lemma_params_roundtrip(Self::keys(), Self::kinds(), Self::required(), self.fields());
    }

    proof fn lemma_map_reread(es: Seq<(u8, PhotonDataType)>) {
        lemma_params_reread(Self::keys(), Self::kinds(), es);
    }
}

/// Request parameter of `operation_code::SET_PROPERTIES`.
#[derive(Debug)]
pub struct SetPropertiesOperationRequest {
    pub properties: PhotonHashmap,
    /// Only present when updating an actor, not when updating a room.
    pub actor_nr: Option<i32>,
    pub broadcast: bool,
    pub expected_values: Option<PhotonHashmap>,
    pub event_forward: Option<bool>,
}

impl PhotonParameterMapConversion for SetPropertiesOperationRequest {
    open spec fn keys() -> Seq<u8> {
        seq![parameter_code::PROPERTIES, parameter_code::ACTOR_NR, parameter_code::BROADCAST, parameter_code::EXPECTED_VALUES, parameter_code::EVENT_FORWARD]
    }

    open spec fn kinds() -> Seq<Option<u8>> {
        seq![Some(codec::HASHTABLE), Some(codec::INTEGER), Some(codec::BOOLEAN), Some(codec::HASHTABLE), Some(codec::BOOLEAN)]
    }

    open spec fn required() -> Seq<bool> {
        seq![true, false, true, false, false]
    }

    open spec fn fields(&self) -> Seq<Option<PhotonDataType>> {
        seq![hashtable_value(Some(self.properties)), int_value(self.actor_nr), bool_value(Some(self.broadcast)), hashtable_value(self.expected_values), bool_value(self.event_forward)]
    }

    #[verifier::rlimit(80)]
    fn from_map(properties: &mut ParameterMap) -> (r: Result<Self, FromMapError>) {
        let keys: Vec<u8> = vec![parameter_code::PROPERTIES, parameter_code::ACTOR_NR, parameter_code::BROADCAST, parameter_code::EXPECTED_VALUES, parameter_code::EVENT_FORWARD];
        assert(keys@ =~= Self::keys());
        let mut vals = take_params(properties, &keys);
        let ghost kv = kinded(vals@, Self::kinds());
        let ghost g = vals@;
        let v4 = bool_field(pop_field(&mut vals));
        assert(vals@ =~= g.subrange(0, 4) && bool_value(v4) == kv[4]);
        let v3 = hashtable_field(pop_field(&mut vals));
        assert(vals@ =~= g.subrange(0, 3) && hashtable_value(v3) == kv[3]);
        let v2 = bool_field(pop_field(&mut vals));
        assert(vals@ =~= g.subrange(0, 2) && bool_value(v2) == kv[2]);
        let v1 = int_field(pop_field(&mut vals));
        assert(vals@ =~= g.subrange(0, 1) && int_value(v1) == kv[1]);
        let v0 = hashtable_field(pop_field(&mut vals));
        assert(vals@ =~= g.subrange(0, 0) && hashtable_value(v0) == kv[0]);
        let v0 = match v0 {
            Some(x) => x,
            None => {
                proof {
                    reveal_with_fuel(missing_from, 2);
                }
                return Err(FromMapError::MissingField(parameter_code::PROPERTIES));
            },
        };
        let v2 = match v2 {
            Some(x) => x,
            None => {
                proof {
                    reveal_with_fuel(missing_from, 4);
                }
                return Err(FromMapError::MissingField(parameter_code::BROADCAST));
            },
        };
        let r = SetPropertiesOperationRequest { properties: v0, actor_nr: v1, broadcast: v2, expected_values: v3, event_forward: v4 };
        proof {
            assert(r.fields() =~= kv);
            assert(missing_from(kv, Self::required(), 0) is None) by {
                reveal_with_fuel(missing_from, 7);
            }
        }
        Ok(r)
    }

    fn into_map(self, map: &mut ParameterMap) {
        let keys: Vec<u8> = vec![parameter_code::PROPERTIES, parameter_code::ACTOR_NR, parameter_code::BROADCAST, parameter_code::EXPECTED_VALUES, parameter_code::EVENT_FORWARD];
        let ghost fields = self.fields();
        let mut vals: Vec<Option<PhotonDataType>> = Vec::new();
        vals.push(hashtable_entry(Some(self.properties)));
        vals.push(int_entry(self.actor_nr));
        vals.push(bool_entry(Some(self.broadcast)));
        vals.push(hashtable_entry(self.expected_values));
        vals.push(bool_entry(self.event_forward));
        assert(keys@ =~= Self::keys());
        assert(vals@ =~= fields);
        put_params(map, &keys, vals);
    }

    proof fn lemma_map_roundtrip(&self) {
        lemma_params_roundtrip(Self::keys(), Self::kinds(), Self::required(), self.fields());
    }

    proof fn lemma_map_reread(es: Seq<(u8, PhotonDataType)>) {
        lemma_params_reread(Self::keys(), Self::kinds(), es);
    }
}

/// Request parameter of `operation_code::JOIN_GAME`.
#[derive(Debug)]
pub struct JoinGameRequest {
    pub room_name: Option<String>,
    pub properties: Option<PhotonHashmap>,
    pub broadcast: Option<bool>,
    pub player_properties: Option<PhotonHashmap>,
    /// A serialized instance of [RoomInfo].
    pub game_properties: Option<PhotonHashmap>,
    pub cleanup_cache_on_leave: Option<bool>,
    pub publis_user_id: Option<bool>,
    pub add: Option<Vec<String>>,
    pub suppress_room_events: Option<bool>,
    pub empty_room_ttl: Option<i32>,
    pub player_ttl: Option<i32>,
    pub check_user_on_join: Option<bool>,
    pub join_mode: Option<u8>,
    pub lobby_name: Option<String>,
    pub lobby_type: Option<u8>,
    pub plugins: Option<Vec<String>>,
    pub room_option_flags: Option<i32>,
}

impl PhotonParameterMapConversion for JoinGameRequest {
    open spec fn keys() -> Seq<u8> {
        seq![parameter_code::ROOM_NAME, parameter_code::PROPERTIES, parameter_code::BROADCAST, parameter_code::PLAYER_PROPERTIES, parameter_code::GAME_PROPERTIES, parameter_code::CLEANUP_CACHE_ON_LEAVE, parameter_code::PUBLISH_USER_ID, parameter_code::ADD, parameter_code::SUPPRESS_ROOM_EVENTS, parameter_code::EMPTY_ROOM_TTL, parameter_code::PLAYER_TTL, parameter_code::CHECK_USER_ON_JOIN, parameter_code::JOIN_MODE, parameter_code::LOBBY_NAME, parameter_code::LOBBY_TYPE, parameter_code::PLUGINS, parameter_code::ROOM_OPTION_FLAGS]
    }

    open spec fn kinds() -> Seq<Option<u8>> {
        seq![Some(codec::STRING), Some(codec::HASHTABLE), Some(codec::BOOLEAN), Some(codec::HASHTABLE), Some(codec::HASHTABLE), Some(codec::BOOLEAN), Some(codec::BOOLEAN), Some(codec::STRING_ARRAY), Some(codec::BOOLEAN), Some(codec::INTEGER), Some(codec::INTEGER), Some(codec::BOOLEAN), Some(codec::BYTE), Some(codec::STRING), Some(codec::BYTE), Some(codec::STRING_ARRAY), Some(codec::INTEGER)]
    }

    open spec fn required() -> Seq<bool> {
        Seq::new(17, |i: int| false)
    }

    open spec fn fields(&self) -> Seq<Option<PhotonDataType>> {
        seq![string_value(self.room_name), hashtable_value(self.properties), bool_value(self.broadcast), hashtable_value(self.player_properties), hashtable_value(self.game_properties), bool_value(self.cleanup_cache_on_leave), bool_value(self.publis_user_id), string_array_value(self.add), bool_value(self.suppress_room_events), int_value(self.empty_room_ttl), int_value(self.player_ttl), bool_value(self.check_user_on_join), byte_value(self.join_mode), string_value(self.lobby_name), byte_value(self.lobby_type), string_array_value(self.plugins), int_value(self.room_option_flags)]
    }

    #[verifier::rlimit(80)]
    fn from_map(properties: &mut ParameterMap) -> (r: Result<Self, FromMapError>) {
        let keys: Vec<u8> = vec![parameter_code::ROOM_NAME, parameter_code::PROPERTIES, parameter_code::BROADCAST, parameter_code::PLAYER_PROPERTIES, parameter_code::GAME_PROPERTIES, parameter_code::CLEANUP_CACHE_ON_LEAVE, parameter_code::PUBLISH_USER_ID, parameter_code::ADD, parameter_code::SUPPRESS_ROOM_EVENTS, parameter_code::EMPTY_ROOM_TTL, parameter_code::PLAYER_TTL, parameter_code::CHECK_USER_ON_JOIN, parameter_code::JOIN_MODE, parameter_code::LOBBY_NAME, parameter_code::LOBBY_TYPE, parameter_code::PLUGINS, parameter_code::ROOM_OPTION_FLAGS];
        assert(keys@ =~= Self::keys());
        let mut vals = take_params(properties, &keys);
        let ghost kv = kinded(vals@, Self::kinds());
        let ghost g = vals@;
        let v16 = int_field(pop_field(&mut vals));
        assert(vals@ =~= g.subrange(0, 16) && int_value(v16) == kv[16]);
        let v15 = string_array_field(pop_field(&mut vals));
        assert(vals@ =~= g.subrange(0, 15) && string_array_value(v15) == kv[15]);
        let v14 = byte_field(pop_field(&mut vals));
        assert(vals@ =~= g.subrange(0, 14) && byte_value(v14) == kv[14]);
        let v13 = string_field(pop_field(&mut vals));
        assert(vals@ =~= g.subrange(0, 13) && string_value(v13) == kv[13]);
        let v12 = byte_field(pop_field(&mut vals));
        assert(vals@ =~= g.subrange(0, 12) && byte_value(v12) == kv[12]);
        let v11 = bool_field(pop_field(&mut vals));
        assert(vals@ =~= g.subrange(0, 11) && bool_value(v11) == kv[11]);
        let v10 = int_field(pop_field(&mut vals));
        assert(vals@ =~= g.subrange(0, 10) && int_value(v10) == kv[10]);
        let v9 = int_field(pop_field(&mut vals));
        assert(vals@ =~= g.subrange(0, 9) && int_value(v9) == kv[9]);
        let v8 = bool_field(pop_field(&mut vals));
        assert(vals@ =~= g.subrange(0, 8) && bool_value(v8) == kv[8]);
        let v7 = string_array_field(pop_field(&mut vals));
        assert(vals@ =~= g.subrange(0, 7) && string_array_value(v7) == kv[7]);
        let v6 = bool_field(pop_field(&mut vals));
        assert(vals@ =~= g.subrange(0, 6) && bool_value(v6) == kv[6]);
        let v5 = bool_field(pop_field(&mut vals));
        assert(vals@ =~= g.subrange(0, 5) && bool_value(v5) == kv[5]);
        let v4 = hashtable_field(pop_field(&mut vals));
        assert(vals@ =~= g.subrange(0, 4) && hashtable_value(v4) == kv[4]);
        let v3 = hashtable_field(pop_field(&mut vals));
        assert(vals@ =~= g.subrange(0, 3) && hashtable_value(v3) == kv[3]);
        let v2 = bool_field(pop_field(&mut vals));
        assert(vals@ =~= g.subrange(0, 2) && bool_value(v2) == kv[2]);
        let v1 = hashtable_field(pop_field(&mut vals));
        assert(vals@ =~= g.subrange(0, 1) && hashtable_value(v1) == kv[1]);
        let v0 = string_field(pop_field(&mut vals));
        assert(vals@ =~= g.subrange(0, 0) && string_value(v0) == kv[0]);
        let r = JoinGameRequest { room_name: v0, properties: v1, broadcast: v2, player_properties: v3, game_properties: v4, cleanup_cache_on_leave: v5, publis_user_id: v6, add: v7, suppress_room_events: v8, empty_room_ttl: v9, player_ttl: v10, check_user_on_join: v11, join_mode: v12, lobby_name: v13, lobby_type: v14, plugins: v15, room_option_flags: v16 };
        proof {
            assert(r.fields() =~= kv);
            lemma_none_missing(kv, Self::required(), 0);
        }
        Ok(r)
    }

    fn into_map(self, map: &mut ParameterMap) {
        let keys: Vec<u8> = vec![parameter_code::ROOM_NAME, parameter_code::PROPERTIES, parameter_code::BROADCAST, parameter_code::PLAYER_PROPERTIES, parameter_code::GAME_PROPERTIES, parameter_code::CLEANUP_CACHE_ON_LEAVE, parameter_code::PUBLISH_USER_ID, parameter_code::ADD, parameter_code::SUPPRESS_ROOM_EVENTS, parameter_code::EMPTY_ROOM_TTL, parameter_code::PLAYER_TTL, parameter_code::CHECK_USER_ON_JOIN, parameter_code::JOIN_MODE, parameter_code::LOBBY_NAME, parameter_code::LOBBY_TYPE, parameter_code::PLUGINS, parameter_code::ROOM_OPTION_FLAGS];
        let ghost fields = self.fields();
        let mut vals: Vec<Option<PhotonDataType>> = Vec::new();
        vals.push(string_entry(self.room_name));
        vals.push(hashtable_entry(self.properties));
        vals.push(bool_entry(self.broadcast));
        vals.push(hashtable_entry(self.player_properties));
        vals.push(hashtable_entry(self.game_properties));
        vals.push(bool_entry(self.cleanup_cache_on_leave));
        vals.push(bool_entry(self.publis_user_id));
        vals.push(string_array_entry(self.add));
        vals.push(bool_entry(self.suppress_room_events));
        vals.push(int_entry(self.empty_room_ttl));
        vals.push(int_entry(self.player_ttl));
        vals.push(bool_entry(self.check_user_on_join));
        vals.push(byte_entry(self.join_mode));
        vals.push(string_entry(self.lobby_name));
        vals.push(byte_entry(self.lobby_type));
        vals.push(string_array_entry(self.plugins));
        vals.push(int_entry(self.room_option_flags));
        assert(keys@ =~= Self::keys());
        assert(vals@ =~= fields);
        put_params(map, &keys, vals);
    }

    proof fn lemma_map_roundtrip(&self) {
        lemma_params_roundtrip(Self::keys(), Self::kinds(), Self::required(), self.fields());
    }

    proof fn lemma_map_reread(es: Seq<(u8, PhotonDataType)>) {
        lemma_params_reread(Self::keys(), Self::kinds(), es);
    }
}

/// Response parameter of `operation_code::JOIN_GAME` on success (return code 0).
#[derive(Debug)]
pub struct JoinGameResponseSuccess {
    pub room_name: Option<String>,
    pub actor_nr: i32,
    pub actor_list: Option<Vec<i32>>,
    /// A hashmap over serialized [Player]s. The keys in this hashmap are integer actor ids.
    pub player_properties: PhotonHashmap,
    /// A serialized instance of [RoomInfo].
    pub game_properties: PhotonHashmap,
    pub address: Option<String>,
    pub room_option_flags: Option<i32>,
}

impl PhotonParameterMapConversion for JoinGameResponseSuccess {
    open spec fn keys() -> Seq<u8> {
        seq![parameter_code::ROOM_NAME, parameter_code::ACTOR_NR, parameter_code::ACTOR_LIST, parameter_code::PLAYER_PROPERTIES, parameter_code::GAME_PROPERTIES, parameter_code::ADDRESS, parameter_code::ROOM_OPTION_FLAGS]
    }

    open spec fn kinds() -> Seq<Option<u8>> {
        seq![Some(codec::STRING), Some(codec::INTEGER), Some(codec::INT_ARRAY), Some(codec::HASHTABLE), Some(codec::HASHTABLE), Some(codec::STRING), Some(codec::INTEGER)]
    }

    open spec fn required() -> Seq<bool> {
        seq![false, true, false, true, true, false, false]
    }

    open spec fn fields(&self) -> Seq<Option<PhotonDataType>> {
        seq![string_value(self.room_name), int_value(Some(self.actor_nr)), int_array_value(self.actor_list), hashtable_value(Some(self.player_properties)), hashtable_value(Some(self.game_properties)), string_value(self.address), int_value(self.room_option_flags)]
    }

    #[verifier::rlimit(80)]
    fn from_map(properties: &mut ParameterMap) -> (r: Result<Self, FromMapError>) {
        let keys: Vec<u8> = vec![parameter_code::ROOM_NAME, parameter_code::ACTOR_NR, parameter_code::ACTOR_LIST, parameter_code::PLAYER_PROPERTIES, parameter_code::GAME_PROPERTIES, parameter_code::ADDRESS, parameter_code::ROOM_OPTION_FLAGS];
        assert(keys@ =~= Self::keys());
        let mut vals = take_params(properties, &keys);
        let ghost kv = kinded(vals@, Self::kinds());
        let ghost g = vals@;
        let v6 = int_field(pop_field(&mut vals));
        assert(vals@ =~= g.subrange(0, 6) && int_value(v6) == kv[6]);
        let v5 = string_field(pop_field(&mut vals));
        assert(vals@ =~= g.subrange(0, 5) && string_value(v5) == kv[5]);
        let v4 = hashtable_field(pop_field(&mut vals));
        assert(vals@ =~= g.subrange(0, 4) && hashtable_value(v4) == kv[4]);
        let v3 = hashtable_field(pop_field(&mut vals));
        assert(vals@ =~= g.subrange(0, 3) && hashtable_value(v3) == kv[3]);
        let v2 = int_array_field(pop_field(&mut vals));
        assert(vals@ =~= g.subrange(0, 2) && int_array_value(v2) == kv[2]);
        let v1 = int_field(pop_field(&mut vals));
        assert(vals@ =~= g.subrange(0, 1) && int_value(v1) == kv[1]);
        let v0 = string_field(pop_field(&mut vals));
        assert(vals@ =~= g.subrange(0, 0) && string_value(v0) == kv[0]);
        let v1 = match v1 {
            Some(x) => x,
            None => {
                proof {
                    reveal_with_fuel(missing_from, 3);
                }
                return Err(FromMapError::MissingField(parameter_code::ACTOR_NR));
            },
        };
        let v3 = match v3 {
            Some(x) => x,
            None => {
                proof {
                    reveal_with_fuel(missing_from, 5);
                }
                return Err(FromMapError::MissingField(parameter_code::PLAYER_PROPERTIES));
            },
        };
        let v4 = match v4 {
            Some(x) => x,
            None => {
                proof {
                    reveal_with_fuel(missing_from, 6);
                }
                return Err(FromMapError::MissingField(parameter_code::GAME_PROPERTIES));
            },
        };
        let r = JoinGameResponseSuccess { room_name: v0, actor_nr: v1, actor_list: v2, player_properties: v3, game_properties: v4, address: v5, room_option_flags: v6 };
        proof {
            assert(r.fields() =~= kv);
            assert(missing_from(kv, Self::required(), 0) is None) by {
                reveal_with_fuel(missing_from, 9);
            }
        }
        Ok(r)
    }

    fn into_map(self, map: &mut ParameterMap) {
        let keys: Vec<u8> = vec![parameter_code::ROOM_NAME, parameter_code::ACTOR_NR, parameter_code::ACTOR_LIST, parameter_code::PLAYER_PROPERTIES, parameter_code::GAME_PROPERTIES, parameter_code::ADDRESS, parameter_code::ROOM_OPTION_FLAGS];
        let ghost fields = self.fields();
        let mut vals: Vec<Option<PhotonDataType>> = Vec::new();
        vals.push(string_entry(self.room_name));
        vals.push(int_entry(Some(self.actor_nr)));
        vals.push(int_array_entry(self.actor_list));
        vals.push(hashtable_entry(Some(self.player_properties)));
        vals.push(hashtable_entry(Some(self.game_properties)));
        vals.push(string_entry(self.address));
        vals.push(int_entry(self.room_option_flags));
        assert(keys@ =~= Self::keys());
        assert(vals@ =~= fields);
        put_params(map, &keys, vals);
    }

    proof fn lemma_map_roundtrip(&self) {
        lemma_params_roundtrip(Self::keys(), Self::kinds(), Self::required(), self.fields());
    }

    proof fn lemma_map_reread(es: Seq<(u8, PhotonDataType)>) {
        lemma_params_reread(Self::keys(), Self::kinds(), es);
    }
}

/// Request parameter of `operation_code::RAISE_EVENT`.
#[derive(Debug)]
pub struct RaiseEvent {
    pub event_code: u8,
    pub data: Option<PhotonDataType>,
    pub cache: Option<u8>,
    pub receiver_group: Option<u8>,
    pub interest_group: Option<u8>,
    pub actor_list: Option<Vec<i32>>,
    pub event_forward: Option<bool>,
}

impl PhotonParameterMapConversion for RaiseEvent {
    open spec fn keys() -> Seq<u8> {
        seq![parameter_code::CODE, parameter_code::DATA, parameter_code::CACHE, parameter_code::RECEIVER_GROUP, parameter_code::GROUP, parameter_code::ACTOR_LIST, parameter_code::EVENT_FORWARD]
    }

    open spec fn kinds() -> Seq<Option<u8>> {
        seq![Some(codec::BYTE), None, Some(codec::BYTE), Some(codec::BYTE), Some(codec::BYTE), Some(codec::INT_ARRAY), Some(codec::BOOLEAN)]
    }

    open spec fn required() -> Seq<bool> {
        seq![true, false, false, false, false, false, false]
    }

    open spec fn fields(&self) -> Seq<Option<PhotonDataType>> {
        seq![byte_value(Some(self.event_code)), self.data, byte_value(self.cache), byte_value(self.receiver_group), byte_value(self.interest_group), int_array_value(self.actor_list), bool_value(self.event_forward)]
    }

    #[verifier::rlimit(80)]
    fn from_map(properties: &mut ParameterMap) -> (r: Result<Self, FromMapError>) {
        let keys: Vec<u8> = vec![parameter_code::CODE, parameter_code::DATA, parameter_code::CACHE, parameter_code::RECEIVER_GROUP, parameter_code::GROUP, parameter_code::ACTOR_LIST, parameter_code::EVENT_FORWARD];
        assert(keys@ =~= Self::keys());
        let mut vals = take_params(properties, &keys);
        let ghost kv = kinded(vals@, Self::kinds());
        let ghost g = vals@;
        let v6 = bool_field(pop_field(&mut vals));
        assert(vals@ =~= g.subrange(0, 6) && bool_value(v6) == kv[6]);
        let v5 = int_array_field(pop_field(&mut vals));
        assert(vals@ =~= g.subrange(0, 5) && int_array_value(v5) == kv[5]);
        let v4 = byte_field(pop_field(&mut vals));
        assert(vals@ =~= g.subrange(0, 4) && byte_value(v4) == kv[4]);
        let v3 = byte_field(pop_field(&mut vals));
        assert(vals@ =~= g.subrange(0, 3) && byte_value(v3) == kv[3]);
        let v2 = byte_field(pop_field(&mut vals));
        assert(vals@ =~= g.subrange(0, 2) && byte_value(v2) == kv[2]);
        let v1 = pop_field(&mut vals);
        assert(vals@ =~= g.subrange(0, 1) && v1 == kv[1]);
        let v0 = byte_field(pop_field(&mut vals));
        assert(vals@ =~= g.subrange(0, 0) && byte_value(v0) == kv[0]);
        let v0 = match v0 {
            Some(x) => x,
            None => {
                proof {
                    reveal_with_fuel(missing_from, 2);
                }
                return Err(FromMapError::MissingField(parameter_code::CODE));
            },
        };
        let r = RaiseEvent { event_code: v0, data: v1, cache: v2, receiver_group: v3, interest_group: v4, actor_list: v5, event_forward: v6 };
        proof {
            assert(r.fields() =~= kv);
            assert(missing_from(kv, Self::required(), 0) is None) by {
                reveal_with_fuel(missing_from, 9);
            }
        }
        Ok(r)
    }

    fn into_map(self, map: &mut ParameterMap) {
        let keys: Vec<u8> = vec![parameter_code::CODE, parameter_code::DATA, parameter_code::CACHE, parameter_code::RECEIVER_GROUP, parameter_code::GROUP, parameter_code::ACTOR_LIST, parameter_code::EVENT_FORWARD];
        let ghost fields = self.fields();
        let mut vals: Vec<Option<PhotonDataType>> = Vec::new();
        vals.push(byte_entry(Some(self.event_code)));
        vals.push(self.data);
        vals.push(byte_entry(self.cache));
        vals.push(byte_entry(self.receiver_group));
        vals.push(byte_entry(self.interest_group));
        vals.push(int_array_entry(self.actor_list));
        vals.push(bool_entry(self.event_forward));
        assert(keys@ =~= Self::keys());
        assert(vals@ =~= fields);
        put_params(map, &keys, vals);
    }

    proof fn lemma_map_roundtrip(&self) {
        lemma_params_roundtrip(Self::keys(), Self::kinds(), Self::required(), self.fields());
    }

    proof fn lemma_map_reread(es: Seq<(u8, PhotonDataType)>) {
        lemma_params_reread(Self::keys(), Self::kinds(), es);
    }
}

/// Parameter for `event_code::LEAVE`.
#[derive(Debug)]
pub struct LeaveEvent {
    /// The id of the player who left.
    pub sender_actor: Option<i32>,
    pub actors: Option<Vec<PhotonDataType>>,
    pub is_inactive: Option<bool>,
    /// The new master client.
    pub master_client_id: Option<i32>,
}

impl PhotonParameterMapConversion for LeaveEvent {
    open spec fn keys() -> Seq<u8> {
        seq![parameter_code::ACTOR_NR, parameter_code::ACTOR_LIST, parameter_code::IS_INACTIVE, parameter_code::MASTER_CLIENT_ID]
    }

    open spec fn kinds() -> Seq<Option<u8>> {
        seq![Some(codec::INTEGER), Some(codec::ARRAY), Some(codec::BOOLEAN), Some(codec::INTEGER)]
    }

    open spec fn required() -> Seq<bool> {
        Seq::new(4, |i: int| false)
    }

    open spec fn fields(&self) -> Seq<Option<PhotonDataType>> {
        seq![int_value(self.sender_actor), array_value(self.actors), bool_value(self.is_inactive), int_value(self.master_client_id)]
    }

    #[verifier::rlimit(80)]
    fn from_map(properties: &mut ParameterMap) -> (r: Result<Self, FromMapError>) {
        let keys: Vec<u8> = vec![parameter_code::ACTOR_NR, parameter_code::ACTOR_LIST, parameter_code::IS_INACTIVE, parameter_code::MASTER_CLIENT_ID];
        assert(keys@ =~= Self::keys());
        let mut vals = take_params(properties, &keys);
        let ghost kv = kinded(vals@, Self::kinds());
        let ghost g = vals@;
        let v3 = int_field(pop_field(&mut vals));
        assert(vals@ =~= g.subrange(0, 3) && int_value(v3) == kv[3]);
        let v2 = bool_field(pop_field(&mut vals));
        assert(vals@ =~= g.subrange(0, 2) && bool_value(v2) == kv[2]);
        let v1 = array_field(pop_field(&mut vals));
        assert(vals@ =~= g.subrange(0, 1) && array_value(v1) == kv[1]);
        let v0 = int_field(pop_field(&mut vals));
        assert(vals@ =~= g.subrange(0, 0) && int_value(v0) == kv[0]);
        let r = LeaveEvent { sender_actor: v0, actors: v1, is_inactive: v2, master_client_id: v3 };
        proof {
            assert(r.fields() =~= kv);
            lemma_none_missing(kv, Self::required(), 0);
        }
        Ok(r)
    }

    fn into_map(self, map: &mut ParameterMap) {
        let keys: Vec<u8> = vec![parameter_code::ACTOR_NR, parameter_code::ACTOR_LIST, parameter_code::IS_INACTIVE, parameter_code::MASTER_CLIENT_ID];
        let ghost fields = self.fields();
        let mut vals: Vec<Option<PhotonDataType>> = Vec::new();
        vals.push(int_entry(self.sender_actor));
        vals.push(array_entry(self.actors));
        vals.push(bool_entry(self.is_inactive));
        vals.push(int_entry(self.master_client_id));
        assert(keys@ =~= Self::keys());
        assert(vals@ =~= fields);
        put_params(map, &keys, vals);
    }

    proof fn lemma_map_roundtrip(&self) {
        lemma_params_roundtrip(Self::keys(), Self::kinds(), Self::required(), self.fields());
    }

    proof fn lemma_map_reread(es: Seq<(u8, PhotonDataType)>) {
        lemma_params_reread(Self::keys(), Self::kinds(), es);
    }
}

/// Parameter for `event_code::PROPERTIES_CHANGED`.
#[derive(Debug)]
pub struct PropertiesChangedEvent {
    pub sender_actor: Option<i32>,
    pub target_actor_number: i32,
    /// If `target_actor_number` is 0, these are game properties. Otherwise these are actor properties.
    pub properties: PhotonHashmap,
}

impl PhotonParameterMapConversion for PropertiesChangedEvent {
    open spec fn keys() -> Seq<u8> {
        seq![parameter_code::ACTOR_NR, parameter_code::TARGET_ACTOR_NR, parameter_code::PROPERTIES]
    }

    open spec fn kinds() -> Seq<Option<u8>> {
        seq![Some(codec::INTEGER), Some(codec::INTEGER), Some(codec::HASHTABLE)]
    }

    open spec fn required() -> Seq<bool> {
        seq![false, true, true]
    }

    open spec fn fields(&self) -> Seq<Option<PhotonDataType>> {
        seq![int_value(self.sender_actor), int_value(Some(self.target_actor_number)), hashtable_value(Some(self.properties))]
    }

    #[verifier::rlimit(80)]
    fn from_map(properties: &mut ParameterMap) -> (r: Result<Self, FromMapError>) {
        let keys: Vec<u8> = vec![parameter_code::ACTOR_NR, parameter_code::TARGET_ACTOR_NR, parameter_code::PROPERTIES];
        assert(keys@ =~= Self::keys());
        let mut vals = take_params(properties, &keys);
        let ghost kv = kinded(vals@, Self::kinds());
        let ghost g = vals@;
        let v2 = hashtable_field(pop_field(&mut vals));
        assert(vals@ =~= g.subrange(0, 2) && hashtable_value(v2) == kv[2]);
        let v1 = int_field(pop_field(&mut vals));
        assert(vals@ =~= g.subrange(0, 1) && int_value(v1) == kv[1]);
        let v0 = int_field(pop_field(&mut vals));
        assert(vals@ =~= g.subrange(0, 0) && int_value(v0) == kv[0]);
        let v1 = match v1 {
            Some(x) => x,
            None => {
                proof {
                    reveal_with_fuel(missing_from, 3);
                }
                return Err(FromMapError::MissingField(parameter_code::TARGET_ACTOR_NR));
            },
        };
        let v2 = match v2 {
            Some(x) => x,
            None => {
                proof {
                    reveal_with_fuel(missing_from, 4);
                }
                return Err(FromMapError::MissingField(parameter_code::PROPERTIES));
            },
        };
        let r = PropertiesChangedEvent { sender_actor: v0, target_actor_number: v1, properties: v2 };
        proof {
            assert(r.fields() =~= kv);
            assert(missing_from(kv, Self::required(), 0) is None) by {
                reveal_with_fuel(missing_from, 5);
            }
        }
        Ok(r)
    }

    fn into_map(self, map: &mut ParameterMap) {
        let keys: Vec<u8> = vec![parameter_code::ACTOR_NR, parameter_code::TARGET_ACTOR_NR, parameter_code::PROPERTIES];
        let ghost fields = self.fields();
        let mut vals: Vec<Option<PhotonDataType>> = Vec::new();
        vals.push(int_entry(self.sender_actor));
        vals.push(int_entry(Some(self.target_actor_number)));
        vals.push(hashtable_entry(Some(self.properties)));
        assert(keys@ =~= Self::keys());
        assert(vals@ =~= fields);
        put_params(map, &keys, vals);
    }

    proof fn lemma_map_roundtrip(&self) {
        lemma_params_roundtrip(Self::keys(), Self::kinds(), Self::required(), self.fields());
    }

    proof fn lemma_map_reread(es: Seq<(u8, PhotonDataType)>) {
        lemma_params_reread(Self::keys(), Self::kinds(), es);
    }
}

/// Parameter for `pun_event_code::DESTROY`.
#[derive(Debug)]
pub struct DestroyEvent {
    pub sender_actor: Option<i32>,
    pub data: PhotonHashmap,
}

impl PhotonParameterMapConversion for DestroyEvent {
    open spec fn keys() -> Seq<u8> {
        seq![parameter_code::ACTOR_NR, parameter_code::DATA]
    }

    open spec fn kinds() -> Seq<Option<u8>> {
        seq![Some(codec::INTEGER), Some(codec::HASHTABLE)]
    }

    open spec fn required() -> Seq<bool> {
        seq![false, true]
    }

    open spec fn fields(&self) -> Seq<Option<PhotonDataType>> {
        seq![int_value(self.sender_actor), hashtable_value(Some(self.data))]
    }

    #[verifier::rlimit(80)]
    fn from_map(properties: &mut ParameterMap) -> (r: Result<Self, FromMapError>) {
        let keys: Vec<u8> = vec![parameter_code::ACTOR_NR, parameter_code::DATA];
        assert(keys@ =~= Self::keys());
        let mut vals = take_params(properties, &keys);
        let ghost kv = kinded(vals@, Self::kinds());
        let ghost g = vals@;
        let v1 = hashtable_field(pop_field(&mut vals));
        assert(vals@ =~= g.subrange(0, 1) && hashtable_value(v1) == kv[1]);
        let v0 = int_field(pop_field(&mut vals));
        assert(vals@ =~= g.subrange(0, 0) && int_value(v0) == kv[0]);
        let v1 = match v1 {
            Some(x) => x,
            None => {
                proof {
                    reveal_with_fuel(missing_from, 3);
                }
                return Err(FromMapError::MissingField(parameter_code::DATA));
            },
        };
        let r = DestroyEvent { sender_actor: v0, data: v1 };
        proof {
            assert(r.fields() =~= kv);
            assert(missing_from(kv, Self::required(), 0) is None) by {
                reveal_with_fuel(missing_from, 4);
            }
        }
        Ok(r)
    }

    fn into_map(self, map: &mut ParameterMap) {
        let keys: Vec<u8> = vec![parameter_code::ACTOR_NR, parameter_code::DATA];
        let ghost fields = self.fields();
        let mut vals: Vec<Option<PhotonDataType>> = Vec::new();
        vals.push(int_entry(self.sender_actor));
        vals.push(hashtable_entry(Some(self.data)));
        assert(keys@ =~= Self::keys());
        assert(vals@ =~= fields);
        put_params(map, &keys, vals);
    }

    proof fn lemma_map_roundtrip(&self) {
        lemma_params_roundtrip(Self::keys(), Self::kinds(), Self::required(), self.fields());
    }

    proof fn lemma_map_reread(es: Seq<(u8, PhotonDataType)>) {
        lemma_params_reread(Self::keys(), Self::kinds(), es);
    }
}

/// Parameter for `pun_event_code::INSTANTIATION`.
#[derive(Debug)]
pub struct InstantiationEvent {
    pub sender_actor: Option<i32>,
    pub data: PhotonHashmap,
}

impl PhotonParameterMapConversion for InstantiationEvent {
    open spec fn keys() -> Seq<u8> {
        seq![parameter_code::ACTOR_NR, parameter_code::DATA]
    }

    open spec fn kinds() -> Seq<Option<u8>> {
        seq![Some(codec::INTEGER), Some(codec::HASHTABLE)]
    }

    open spec fn required() -> Seq<bool> {
        seq![false, true]
    }

    open spec fn fields(&self) -> Seq<Option<PhotonDataType>> {
        seq![int_value(self.sender_actor), hashtable_value(Some(self.data))]
    }

    #[verifier::rlimit(80)]
    fn from_map(properties: &mut ParameterMap) -> (r: Result<Self, FromMapError>) {
        let keys: Vec<u8> = vec![parameter_code::ACTOR_NR, parameter_code::DATA];
        assert(keys@ =~= Self::keys());
        let mut vals = take_params(properties, &keys);
        let ghost kv = kinded(vals@, Self::kinds());
        let ghost g = vals@;
        let v1 = hashtable_field(pop_field(&mut vals));
        assert(vals@ =~= g.subrange(0, 1) && hashtable_value(v1) == kv[1]);
        let v0 = int_field(pop_field(&mut vals));
        assert(vals@ =~= g.subrange(0, 0) && int_value(v0) == kv[0]);
        let v1 = match v1 {
            Some(x) => x,
            None => {
                proof {
                    reveal_with_fuel(missing_from, 3);
                }
                return Err(FromMapError::MissingField(parameter_code::DATA));
            },
        };
        let r = InstantiationEvent { sender_actor: v0, data: v1 };
        proof {
            assert(r.fields() =~= kv);
            assert(missing_from(kv, Self::required(), 0) is None) by {
                reveal_with_fuel(missing_from, 4);
            }
        }
        Ok(r)
    }

    fn into_map(self, map: &mut ParameterMap) {
        let keys: Vec<u8> = vec![parameter_code::ACTOR_NR, parameter_code::DATA];
        let ghost fields = self.fields();
        let mut vals: Vec<Option<PhotonDataType>> = Vec::new();
        vals.push(int_entry(self.sender_actor));
        vals.push(hashtable_entry(Some(self.data)));
        assert(keys@ =~= Self::keys());
        assert(vals@ =~= fields);
        put_params(map, &keys, vals);
    }

    proof fn lemma_map_roundtrip(&self) {
        lemma_params_roundtrip(Self::keys(), Self::kinds(), Self::required(), self.fields());
    }

    proof fn lemma_map_reread(es: Seq<(u8, PhotonDataType)>) {
        lemma_params_reread(Self::keys(), Self::kinds(), es);
    }
}

/// Parameter for `pun_event_code::SEND_SERIALIZE` and `pun_event_code::SEND_SERIALIZE_RELIABLE`.
#[derive(Debug)]
pub struct SendSerializeEvent {
    pub sender_actor: Option<i32>,
    pub data: PhotonHashmap,
}

impl PhotonParameterMapConversion for SendSerializeEvent {
    open spec fn keys() -> Seq<u8> {
        seq![parameter_code::ACTOR_NR, parameter_code::DATA]
    }

    open spec fn kinds() -> Seq<Option<u8>> {
        seq![Some(codec::INTEGER), Some(codec::HASHTABLE)]
    }

    open spec fn required() -> Seq<bool> {
        seq![false, true]
    }

    open spec fn fields(&self) -> Seq<Option<PhotonDataType>> {
        seq![int_value(self.sender_actor), hashtable_value(Some(self.data))]
    }

    #[verifier::rlimit(80)]
    fn from_map(properties: &mut ParameterMap) -> (r: Result<Self, FromMapError>) {
        let keys: Vec<u8> = vec![parameter_code::ACTOR_NR, parameter_code::DATA];
        assert(keys@ =~= Self::keys());
        let mut vals = take_params(properties, &keys);
        let ghost kv = kinded(vals@, Self::kinds());
        let ghost g = vals@;
        let v1 = hashtable_field(pop_field(&mut vals));
        assert(vals@ =~= g.subrange(0, 1) && hashtable_value(v1) == kv[1]);
        let v0 = int_field(pop_field(&mut vals));
        assert(vals@ =~= g.subrange(0, 0) && int_value(v0) == kv[0]);
        let v1 = match v1 {
            Some(x) => x,
            None => {
                proof {
                    reveal_with_fuel(missing_from, 3);
                }
                return Err(FromMapError::MissingField(parameter_code::DATA));
            },
        };
        let r = SendSerializeEvent { sender_actor: v0, data: v1 };
        proof {
            assert(r.fields() =~= kv);
            assert(missing_from(kv, Self::required(), 0) is None) by {
                reveal_with_fuel(missing_from, 4);
            }
        }
        Ok(r)
    }

    fn into_map(self, map: &mut ParameterMap) {
        let keys: Vec<u8> = vec![parameter_code::ACTOR_NR, parameter_code::DATA];
        let ghost fields = self.fields();
        let mut vals: Vec<Option<PhotonDataType>> = Vec::new();
        vals.push(int_entry(self.sender_actor));
        vals.push(hashtable_entry(Some(self.data)));
        assert(keys@ =~= Self::keys());
        assert(vals@ =~= fields);
        put_params(map, &keys, vals);
    }

    proof fn lemma_map_roundtrip(&self) {
        lemma_params_roundtrip(Self::keys(), Self::kinds(), Self::required(), self.fields());
    }

    proof fn lemma_map_reread(es: Seq<(u8, PhotonDataType)>) {
        lemma_params_reread(Self::keys(), Self::kinds(), es);
    }
}

/// Parameter for `pun_event_code::RPC`. Contains a single [RpcCall].
#[derive(Debug)]
pub struct RpcEvent {
    pub sender_actor: Option<i32>,
    pub data: PhotonHashmap,
}

impl PhotonParameterMapConversion for RpcEvent {
    open spec fn keys() -> Seq<u8> {
        seq![parameter_code::ACTOR_NR, parameter_code::CUSTOM_EVENT_CONTENT]
    }

    open spec fn kinds() -> Seq<Option<u8>> {
        seq![Some(codec::INTEGER), Some(codec::HASHTABLE)]
    }

    open spec fn required() -> Seq<bool> {
        seq![false, true]
    }

    open spec fn fields(&self) -> Seq<Option<PhotonDataType>> {
        seq![int_value(self.sender_actor), hashtable_value(Some(self.data))]
    }

    #[verifier::rlimit(80)]
    fn from_map(properties: &mut ParameterMap) -> (r: Result<Self, FromMapError>) {
        let keys: Vec<u8> = vec![parameter_code::ACTOR_NR, parameter_code::CUSTOM_EVENT_CONTENT];
        assert(keys@ =~= Self::keys());
        let mut vals = take_params(properties, &keys);
        let ghost kv = kinded(vals@, Self::kinds());
        let ghost g = vals@;
        let v1 = hashtable_field(pop_field(&mut vals));
        assert(vals@ =~= g.subrange(0, 1) && hashtable_value(v1) == kv[1]);
        let v0 = int_field(pop_field(&mut vals));
        assert(vals@ =~= g.subrange(0, 0) && int_value(v0) == kv[0]);
        let v1 = match v1 {
            Some(x) => x,
            None => {
                proof {
                    reveal_with_fuel(missing_from, 3);
                }
                return Err(FromMapError::MissingField(parameter_code::CUSTOM_EVENT_CONTENT));
            },
        };
        let r = RpcEvent { sender_actor: v0, data: v1 };
        proof {
            assert(r.fields() =~= kv);
            assert(missing_from(kv, Self::required(), 0) is None) by {
                reveal_with_fuel(missing_from, 4);
            }
        }
        Ok(r)
    }

    fn into_map(self, map: &mut ParameterMap) {
        let keys: Vec<u8> = vec![parameter_code::ACTOR_NR, parameter_code::CUSTOM_EVENT_CONTENT];
        let ghost fields = self.fields();
        let mut vals: Vec<Option<PhotonDataType>> = Vec::new();
        vals.push(int_entry(self.sender_actor));
        vals.push(hashtable_entry(Some(self.data)));
        assert(keys@ =~= Self::keys());
        assert(vals@ =~= fields);
        put_params(map, &keys, vals);
    }

    proof fn lemma_map_roundtrip(&self) {
        lemma_params_roundtrip(Self::keys(), Self::kinds(), Self::required(), self.fields());
    }

    proof fn lemma_map_reread(es: Seq<(u8, PhotonDataType)>) {
        lemma_params_reread(Self::keys(), Self::kinds(), es);
    }
}

/// Describes a room.
#[derive(Debug)]
pub struct RoomInfo {
    /// If `true`, this game should be removed from the game list in the lobby. Not used during gameplay.
    pub removed: Option<bool>,
    /// Indicates how many players can be in this room. 0 means no limit.
    pub max_players: Option<u8>,
    /// Indicates if the room can be joined.
    pub is_open: Option<bool>,
    /// Indicates if this room should be shown in the lobby. Invisible rooms can still be joined.
    pub is_visible: Option<bool>,
    pub player_count: Option<u8>,
    pub cleanup_cache_on_leave: Option<bool>,
    /// The actor id of the master client.
    pub master_client_id: Option<i32>,
    pub props_listed_in_lobby: Option<Vec<String>>,
    /// Instructs the server to keep player slots open for these players.
    pub expected_users: Option<Vec<String>>,
    /// How long the room stays alive after the last player left.
    pub empty_room_ttl: Option<i32>,
    /// How long a player stays "active" after disconnecting. As long as this time has not passed, their slot stays occupied.
    pub player_ttl: Option<i32>,
    /// The remaining properties, keyed by strings.
    pub custom_properties: OrderedMap<String, PhotonDataType>,
}

impl PhotonMapConversion for RoomInfo {
    open spec fn keys() -> Seq<u8> {
        seq![game_property_key::REMOVED, game_property_key::MAX_PLAYERS, game_property_key::IS_OPEN, game_property_key::IS_VISIBLE, game_property_key::PLAYER_COUNT, game_property_key::CLEANUP_CACHE_ON_LEAVE, game_property_key::MASTER_CLIENT_ID, game_property_key::PROPS_LISTED_IN_LOBBY, game_property_key::EXPECTED_USERS, game_property_key::EMPTY_ROOM_TTL, game_property_key::PLAYER_TTL]
    }

    open spec fn kinds() -> Seq<Option<u8>> {
        seq![Some(codec::BOOLEAN), Some(codec::BYTE), Some(codec::BOOLEAN), Some(codec::BOOLEAN), Some(codec::BYTE), Some(codec::BOOLEAN), Some(codec::INTEGER), Some(codec::STRING_ARRAY), Some(codec::STRING_ARRAY), Some(codec::INTEGER), Some(codec::INTEGER)]
    }

    open spec fn required() -> Seq<bool> {
        Seq::new(11, |i: int| false)
    }

    open spec fn fields(&self) -> Seq<Option<PhotonDataType>> {
        seq![bool_value(self.removed), byte_value(self.max_players), bool_value(self.is_open), bool_value(self.is_visible), byte_value(self.player_count), bool_value(self.cleanup_cache_on_leave), int_value(self.master_client_id), string_array_value(self.props_listed_in_lobby), string_array_value(self.expected_users), int_value(self.empty_room_ttl), int_value(self.player_ttl)]
    }

    open spec fn custom(&self) -> Seq<(String, PhotonDataType)> {
        self.custom_properties.entries()
    }

    #[verifier::rlimit(80)]
    fn from_map(properties: &mut PhotonHashmap) -> (r: Result<Self, FromMapError>) {
        let keys: Vec<u8> = vec![game_property_key::REMOVED, game_property_key::MAX_PLAYERS, game_property_key::IS_OPEN, game_property_key::IS_VISIBLE, game_property_key::PLAYER_COUNT, game_property_key::CLEANUP_CACHE_ON_LEAVE, game_property_key::MASTER_CLIENT_ID, game_property_key::PROPS_LISTED_IN_LOBBY, game_property_key::EXPECTED_USERS, game_property_key::EMPTY_ROOM_TTL, game_property_key::PLAYER_TTL];
        assert(keys@ =~= Self::keys());
        let mut vals = take_table_fields(properties, &keys);
        let custom_properties = drain_custom(properties);
        let ghost kv = kinded(vals@, Self::kinds());
        let ghost g = vals@;
        let v10 = int_field(pop_field(&mut vals));
        assert(vals@ =~= g.subrange(0, 10) && int_value(v10) == kv[10]);
        let v9 = int_field(pop_field(&mut vals));
        assert(vals@ =~= g.subrange(0, 9) && int_value(v9) == kv[9]);
        let v8 = string_array_field(pop_field(&mut vals));
        assert(vals@ =~= g.subrange(0, 8) && string_array_value(v8) == kv[8]);
        let v7 = string_array_field(pop_field(&mut vals));
        assert(vals@ =~= g.subrange(0, 7) && string_array_value(v7) == kv[7]);
        let v6 = int_field(pop_field(&mut vals));
        assert(vals@ =~= g.subrange(0, 6) && int_value(v6) == kv[6]);
        let v5 = bool_field(pop_field(&mut vals));
        assert(vals@ =~= g.subrange(0, 5) && bool_value(v5) == kv[5]);
        let v4 = byte_field(pop_field(&mut vals));
        assert(vals@ =~= g.subrange(0, 4) && byte_value(v4) == kv[4]);
        let v3 = bool_field(pop_field(&mut vals));
        assert(vals@ =~= g.subrange(0, 3) && bool_value(v3) == kv[3]);
        let v2 = bool_field(pop_field(&mut vals));
        assert(vals@ =~= g.subrange(0, 2) && bool_value(v2) == kv[2]);
        let v1 = byte_field(pop_field(&mut vals));
        assert(vals@ =~= g.subrange(0, 1) && byte_value(v1) == kv[1]);
        let v0 = bool_field(pop_field(&mut vals));
        assert(vals@ =~= g.subrange(0, 0) && bool_value(v0) == kv[0]);
        let r = RoomInfo { removed: v0, max_players: v1, is_open: v2, is_visible: v3, player_count: v4, cleanup_cache_on_leave: v5, master_client_id: v6, props_listed_in_lobby: v7, expected_users: v8, empty_room_ttl: v9, player_ttl: v10, custom_properties };
        proof {
            assert(r.fields() =~= kv);
            lemma_none_missing(kv, Self::required(), 0);
        }
        Ok(r)
    }

    fn into_map(self, map: &mut PhotonHashmap) {
        let keys: Vec<u8> = vec![game_property_key::REMOVED, game_property_key::MAX_PLAYERS, game_property_key::IS_OPEN, game_property_key::IS_VISIBLE, game_property_key::PLAYER_COUNT, game_property_key::CLEANUP_CACHE_ON_LEAVE, game_property_key::MASTER_CLIENT_ID, game_property_key::PROPS_LISTED_IN_LOBBY, game_property_key::EXPECTED_USERS, game_property_key::EMPTY_ROOM_TTL, game_property_key::PLAYER_TTL];
        let ghost fields = self.fields();
        let ghost custom = self.custom();
        let mut vals: Vec<Option<PhotonDataType>> = Vec::new();
        vals.push(bool_entry(self.removed));
        vals.push(byte_entry(self.max_players));
        vals.push(bool_entry(self.is_open));
        vals.push(bool_entry(self.is_visible));
        vals.push(byte_entry(self.player_count));
        vals.push(bool_entry(self.cleanup_cache_on_leave));
        vals.push(int_entry(self.master_client_id));
        vals.push(string_array_entry(self.props_listed_in_lobby));
        vals.push(string_array_entry(self.expected_users));
        vals.push(int_entry(self.empty_room_ttl));
        vals.push(int_entry(self.player_ttl));
        assert(keys@ =~= Self::keys());
        assert(vals@ =~= fields);
        put_table_fields(map, &keys, vals);
        put_custom_entries(map, self.custom_properties);
    }

    proof fn lemma_map_roundtrip(&self) {
        lemma_table_roundtrip(Self::keys(), Self::kinds(), Self::required(), self.fields(), self.custom());
    }

    proof fn lemma_map_reread(es: Seq<(PhotonDataType, PhotonDataType)>) {
        lemma_table_reread(Self::keys(), Self::kinds(), es);
    }
}

/// Describes a player. Most information will be in its custom properties.
#[derive(Debug)]
pub struct Player {
    /// The player's nickname.
    pub nickname: Option<String>,
    pub user_id: Option<String>,
    pub is_inactive: Option<bool>,
    /// The remaining properties, keyed by strings.
    pub custom_properties: OrderedMap<String, PhotonDataType>,
}

impl PhotonMapConversion for Player {
    open spec fn keys() -> Seq<u8> {
        seq![actor_properties::PLAYER_NAME, actor_properties::USER_ID, actor_properties::IS_INACTIVE]
    }

    open spec fn kinds() -> Seq<Option<u8>> {
        seq![Some(codec::STRING), Some(codec::STRING), Some(codec::BOOLEAN)]
    }

    open spec fn required() -> Seq<bool> {
        Seq::new(3, |i: int| false)
    }

    open spec fn fields(&self) -> Seq<Option<PhotonDataType>> {
        seq![string_value(self.nickname), string_value(self.user_id), bool_value(self.is_inactive)]
    }

    open spec fn custom(&self) -> Seq<(String, PhotonDataType)> {
        self.custom_properties.entries()
    }

    #[verifier::rlimit(80)]
    fn from_map(properties: &mut PhotonHashmap) -> (r: Result<Self, FromMapError>) {
        let keys: Vec<u8> = vec![actor_properties::PLAYER_NAME, actor_properties::USER_ID, actor_properties::IS_INACTIVE];
        assert(keys@ =~= Self::keys());
        let mut vals = take_table_fields(properties, &keys);
        let custom_properties = drain_custom(properties);
        let ghost kv = kinded(vals@, Self::kinds());
        let ghost g = vals@;
        let v2 = bool_field(pop_field(&mut vals));
        assert(vals@ =~= g.subrange(0, 2) && bool_value(v2) == kv[2]);
        let v1 = string_field(pop_field(&mut vals));
        assert(vals@ =~= g.subrange(0, 1) && string_value(v1) == kv[1]);
        let v0 = string_field(pop_field(&mut vals));
        assert(vals@ =~= g.subrange(0, 0) && string_value(v0) == kv[0]);
        let r = Player { nickname: v0, user_id: v1, is_inactive: v2, custom_properties };
        proof {
            assert(r.fields() =~= kv);
            lemma_none_missing(kv, Self::required(), 0);
        }
        Ok(r)
    }

    fn into_map(self, map: &mut PhotonHashmap) {
        let keys: Vec<u8> = vec![actor_properties::PLAYER_NAME, actor_properties::USER_ID, actor_properties::IS_INACTIVE];
        let ghost fields = self.fields();
        let ghost custom = self.custom();
        let mut vals: Vec<Option<PhotonDataType>> = Vec::new();
        vals.push(string_entry(self.nickname));
        vals.push(string_entry(self.user_id));
        vals.push(bool_entry(self.is_inactive));
        assert(keys@ =~= Self::keys());
        assert(vals@ =~= fields);
        put_table_fields(map, &keys, vals);
        put_custom_entries(map, self.custom_properties);
    }

    proof fn lemma_map_roundtrip(&self) {
        lemma_table_roundtrip(Self::keys(), Self::kinds(), Self::required(), self.fields(), self.custom());
    }

    proof fn lemma_map_reread(es: Seq<(PhotonDataType, PhotonDataType)>) {
        lemma_table_reread(Self::keys(), Self::kinds(), es);
    }
}

/// Event data from [DestroyEvent].
#[derive(Debug)]
pub struct DestroyEventData {
    pub view_id: i32,
    /// The remaining properties, keyed by strings.
    pub custom_properties: OrderedMap<String, PhotonDataType>,
}

impl PhotonMapConversion for DestroyEventData {
    open spec fn keys() -> Seq<u8> {
        seq![0u8]
    }

    open spec fn kinds() -> Seq<Option<u8>> {
        seq![Some(codec::INTEGER)]
    }

    open spec fn required() -> Seq<bool> {
        seq![true]
    }

    open spec fn fields(&self) -> Seq<Option<PhotonDataType>> {
        seq![int_value(Some(self.view_id))]
    }

    open spec fn custom(&self) -> Seq<(String, PhotonDataType)> {
        self.custom_properties.entries()
    }

    #[verifier::rlimit(80)]
    fn from_map(properties: &mut PhotonHashmap) -> (r: Result<Self, FromMapError>) {
        let keys: Vec<u8> = vec![0u8];
        assert(keys@ =~= Self::keys());
        let mut vals = take_table_fields(properties, &keys);
        let custom_properties = drain_custom(properties);
        let ghost kv = kinded(vals@, Self::kinds());
        let ghost g = vals@;
        let v0 = int_field(pop_field(&mut vals));
        assert(vals@ =~= g.subrange(0, 0) && int_value(v0) == kv[0]);
        let v0 = match v0 {
            Some(x) => x,
            None => {
                proof {
                    reveal_with_fuel(missing_from, 2);
                }
                return Err(FromMapError::MissingField(0u8));
            },
        };
        let r = DestroyEventData { view_id: v0, custom_properties };
        proof {
            assert(r.fields() =~= kv);
            assert(missing_from(kv, Self::required(), 0) is None) by {
                reveal_with_fuel(missing_from, 3);
            }
        }
        Ok(r)
    }

    fn into_map(self, map: &mut PhotonHashmap) {
        let keys: Vec<u8> = vec![0u8];
        let ghost fields = self.fields();
        let ghost custom = self.custom();
        let mut vals: Vec<Option<PhotonDataType>> = Vec::new();
        vals.push(int_entry(Some(self.view_id)));
        assert(keys@ =~= Self::keys());
        assert(vals@ =~= fields);
        put_table_fields(map, &keys, vals);
        put_custom_entries(map, self.custom_properties);
    }

    proof fn lemma_map_roundtrip(&self) {
        lemma_table_roundtrip(Self::keys(), Self::kinds(), Self::required(), self.fields(), self.custom());
    }

    proof fn lemma_map_reread(es: Seq<(PhotonDataType, PhotonDataType)>) {
        lemma_table_reread(Self::keys(), Self::kinds(), es);
    }
}

/// Event data from [InstantiationEvent].
#[derive(Debug)]
pub struct InstantiationEventData {
    pub prefab_name: String,
    /// Of type Vector3.
    pub position: Option<CustomData>,
    /// Of type Quaternion.
    pub rotation: Option<CustomData>,
    pub group: Option<u8>,
    /// Should be of same length as `incoming_instantiation_data`.
    pub views_ids: Option<Vec<i32>>,
    /// Should be of same length as `views_ids`.
    pub incoming_instantiation_data: Option<Vec<PhotonDataType>>,
    pub server_time: i32,
    /// The view id.
    pub instantiation_id: i32,
    pub obj_level_prefix: Option<i16>,
    /// The remaining properties, keyed by strings.
    pub custom_properties: OrderedMap<String, PhotonDataType>,
}

impl PhotonMapConversion for InstantiationEventData {
    open spec fn keys() -> Seq<u8> {
        seq![0u8, 1u8, 2u8, 3u8, 4u8, 5u8, 6u8, 7u8, 8u8]
    }

    open spec fn kinds() -> Seq<Option<u8>> {
        seq![Some(codec::STRING), Some(codec::CUSTOM), Some(codec::CUSTOM), Some(codec::BYTE), Some(codec::INT_ARRAY), Some(codec::OBJECT_ARRAY), Some(codec::INTEGER), Some(codec::INTEGER), Some(codec::SHORT)]
    }

    open spec fn required() -> Seq<bool> {
        seq![true, false, false, false, false, false, true, true, false]
    }

    open spec fn fields(&self) -> Seq<Option<PhotonDataType>> {
        seq![string_value(Some(self.prefab_name)), custom_value(self.position), custom_value(self.rotation), byte_value(self.group), int_array_value(self.views_ids), object_array_value(self.incoming_instantiation_data), int_value(Some(self.server_time)), int_value(Some(self.instantiation_id)), short_value(self.obj_level_prefix)]
    }

    open spec fn custom(&self) -> Seq<(String, PhotonDataType)> {
        self.custom_properties.entries()
    }

    #[verifier::rlimit(80)]
    fn from_map(properties: &mut PhotonHashmap) -> (r: Result<Self, FromMapError>) {
        let keys: Vec<u8> = vec![0u8, 1u8, 2u8, 3u8, 4u8, 5u8, 6u8, 7u8, 8u8];
        assert(keys@ =~= Self::keys());
        let mut vals = take_table_fields(properties, &keys);
        let custom_properties = drain_custom(properties);
        let ghost kv = kinded(vals@, Self::kinds());
        let ghost g = vals@;
        let v8 = short_field(pop_field(&mut vals));
        assert(vals@ =~= g.subrange(0, 8) && short_value(v8) == kv[8]);
        let v7 = int_field(pop_field(&mut vals));
        assert(vals@ =~= g.subrange(0, 7) && int_value(v7) == kv[7]);
        let v6 = int_field(pop_field(&mut vals));
        assert(vals@ =~= g.subrange(0, 6) && int_value(v6) == kv[6]);
        let v5 = object_array_field(pop_field(&mut vals));
        assert(vals@ =~= g.subrange(0, 5) && object_array_value(v5) == kv[5]);
        let v4 = int_array_field(pop_field(&mut vals));
        assert(vals@ =~= g.subrange(0, 4) && int_array_value(v4) == kv[4]);
        let v3 = byte_field(pop_field(&mut vals));
        assert(vals@ =~= g.subrange(0, 3) && byte_value(v3) == kv[3]);
        let v2 = custom_field(pop_field(&mut vals));
        assert(vals@ =~= g.subrange(0, 2) && custom_value(v2) == kv[2]);
        let v1 = custom_field(pop_field(&mut vals));
        assert(vals@ =~= g.subrange(0, 1) && custom_value(v1) == kv[1]);
        let v0 = string_field(pop_field(&mut vals));
        assert(vals@ =~= g.subrange(0, 0) && string_value(v0) == kv[0]);
        let v0 = match v0 {
            Some(x) => x,
            None => {
                proof {
                    reveal_with_fuel(missing_from, 2);
                }
                return Err(FromMapError::MissingField(0u8));
            },
        };
        let v6 = match v6 {
            Some(x) => x,
            None => {
                proof {
                    reveal_with_fuel(missing_from, 8);
                }
                return Err(FromMapError::MissingField(6u8));
            },
        };
        let v7 = match v7 {
            Some(x) => x,
            None => {
                proof {
                    reveal_with_fuel(missing_from, 9);
                }
                return Err(FromMapError::MissingField(7u8));
            },
        };
        let r = InstantiationEventData { prefab_name: v0, position: v1, rotation: v2, group: v3, views_ids: v4, incoming_instantiation_data: v5, server_time: v6, instantiation_id: v7, obj_level_prefix: v8, custom_properties };
        proof {
            assert(r.fields() =~= kv);
            assert(missing_from(kv, Self::required(), 0) is None) by {
                reveal_with_fuel(missing_from, 11);
            }
        }
        Ok(r)
    }

    fn into_map(self, map: &mut PhotonHashmap) {
        let keys: Vec<u8> = vec![0u8, 1u8, 2u8, 3u8, 4u8, 5u8, 6u8, 7u8, 8u8];
        let ghost fields = self.fields();
        let ghost custom = self.custom();
        let mut vals: Vec<Option<PhotonDataType>> = Vec::new();
        vals.push(string_entry(Some(self.prefab_name)));
        vals.push(custom_entry(self.position));
        vals.push(custom_entry(self.rotation));
        vals.push(byte_entry(self.group));
        vals.push(int_array_entry(self.views_ids));
        vals.push(object_array_entry(self.incoming_instantiation_data));
        vals.push(int_entry(Some(self.server_time)));
        vals.push(int_entry(Some(self.instantiation_id)));
        vals.push(short_entry(self.obj_level_prefix));
        assert(keys@ =~= Self::keys());
        assert(vals@ =~= fields);
        put_table_fields(map, &keys, vals);
        put_custom_entries(map, self.custom_properties);
    }

    proof fn lemma_map_roundtrip(&self) {
        lemma_table_roundtrip(Self::keys(), Self::kinds(), Self::required(), self.fields(), self.custom());
    }

    proof fn lemma_map_reread(es: Seq<(PhotonDataType, PhotonDataType)>) {
        lemma_table_reread(Self::keys(), Self::kinds(), es);
    }
}

/// An RPC call. Can be both sent and received by the client.
#[derive(Debug)]
pub struct RpcCall {
    pub net_view_id: i32,
    pub other_side_prefix: Option<i16>,
    /// Present when sent from client to server, but not the other way around.
    pub server_timestamp: Option<i32>,
    /// Mutually exclusive with `rpc_index`.
    pub method_name: Option<String>,
    pub in_method_parameters: Option<Vec<PhotonDataType>>,
    /// Mutually exclusive with `method_name`.
    pub rpc_index: Option<u8>,
    /// The remaining properties, keyed by strings.
    pub custom_properties: OrderedMap<String, PhotonDataType>,
}

impl PhotonMapConversion for RpcCall {
    open spec fn keys() -> Seq<u8> {
        seq![0u8, 1u8, 2u8, 3u8, 4u8, 5u8]
    }

    open spec fn kinds() -> Seq<Option<u8>> {
        seq![Some(codec::INTEGER), Some(codec::SHORT), Some(codec::INTEGER), Some(codec::STRING), Some(codec::OBJECT_ARRAY), Some(codec::BYTE)]
    }

    open spec fn required() -> Seq<bool> {
        seq![true, false, false, false, false, false]
    }

    open spec fn fields(&self) -> Seq<Option<PhotonDataType>> {
        seq![int_value(Some(self.net_view_id)), short_value(self.other_side_prefix), int_value(self.server_timestamp), string_value(self.method_name), object_array_value(self.in_method_parameters), byte_value(self.rpc_index)]
    }

    open spec fn custom(&self) -> Seq<(String, PhotonDataType)> {
        self.custom_properties.entries()
    }

    #[verifier::rlimit(80)]
    fn from_map(properties: &mut PhotonHashmap) -> (r: Result<Self, FromMapError>) {
        let keys: Vec<u8> = vec![0u8, 1u8, 2u8, 3u8, 4u8, 5u8];
        assert(keys@ =~= Self::keys());
        let mut vals = take_table_fields(properties, &keys);
        let custom_properties = drain_custom(properties);
        let ghost kv = kinded(vals@, Self::kinds());
        let ghost g = vals@;
        let v5 = byte_field(pop_field(&mut vals));
        assert(vals@ =~= g.subrange(0, 5) && byte_value(v5) == kv[5]);
        let v4 = object_array_field(pop_field(&mut vals));
        assert(vals@ =~= g.subrange(0, 4) && object_array_value(v4) == kv[4]);
        let v3 = string_field(pop_field(&mut vals));
        assert(vals@ =~= g.subrange(0, 3) && string_value(v3) == kv[3]);
        let v2 = int_field(pop_field(&mut vals));
        assert(vals@ =~= g.subrange(0, 2) && int_value(v2) == kv[2]);
        let v1 = short_field(pop_field(&mut vals));
        assert(vals@ =~= g.subrange(0, 1) && short_value(v1) == kv[1]);
        let v0 = int_field(pop_field(&mut vals));
        assert(vals@ =~= g.subrange(0, 0) && int_value(v0) == kv[0]);
        let v0 = match v0 {
            Some(x) => x,
            None => {
                proof {
                    reveal_with_fuel(missing_from, 2);
                }
                return Err(FromMapError::MissingField(0u8));
            },
        };
        let r = RpcCall { net_view_id: v0, other_side_prefix: v1, server_timestamp: v2, method_name: v3, in_method_parameters: v4, rpc_index: v5, custom_properties };
        proof {
            assert(r.fields() =~= kv);
            assert(missing_from(kv, Self::required(), 0) is None) by {
                reveal_with_fuel(missing_from, 8);
            }
        }
        Ok(r)
    }

    fn into_map(self, map: &mut PhotonHashmap) {
        let keys: Vec<u8> = vec![0u8, 1u8, 2u8, 3u8, 4u8, 5u8];
        let ghost fields = self.fields();
        let ghost custom = self.custom();
        let mut vals: Vec<Option<PhotonDataType>> = Vec::new();
        vals.push(int_entry(Some(self.net_view_id)));
        vals.push(short_entry(self.other_side_prefix));
        vals.push(int_entry(self.server_timestamp));
        vals.push(string_entry(self.method_name));
        vals.push(object_array_entry(self.in_method_parameters));
        vals.push(byte_entry(self.rpc_index));
        assert(keys@ =~= Self::keys());
        assert(vals@ =~= fields);
        put_table_fields(map, &keys, vals);
        put_custom_entries(map, self.custom_properties);
    }

    proof fn lemma_map_roundtrip(&self) {
        lemma_table_roundtrip(Self::keys(), Self::kinds(), Self::required(), self.fields(), self.custom());
    }

    proof fn lemma_map_reread(es: Seq<(PhotonDataType, PhotonDataType)>) {
        lemma_table_reread(Self::keys(), Self::kinds(), es);
    }
}

} // verus!
