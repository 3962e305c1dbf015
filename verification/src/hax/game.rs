//! What BulletForceHax learns from the messages of a game server.
use vstd::prelude::*;

use crate::convert::{byte_key_views, checked, custom_entries, found, kinded, remove_keys, FromMapError};
use crate::hax::players::{
    default_actor, lemma_players_insert, lemma_players_swap_remove, lemma_players_view, merge_instantiation_data,
    merge_player, merge_player_script, merged_instantiation, merged_player, merged_script, player_info, PlayerUpdate,
};
use crate::hax::HaxError;
use crate::highlevel::constants::{event_code, operation_code, parameter_code, pun_event_code};
use crate::highlevel::structs::{
    DestroyEvent, DestroyEventData, InstantiationEvent, InstantiationEventData, JoinGameRequest,
    JoinGameResponseSuccess, LeaveEvent, Player, PropertiesChangedEvent, RaiseEvent, RpcCall, RpcEvent,
    SendSerializeEvent, SetPropertiesOperationRequest,
};
use crate::highlevel::structs_impl::{owner_of, serialized_items, SerializedData};
use crate::highlevel::{PhotonMapConversion, PhotonParameterMapConversion};
use crate::message::{ParameterMap, PhotonMessage};
use crate::ordered_map::{
    index_of, insert_entry, keys_unique, lemma_insert_keeps_unique, lemma_swap_remove_lookup, lookup, swap_remove_entry,
    OrderedMap,
};
use crate::protocol::player_script::{first_unexpected, script_item_types, PlayerScript, UnexpectedItem};
use crate::state::{players_view, ActorModel, GameplayModel, GameplayState, PlayerActor};
use crate::value::{values_view, PhotonDataType, PhotonHashmap, PhotonValue};

verus! {

/* Reading the maps of messages */

/// The fields of `T` read out of a parameter map.
pub open spec fn read_params<T: PhotonParameterMapConversion>(es: Seq<(u8, PhotonDataType)>) -> Result<Seq<Option<PhotonDataType>>, FromMapError> {
    checked(kinded(found(es, T::keys()), T::kinds()), T::keys(), T::required())
}

/// The fields of `T` read out of a hashtable.
pub open spec fn read_table<T: PhotonMapConversion>(es: Seq<(PhotonDataType, PhotonDataType)>) -> Result<Seq<Option<PhotonDataType>>, FromMapError> {
    checked(kinded(found(es, byte_key_views(T::keys())), T::kinds()), T::keys(), T::required())
}

/// The custom properties of `T` read out of a hashtable.
pub open spec fn table_custom<T: PhotonMapConversion>(es: Seq<(PhotonDataType, PhotonDataType)>) -> Seq<(String, PhotonDataType)> {
    custom_entries(remove_keys(es, byte_key_views(T::keys())))
}

pub open spec fn int_of(o: Option<PhotonDataType>) -> Option<i32> {
    match o {
        Some(PhotonDataType::Integer(x)) => Some(x),
        _ => None,
    }
}

pub open spec fn byte_of(o: Option<PhotonDataType>) -> Option<u8> {
    match o {
        Some(PhotonDataType::Byte(x)) => Some(x),
        _ => None,
    }
}

pub open spec fn str_of(o: Option<PhotonDataType>) -> Option<Seq<char>> {
    match o {
        Some(PhotonDataType::String(x)) => Some(x@),
        _ => None,
    }
}

pub open spec fn table_of(o: Option<PhotonDataType>) -> Option<Seq<(PhotonDataType, PhotonDataType)>> {
    match o {
        Some(PhotonDataType::Hashtable(x)) => Some(x.entries()),
        _ => None,
    }
}

/// What a player's properties tell of the player.
pub open spec fn player_update(props: Seq<(PhotonDataType, PhotonDataType)>) -> PlayerUpdate {
    let f = read_table::<Player>(props)->Ok_0;
    PlayerUpdate {
        nickname: str_of(f[0]),
        user_id: str_of(f[1]),
        team_number: match lookup(table_custom::<Player>(props), "teamNumber"@) {
            Some(PhotonDataType::Byte(t)) => Some(t),
            _ => None,
        },
    }
}

/* The players of a game */

/// The players, with `id` added when it is not among them.
pub open spec fn ensure_actor(players: Seq<(i32, ActorModel)>, id: i32) -> Seq<(i32, ActorModel)> {
    match index_of(players, id) {
        Some(_) => players,
        None => players.push((id, default_actor())),
    }
}

/// The players, with what `u` tells merged into the actor `id` if there is one.
pub open spec fn merged_into(players: Seq<(i32, ActorModel)>, id: i32, u: PlayerUpdate) -> Seq<(i32, ActorModel)> {
    match lookup(players, id) {
        Some(a) => insert_entry(players, id, merged_player(a, u)),
        None => players,
    }
}

/// The players after a join event listing the actors `items`.
pub open spec fn join_actors(players: Seq<(i32, ActorModel)>, items: Seq<PhotonDataType>) -> Seq<(i32, ActorModel)>
    decreases items.len(),
{
    if items.len() == 0 {
        players
    } else {
        join_actors(
            match items[0] {
                PhotonDataType::Integer(id) => ensure_actor(players, id),
                _ => players,
            },
            items.drop_first(),
        )
    }
}

/// The players after joining a game whose players have the properties `props`, keyed by actor
/// id; each listed player replaces what was known of it.
pub open spec fn joined_players(players: Seq<(i32, ActorModel)>, props: Seq<(PhotonDataType, PhotonDataType)>) -> Seq<(i32, ActorModel)>
    decreases props.len(),
{
    if props.len() == 0 {
        players
    } else {
        joined_players(
            match props[0] {
                (PhotonDataType::Integer(id), PhotonDataType::Hashtable(p)) => insert_entry(players, id, merged_player(default_actor(), player_update(p.entries()))),
                _ => players,
            },
            props.drop_first(),
        )
    }
}

/// The health and facing direction in a player's serialized state, or the first item that is
/// missing or of another type.
pub open spec fn script_update(stream: Seq<PhotonValue>) -> Result<(i16, i16), UnexpectedItem> {
    match first_unexpected(stream, 0) {
        Some(i) => Err(UnexpectedItem { position: i as usize, expected_type: script_item_types()[i] }),
        None => Ok((stream[12]->Short_0, stream[2]->Short_0)),
    }
}

/// The players after learning from each serialized object owned by a known player, in order;
/// reading stops at the first malformed state of a known player.
pub open spec fn serialized_applied(players: Seq<(i32, ActorModel)>, objs: Seq<(i32, Seq<PhotonValue>)>) -> (Seq<(i32, ActorModel)>, Result<(), UnexpectedItem>)
    decreases objs.len(),
{
    if objs.len() == 0 {
        (players, Ok(()))
    } else {
        let owner = owner_of(objs[0].0);
        match lookup(players, owner) {
            Some(a) => match script_update(objs[0].1) {
                Err(e) => (players, Err(e)),
                Ok((health, angle)) => serialized_applied(insert_entry(players, owner, merged_script(a, health, angle)), objs.drop_first()),
            },
            None => serialized_applied(players, objs.drop_first()),
        }
    }
}

/* The steps of a game */

pub open spec fn with_players(g: GameplayModel, players: Seq<(i32, ActorModel)>) -> GameplayModel {
    GameplayModel { players, ..g }
}

/// The game after the instantiation of `prefab_name` with view `view_id` by `sender`.
pub open spec fn instantiated(g: Option<GameplayModel>, sender: i32, prefab_name: Seq<char>, view_id: i32) -> (Option<GameplayModel>, Result<(), HaxError>) {
    match g {
        None => (g, Err(HaxError::NoGameplayState)),
        Some(gm) => if prefab_name == "PlayerBody"@ {
            let p1 = ensure_actor(gm.players, sender);
            (Some(with_players(gm, insert_entry(p1, sender, merged_instantiation(lookup(p1, sender)->Some_0, prefab_name, view_id)))), Ok(()))
        } else if prefab_name == "Match Manager"@ {
            (Some(GameplayModel { match_manager_view_id: Some(view_id), ..gm }), Ok(()))
        } else {
            (g, Ok(()))
        },
    }
}

/// The game after applying the serialized data found in the hashtable `t`.
pub open spec fn serialized_step(g: Option<GameplayModel>, t: Seq<(PhotonDataType, PhotonDataType)>) -> (Option<GameplayModel>, Result<(), HaxError>) {
    match serialized_items(t) {
        None => (g, Err(HaxError::InvalidSerializedData)),
        Some(items) => match g {
            None => (g, Err(HaxError::NoGameplayState)),
            Some(gm) => {
                let (players, res) = serialized_applied(gm.players, items);
                (Some(with_players(gm, players)), match res {
                    Ok(()) => Ok(()),
                    Err(e) => Err(HaxError::PlayerScript(e)),
                })
            },
        },
    }
}

/// The game after a request to set properties.
pub open spec fn set_properties_step(g: Option<GameplayModel>, params: Seq<(u8, PhotonDataType)>) -> (Option<GameplayModel>, Result<(), HaxError>) {
    match read_params::<SetPropertiesOperationRequest>(params) {
        Err(e) => (g, Err(HaxError::FromMap(e))),
        Ok(f) => match int_of(f[1]) {
            None => (g, Ok(())),
            Some(actor) => match g {
                None => (g, Err(HaxError::NoGameplayState)),
                Some(gm) => (Some(with_players(gm, merged_into(gm.players, actor, player_update(table_of(f[0])->Some_0)))), Ok(())),
            },
        },
    }
}

/// The game after a request to raise an event.
pub open spec fn raise_event_step(g: Option<GameplayModel>, params: Seq<(u8, PhotonDataType)>) -> (Option<GameplayModel>, Result<(), HaxError>) {
    match read_params::<RaiseEvent>(params) {
        Err(e) => (g, Err(HaxError::FromMap(e))),
        Ok(f) => {
            let code = byte_of(f[0])->Some_0;
            let data = table_of(f[1]);
            if code == pun_event_code::INSTANTIATION {
                match data {
                    None => (g, Err(HaxError::MissingEventData(code))),
                    Some(t) => match read_table::<InstantiationEventData>(t) {
                        Err(e) => (g, Err(HaxError::FromMap(e))),
                        Ok(fi) => instantiated(g, owner_of(int_of(fi[7])->Some_0), str_of(fi[0])->Some_0, int_of(fi[7])->Some_0),
                    },
                }
            } else if code == pun_event_code::SEND_SERIALIZE || code == pun_event_code::SEND_SERIALIZE_RELIABLE {
                match data {
                    None => (g, Err(HaxError::MissingEventData(code))),
                    Some(t) => serialized_step(g, t),
                }
            } else if code == pun_event_code::RPC {
                match data {
                    None => (g, Err(HaxError::MissingEventData(code))),
                    Some(t) => match read_table::<RpcCall>(t) {
                        Err(e) => (g, Err(HaxError::FromMap(e))),
                        Ok(_) => (g, Ok(())),
                    },
                }
            } else {
                (g, Ok(()))
            }
        },
    }
}

/// The game after the successful response to joining it.
pub open spec fn join_game_step(g: Option<GameplayModel>, params: Seq<(u8, PhotonDataType)>) -> (Option<GameplayModel>, Result<(), HaxError>) {
    match read_params::<JoinGameResponseSuccess>(params) {
        Err(e) => (g, Err(HaxError::FromMap(e))),
        Ok(f) => match g {
            None => (g, Err(HaxError::NoGameplayState)),
            Some(gm) => (Some(GameplayModel {
                player_id: int_of(f[1]),
                players: joined_players(gm.players, table_of(f[3])->Some_0),
                ..gm
            }), Ok(())),
        },
    }
}

/// The game after an event of a player joining.
pub open spec fn join_event_step(g: Option<GameplayModel>, params: Seq<(u8, PhotonDataType)>) -> (Option<GameplayModel>, Result<(), HaxError>) {
    match g {
        None => (g, Err(HaxError::NoGameplayState)),
        Some(gm) => (Some(GameplayModel {
            actor_nr: match lookup(params, parameter_code::ACTOR_NR) {
                Some(PhotonDataType::Integer(a)) => Some(a),
                _ => gm.actor_nr,
            },
            players: match lookup(params, parameter_code::ACTOR_LIST) {
                Some(PhotonDataType::Array(items)) => join_actors(gm.players, items@),
                _ => gm.players,
            },
            ..gm
        }), Ok(())),
    }
}

/// The game after an event of a player leaving.
pub open spec fn leave_step(g: Option<GameplayModel>, params: Seq<(u8, PhotonDataType)>) -> (Option<GameplayModel>, Result<(), HaxError>) {
    match read_params::<LeaveEvent>(params) {
        Err(e) => (g, Err(HaxError::FromMap(e))),
        Ok(f) => match g {
            None => (g, Err(HaxError::NoGameplayState)),
            Some(gm) => {
                let sender = match int_of(f[0]) {
                    Some(a) => a,
                    None => -1i32,
                };
                (Some(with_players(gm, swap_remove_entry(gm.players, sender))), Ok(()))
            },
        },
    }
}

/// The game after an event of properties changing.
pub open spec fn properties_changed_step(g: Option<GameplayModel>, params: Seq<(u8, PhotonDataType)>) -> (Option<GameplayModel>, Result<(), HaxError>) {
    match read_params::<PropertiesChangedEvent>(params) {
        Err(e) => (g, Err(HaxError::FromMap(e))),
        Ok(f) => {
            let target = int_of(f[1])->Some_0;
            if target == 0 {
                (g, Ok(()))
            } else {
                match g {
                    None => (g, Err(HaxError::NoGameplayState)),
                    Some(gm) => match lookup(gm.players, target) {
                        None => (g, Err(HaxError::ActorNotFound(target))),
                        Some(a) => (Some(with_players(gm, insert_entry(gm.players, target, merged_player(a, player_update(table_of(f[2])->Some_0))))), Ok(())),
                    },
                }
            }
        },
    }
}

/// The game after an event of an object being destroyed.
pub open spec fn destroy_step(g: Option<GameplayModel>, params: Seq<(u8, PhotonDataType)>) -> (Option<GameplayModel>, Result<(), HaxError>) {
    match read_params::<DestroyEvent>(params) {
        Err(e) => (g, Err(HaxError::FromMap(e))),
        Ok(f) => match read_table::<DestroyEventData>(table_of(f[1])->Some_0) {
            Err(e) => (g, Err(HaxError::FromMap(e))),
            Ok(_) => (g, Ok(())),
        },
    }
}

/// The game after an event of an object being instantiated.
pub open spec fn instantiation_step(g: Option<GameplayModel>, params: Seq<(u8, PhotonDataType)>) -> (Option<GameplayModel>, Result<(), HaxError>) {
    match read_params::<InstantiationEvent>(params) {
        Err(e) => (g, Err(HaxError::FromMap(e))),
        Ok(f) => match read_table::<InstantiationEventData>(table_of(f[1])->Some_0) {
            Err(e) => (g, Err(HaxError::FromMap(e))),
            Ok(fi) => {
                let sender = match int_of(f[0]) {
                    Some(a) => a,
                    None => -1i32,
                };
                instantiated(g, sender, str_of(fi[0])->Some_0, int_of(fi[7])->Some_0)
            },
        },
    }
}

/// The game after an event of serialized objects.
pub open spec fn send_serialize_step(g: Option<GameplayModel>, params: Seq<(u8, PhotonDataType)>) -> (Option<GameplayModel>, Result<(), HaxError>) {
    match read_params::<SendSerializeEvent>(params) {
        Err(e) => (g, Err(HaxError::FromMap(e))),
        Ok(f) => serialized_step(g, table_of(f[1])->Some_0),
    }
}

/// The game after an event of a remote procedure call.
pub open spec fn rpc_step(g: Option<GameplayModel>, params: Seq<(u8, PhotonDataType)>) -> (Option<GameplayModel>, Result<(), HaxError>) {
    match read_params::<RpcEvent>(params) {
        Err(e) => (g, Err(HaxError::FromMap(e))),
        Ok(f) => match read_table::<RpcCall>(table_of(f[1])->Some_0) {
            Err(e) => (g, Err(HaxError::FromMap(e))),
            Ok(_) => (g, Ok(())),
        },
    }
}

/* Carrying out the steps */

pub open spec fn opt_game(g: Option<GameplayState>) -> Option<GameplayModel> {
    match g {
        Some(x) => Some(x@),
        None => None,
    }
}

/// Reads a player out of its properties, which it consumes.
pub fn read_player(props: PhotonHashmap) -> (r: Player)
    ensures
        player_info(r) == player_update(props.entries()),
{
    let ghost es = props.entries();
    proof {
        crate::convert::lemma_none_missing(kinded(found(es, byte_key_views(Player::keys())), Player::kinds()), Player::required(), 0);
    }
    let mut props = props;
    match Player::from_map(&mut props) {
        Ok(x) => {
            let ghost f = read_table::<Player>(es)->Ok_0;
            assert(x.fields()[0] == f[0] && x.fields()[1] == f[1]);
            x
        },
        Err(_) => {
            assert(false);
            Player { nickname: None, user_id: None, is_inactive: None, custom_properties: OrderedMap::new() }
        },
    }
}

/// Adds actor `id` to the players when it is not among them.
fn ensure_player(players: &mut OrderedMap<i32, PlayerActor>, id: i32)
    ensures
        players_view(final(players).entries()) == ensure_actor(players_view(old(players).entries()), id),
{
    proof {
        use_type_invariant(&*players);
        lemma_players_view(players.entries(), id);
    }
    if !players.contains_key(&id) {
        let a = PlayerActor::default();
        proof {
            lemma_players_insert(players.entries(), id, a);
        }
        players.insert(id, a);
    }
}

/// Merges what `player` tells into the actor `id`, if there is one.
fn merge_into(players: &mut OrderedMap<i32, PlayerActor>, id: i32, player: &Player)
    ensures
        players_view(final(players).entries()) == merged_into(players_view(old(players).entries()), id, player_info(*player)),
{
    proof {
        use_type_invariant(&*players);
        lemma_players_view(players.entries(), id);
    }
    let ghost es = players.entries();
    match players.index_of(&id) {
        Some(i) => {
            let mut a = players.replace_value_at(i, PlayerActor::default());
            merge_player(&mut a, player);
            players.replace_value_at(i, a);
            proof {
                crate::ordered_map::lemma_index_of_unique(es, i as int);
                assert(players_view(players.entries()) =~= players_view(es).update(i as int, (id, a@)));
            }
        },
        None => {},
    }
}

/// Merges what the instantiation of a player body tells into the actor `id`, adding it if
/// needed.
fn instantiate_player(players: &mut OrderedMap<i32, PlayerActor>, id: i32, data: &InstantiationEventData)
    ensures
        players_view(final(players).entries()) == ({
            let p1 = ensure_actor(players_view(old(players).entries()), id);
            insert_entry(p1, id, merged_instantiation(lookup(p1, id)->Some_0, data.prefab_name@, data.instantiation_id))
        }),
{
    let ghost old_pv = players_view(players.entries());
    ensure_player(players, id);
    proof {
        use_type_invariant(&*players);
        lemma_players_view(players.entries(), id);
        let pv = players_view(players.entries());
        match index_of(old_pv, id) {
            Some(j) => {
                assert(pv[j].0@ == id);
            },
            None => {
                assert(pv[pv.len() - 1].0@ == id);
            },
        }
    }
    let ghost es = players.entries();
    match players.index_of(&id) {
        Some(i) => {
            let mut a = players.replace_value_at(i, PlayerActor::default());
            merge_instantiation_data(&mut a, data);
            players.replace_value_at(i, a);
            proof {
                crate::ordered_map::lemma_index_of_unique(es, i as int);
                assert(players_view(players.entries()) =~= players_view(es).update(i as int, (id, a@)));
            }
        },
        None => {
            assert(false);
        },
    }
}

/// Merges an instantiation by `sender` into the game.
pub fn merge_instantiation(gameplay: &mut Option<GameplayState>, sender: i32, event_data: &InstantiationEventData) -> (r: Result<(), HaxError>)
    ensures
        (opt_game(*final(gameplay)), r) == instantiated(opt_game(*old(gameplay)), sender, event_data.prefab_name@, event_data.instantiation_id),
        *old(gameplay) is Some && event_data.prefab_name@ == "Match Manager"@ ==> (r is Ok
            && (*final(gameplay) matches Some(g) && g.match_manager_view_id == Some(event_data.instantiation_id))),
{
    proof {
        reveal_strlit("Match Manager");
        reveal_strlit("PlayerBody");
        assert("Match Manager"@ != "PlayerBody"@) by {
            assert("Match Manager"@[0] != "PlayerBody"@[0]);
        }
    }
    match gameplay {
        None => Err(HaxError::NoGameplayState),
        Some(state) => {
            if event_data.prefab_name == String::from_str("PlayerBody") {
                instantiate_player(&mut state.players, sender, event_data);
            } else if event_data.prefab_name == String::from_str("Match Manager") {
                state.match_manager_view_id = Some(event_data.instantiation_id);
            }
            Ok(())
        },
    }
}

/// The models of serialized objects.
pub open spec fn objects_model(objs: Seq<SerializedData>) -> Seq<(i32, Seq<PhotonValue>)> {
    objs.map_values(|o: SerializedData| o.model())
}

/// Learns from each serialized object owned by a known player, in order; stops at the first
/// malformed state of a known player.
fn apply_serialized(players: &mut OrderedMap<i32, PlayerActor>, objs: &Vec<SerializedData>) -> (r: Result<(), UnexpectedItem>)
    ensures
        (players_view(final(players).entries()), r) == serialized_applied(players_view(old(players).entries()), objects_model(objs@)),
{
    let ghost items = objects_model(objs@);
    let ghost p0 = players_view(players.entries());
    let mut i: usize = 0;
    assert(items.subrange(0, items.len() as int) =~= items);
    while i < objs.len()
        invariant
            i <= objs@.len(),
            items == objects_model(objs@),
            p0 == players_view(old(players).entries()),
            serialized_applied(p0, items) == serialized_applied(players_view(players.entries()), items.subrange(i as int, items.len() as int)),
        decreases objs@.len() - i,
    {
        let obj = &objs[i];
        let actor_id = obj.get_owner_id();
        let ghost es = players.entries();
        let ghost rest = items.subrange(i as int, items.len() as int);
        proof {
            use_type_invariant(&*players);
            lemma_players_view(es, actor_id);
            assert(rest[0] == obj.model());
            assert(rest.drop_first() =~= items.subrange(i + 1, items.len() as int));
        }
        match players.index_of(&actor_id) {
            Some(idx) => {
                let script = match PlayerScript::from_object_array(obj.data_stream.as_slice()) {
                    Ok(s) => s,
                    Err(e) => {
                        proof {
                            assert(script_update(rest[0].1) == Err::<(i16, i16), UnexpectedItem>(e));
                            assert(serialized_applied(players_view(es), rest) == (players_view(es), Err::<(), UnexpectedItem>(e)));
                        }
                        return Err(e);
                    },
                };
                let mut a = players.replace_value_at(idx, PlayerActor::default());
                merge_player_script(&mut a, &script);
                players.replace_value_at(idx, a);
                proof {
                    crate::ordered_map::lemma_index_of_unique(es, idx as int);
                    assert(players_view(players.entries()) =~= players_view(es).update(idx as int, (actor_id, a@)));
                    let stream = values_view(obj.data_stream@);
                    reveal_with_fuel(first_unexpected, 22);
                    assert(stream.len() >= 21);
                    assert(script.items()[12] == stream.subrange(0, 21)[12]);
                    assert(script.items()[2] == stream.subrange(0, 21)[2]);
                    assert(script_update(rest[0].1) == Ok::<(i16, i16), UnexpectedItem>((script.health, script.move_angle)));
                }
            },
            None => {},
        }
        i = i + 1;
    }
    Ok(())
}

/// Applies the serialized data found in the hashtable `t` to the game.
fn apply_serialized_table(gameplay: &mut Option<GameplayState>, t: &PhotonHashmap) -> (r: Result<(), HaxError>)
    ensures
        (opt_game(*final(gameplay)), r) == serialized_step(opt_game(*old(gameplay)), t.entries()),
{
    let objs = match SendSerializeEvent::parse_serialized_data(t) {
        Some(x) => x,
        None => return Err(HaxError::InvalidSerializedData),
    };
    proof {
        assert(objects_model(objs@) =~= serialized_items(t.entries())->Some_0);
    }
    match gameplay {
        None => Err(HaxError::NoGameplayState),
        Some(state) => match apply_serialized(&mut state.players, &objs) {
            Ok(()) => Ok(()),
            Err(e) => Err(HaxError::PlayerScript(e)),
        },
    }
}

/// A request to set properties: the properties of an actor are merged into it.
pub fn set_properties(gameplay: &mut Option<GameplayState>, parameters: ParameterMap) -> (r: Result<(), HaxError>)
    ensures
        (opt_game(*final(gameplay)), r) == set_properties_step(opt_game(*old(gameplay)), parameters.entries()),
{
    let mut parameters = parameters;
    let req = match SetPropertiesOperationRequest::from_map(&mut parameters) {
        Ok(x) => x,
        Err(e) => return Err(HaxError::FromMap(e)),
    };
    if let Some(actor) = req.actor_nr {
        // properties are for actor, not for room
        let player_props = read_player(req.properties);
        match gameplay {
            None => return Err(HaxError::NoGameplayState),
            Some(state) => merge_into(&mut state.players, actor, &player_props),
        }
    }
    Ok(())
}

/// A request to raise an event: instantiations, serialized objects and remote procedure calls
/// are read.
pub fn raise_event(gameplay: &mut Option<GameplayState>, parameters: ParameterMap) -> (r: Result<(), HaxError>)
    ensures
        (opt_game(*final(gameplay)), r) == raise_event_step(opt_game(*old(gameplay)), parameters.entries()),
{
    let mut parameters = parameters;
    let req = match RaiseEvent::from_map(&mut parameters) {
        Ok(x) => x,
        Err(e) => return Err(HaxError::FromMap(e)),
    };
    let code = req.event_code;
    let req_data = match req.data {
        Some(PhotonDataType::Hashtable(t)) => Some(t),
        _ => None,
    };
    if code == pun_event_code::INSTANTIATION {
        let mut t = match req_data {
            Some(x) => x,
            None => return Err(HaxError::MissingEventData(code)),
        };
        let event_data = match InstantiationEventData::from_map(&mut t) {
            Ok(x) => x,
            Err(e) => return Err(HaxError::FromMap(e)),
        };
        let sender = event_data.get_view_id().get_owner_id();
        merge_instantiation(gameplay, sender, &event_data)
    } else if code == pun_event_code::SEND_SERIALIZE || code == pun_event_code::SEND_SERIALIZE_RELIABLE {
        let t = match req_data {
            Some(x) => x,
            None => return Err(HaxError::MissingEventData(code)),
        };
        apply_serialized_table(gameplay, &t)
    } else if code == pun_event_code::RPC {
        // client->server RPC call
        let mut t = match req_data {
            Some(x) => x,
            None => return Err(HaxError::MissingEventData(code)),
        };
        match RpcCall::from_map(&mut t) {
            Ok(_) => Ok(()),
            Err(e) => Err(HaxError::FromMap(e)),
        }
    } else {
        Ok(())
    }
}

/// Adds the players of a game being joined, replacing what was known of them.
fn join_players(players: &mut OrderedMap<i32, PlayerActor>, props: PhotonHashmap)
    ensures
        players_view(final(players).entries()) == joined_players(players_view(old(players).entries()), props.entries()),
{
    let ghost orig = props.entries();
    let ghost p0 = players_view(players.entries());
    let mut props = props;
    let mut es = props.drain_all();
    assert(orig.subrange(0, orig.len() as int) =~= orig);
    let ghost mut i: int = 0;
    while es.len() > 0
        invariant
            0 <= i <= orig.len(),
            es@ == orig.subrange(i, orig.len() as int),
            joined_players(p0, orig) == joined_players(players_view(players.entries()), es@),
        decreases es@.len(),
    {
        let ghost before = es@;
        let (key, value) = es.remove(0);
        proof {
            assert(before.drop_first() =~= es@);
            i = i + 1;
            assert(es@ =~= orig.subrange(i, orig.len() as int));
        }
        match (key, value) {
            (PhotonDataType::Integer(actor_id), PhotonDataType::Hashtable(actor_props)) => {
                let mut actor = PlayerActor::default();
                let player = read_player(actor_props);
                merge_player(&mut actor, &player);
                proof {
                    use_type_invariant(&*players);
                    lemma_players_insert(players.entries(), actor_id, actor);
                }
                players.insert(actor_id, actor);
            },
            _ => {},
        }
    }
}

/// The response to joining a game: our player id and the players of the game.
pub fn join_game_response(gameplay: &mut Option<GameplayState>, parameters: ParameterMap) -> (r: Result<(), HaxError>)
    ensures
        (opt_game(*final(gameplay)), r) == join_game_step(opt_game(*old(gameplay)), parameters.entries()),
{
    let mut parameters = parameters;
    let resp = match JoinGameResponseSuccess::from_map(&mut parameters) {
        Ok(x) => x,
        Err(e) => return Err(HaxError::FromMap(e)),
    };
    match gameplay {
        None => Err(HaxError::NoGameplayState),
        Some(state) => {
            state.player_id = Some(resp.actor_nr);
            join_players(&mut state.players, resp.player_properties);
            Ok(())
        },
    }
}

/// Adds each listed actor that is not yet known.
fn join_actor_list(players: &mut OrderedMap<i32, PlayerActor>, items: &Vec<PhotonDataType>)
    ensures
        players_view(final(players).entries()) == join_actors(players_view(old(players).entries()), items@),
{
    let ghost p0 = players_view(players.entries());
    let mut i: usize = 0;
    assert(items@.subrange(0, items@.len() as int) =~= items@);
    while i < items.len()
        invariant
            i <= items@.len(),
            join_actors(p0, items@) == join_actors(players_view(players.entries()), items@.subrange(i as int, items@.len() as int)),
        decreases items@.len() - i,
    {
        proof {
            assert(items@.subrange(i as int, items@.len() as int).drop_first() =~= items@.subrange(i + 1, items@.len() as int));
        }
        if let PhotonDataType::Integer(id) = &items[i] {
            ensure_player(players, *id);
        }
        i = i + 1;
    }
}

/// An event of a player joining: our actor number, and the actors of the game.
pub fn join_event(gameplay: &mut Option<GameplayState>, parameters: &ParameterMap) -> (r: Result<(), HaxError>)
    ensures
        (opt_game(*final(gameplay)), r) == join_event_step(opt_game(*old(gameplay)), parameters.entries()),
{
    match gameplay {
        None => Err(HaxError::NoGameplayState),
        Some(state) => {
            if let Some(PhotonDataType::Integer(actor_nr)) = parameters.get(&parameter_code::ACTOR_NR) {
                state.actor_nr = Some(*actor_nr);
            }
            if let Some(PhotonDataType::Array(array)) = parameters.get(&parameter_code::ACTOR_LIST) {
                join_actor_list(&mut state.players, array);
            }
            // PLAYER_PROPERTIES field is pretty useless, only contains empty string as nickname
            Ok(())
        },
    }
}

/// An event of a player leaving: the player is removed.
pub fn leave_event(gameplay: &mut Option<GameplayState>, parameters: ParameterMap) -> (r: Result<(), HaxError>)
    ensures
        (opt_game(*final(gameplay)), r) == leave_step(opt_game(*old(gameplay)), parameters.entries()),
{
    let mut parameters = parameters;
    let event = match LeaveEvent::from_map(&mut parameters) {
        Ok(x) => x,
        Err(e) => return Err(HaxError::FromMap(e)),
    };
    let sender = match event.sender_actor {
        Some(a) => a,
        None => -1,
    };
    match gameplay {
        None => Err(HaxError::NoGameplayState),
        Some(state) => {
            proof {
                use_type_invariant(&state.players);
                lemma_players_swap_remove(state.players.entries(), sender);
            }
            state.players.swap_remove(&sender);
            Ok(())
        },
    }
}

/// An event of properties changing: the properties of an actor are merged into it.
pub fn properties_changed_event(gameplay: &mut Option<GameplayState>, parameters: ParameterMap) -> (r: Result<(), HaxError>)
    ensures
        (opt_game(*final(gameplay)), r) == properties_changed_step(opt_game(*old(gameplay)), parameters.entries()),
{
    let mut parameters = parameters;
    let event = match PropertiesChangedEvent::from_map(&mut parameters) {
        Ok(x) => x,
        Err(e) => return Err(HaxError::FromMap(e)),
    };
    if event.target_actor_number != 0 {
        match gameplay {
            None => return Err(HaxError::NoGameplayState),
            Some(state) => {
                let target = event.target_actor_number;
                proof {
                    use_type_invariant(&state.players);
                    lemma_players_view(state.players.entries(), target);
                }
                if !state.players.contains_key(&target) {
                    return Err(HaxError::ActorNotFound(target));
                }
                let player_props = read_player(event.properties);
                merge_into(&mut state.players, target, &player_props);
            },
        }
    }
    Ok(())
}

/// An event of an object being destroyed: its data is read.
pub fn destroy_event(parameters: ParameterMap) -> (r: Result<(), HaxError>)
    ensures
        r == destroy_step(None, parameters.entries()).1,
{
    let mut parameters = parameters;
    let mut event = match DestroyEvent::from_map(&mut parameters) {
        Ok(x) => x,
        Err(e) => return Err(HaxError::FromMap(e)),
    };
    match DestroyEventData::from_map(&mut event.data) {
        Ok(_) => Ok(()),
        Err(e) => Err(HaxError::FromMap(e)),
    }
}

/// An event of an object being instantiated by a player.
pub fn instantiation_event(gameplay: &mut Option<GameplayState>, parameters: ParameterMap) -> (r: Result<(), HaxError>)
    ensures
        (opt_game(*final(gameplay)), r) == instantiation_step(opt_game(*old(gameplay)), parameters.entries()),
{
    let mut parameters = parameters;
    let mut event = match InstantiationEvent::from_map(&mut parameters) {
        Ok(x) => x,
        Err(e) => return Err(HaxError::FromMap(e)),
    };
    let sender = match event.sender_actor {
        Some(a) => a,
        None => -1,
    };
    let event_data = match InstantiationEventData::from_map(&mut event.data) {
        Ok(x) => x,
        Err(e) => return Err(HaxError::FromMap(e)),
    };
    merge_instantiation(gameplay, sender, &event_data)
}

/// An event of serialized objects: the state of each known player among them is read.
pub fn send_serialize_event(gameplay: &mut Option<GameplayState>, parameters: ParameterMap) -> (r: Result<(), HaxError>)
    ensures
        (opt_game(*final(gameplay)), r) == send_serialize_step(opt_game(*old(gameplay)), parameters.entries()),
{
    let mut parameters = parameters;
    let event = match SendSerializeEvent::from_map(&mut parameters) {
        Ok(x) => x,
        Err(e) => return Err(HaxError::FromMap(e)),
    };
    apply_serialized_table(gameplay, &event.data)
}

/// An event of a remote procedure call: the call is read.
pub fn rpc_event(parameters: ParameterMap) -> (r: Result<(), HaxError>)
    ensures
        r == rpc_step(None, parameters.entries()).1,
{
    let mut parameters = parameters;
    let mut event = match RpcEvent::from_map(&mut parameters) {
        Ok(x) => x,
        Err(e) => return Err(HaxError::FromMap(e)),
    };
    match event.extract_rpc_call() {
        Ok(_) => Ok(()),
        Err(e) => Err(HaxError::FromMap(e)),
    }
}

/// A request to join a game: the request is read.
pub fn join_game_request(parameters: ParameterMap) -> (r: Result<(), HaxError>)
    ensures
        r == match read_params::<JoinGameRequest>(parameters.entries()) {
            Ok(_) => Ok::<(), HaxError>(()),
            Err(e) => Err(HaxError::FromMap(e)),
        },
{
    let mut parameters = parameters;
    match JoinGameRequest::from_map(&mut parameters) {
        Ok(_) => Ok(()),
        Err(e) => Err(HaxError::FromMap(e)),
    }
}

/// The game after a message of the game server, and whether handling it succeeded.
pub open spec fn game_step(g: Option<GameplayModel>, msg: PhotonMessage) -> (Option<GameplayModel>, Result<(), HaxError>) {
    match msg {
        PhotonMessage::OperationRequest(req) => {
            let ps = req.parameters.entries();
            if req.operation_code == operation_code::JOIN_GAME {
                (g, match read_params::<JoinGameRequest>(ps) {
                    Ok(_) => Ok(()),
                    Err(e) => Err(HaxError::FromMap(e)),
                })
            } else if req.operation_code == operation_code::SET_PROPERTIES {
                set_properties_step(g, ps)
            } else if req.operation_code == operation_code::RAISE_EVENT {
                raise_event_step(g, ps)
            } else {
                (g, Ok(()))
            }
        },
        PhotonMessage::OperationResponse(resp) => if resp.operation_code == operation_code::JOIN_GAME && resp.return_code == 0 {
            join_game_step(g, resp.parameters.entries())
        } else {
            (g, Ok(()))
        },
        PhotonMessage::EventData(ev) => {
            let ps = ev.parameters.entries();
            if ev.code == event_code::JOIN {
                join_event_step(g, ps)
            } else if ev.code == event_code::LEAVE {
                leave_step(g, ps)
            } else if ev.code == event_code::PROPERTIES_CHANGED {
                properties_changed_step(g, ps)
            } else if ev.code == pun_event_code::DESTROY {
                destroy_step(g, ps)
            } else if ev.code == pun_event_code::INSTANTIATION {
                instantiation_step(g, ps)
            } else if ev.code == pun_event_code::SEND_SERIALIZE || ev.code == pun_event_code::SEND_SERIALIZE_RELIABLE {
                send_serialize_step(g, ps)
            } else if ev.code == pun_event_code::RPC {
                rpc_step(g, ps)
            } else {
                (g, Ok(()))
            }
        },
        _ => (g, Ok(())),
    }
}

/// Learns what a message of the game server tells.
pub fn match_packet_game(gameplay: &mut Option<GameplayState>, photon_message: PhotonMessage) -> (r: Result<(), HaxError>)
    ensures
        (opt_game(*final(gameplay)), r) == game_step(opt_game(*old(gameplay)), photon_message),
{
    match photon_message {
        PhotonMessage::OperationRequest(operation_request) => {
            let code = operation_request.operation_code;
            if code == operation_code::JOIN_GAME {
                join_game_request(operation_request.parameters)
            } else if code == operation_code::SET_PROPERTIES {
                set_properties(gameplay, operation_request.parameters)
            } else if code == operation_code::RAISE_EVENT {
                raise_event(gameplay, operation_request.parameters)
            } else {
                Ok(())
            }
        },
        PhotonMessage::OperationResponse(operation_response) => {
            if operation_response.operation_code == operation_code::JOIN_GAME && operation_response.return_code == 0 {
                join_game_response(gameplay, operation_response.parameters)
            } else {
                Ok(())
            }
        },
        PhotonMessage::EventData(event) => {
            let code = event.code;
            if code == event_code::JOIN {
                join_event(gameplay, &event.parameters)
            } else if code == event_code::LEAVE {
                leave_event(gameplay, event.parameters)
            } else if code == event_code::PROPERTIES_CHANGED {
                properties_changed_event(gameplay, event.parameters)
            } else if code == pun_event_code::DESTROY {
                destroy_event(event.parameters)
            } else if code == pun_event_code::INSTANTIATION {
                instantiation_event(gameplay, event.parameters)
            } else if code == pun_event_code::SEND_SERIALIZE || code == pun_event_code::SEND_SERIALIZE_RELIABLE {
                send_serialize_event(gameplay, event.parameters)
            } else if code == pun_event_code::RPC {
                rpc_event(event.parameters)
            } else {
                Ok(())
            }
        },
        // unhandled
        _ => Ok(()),
    }
}

/* What the handling of a game promises */

/// A player who leaves is no longer tracked, and every other tracked player is kept as it was.
pub proof fn lemma_leave_removes_sender(gm: GameplayModel, params: Seq<(u8, PhotonDataType)>, s: i32)
    requires
        keys_unique(gm.players),
        read_params::<LeaveEvent>(params) is Ok,
        lookup(params, parameter_code::ACTOR_NR) == Some(PhotonDataType::Integer(s)),
    ensures
        leave_step(Some(gm), params).1 == Ok::<(), HaxError>(()),
        leave_step(Some(gm), params).0 matches Some(g2) && lookup(g2.players, s) is None
            && keys_unique(g2.players)
            && forall|k: i32| k != s ==> #[trigger] lookup(g2.players, k) == lookup(gm.players, k),
{
    let f = read_params::<LeaveEvent>(params)->Ok_0;
    assert(LeaveEvent::keys()[0] == parameter_code::ACTOR_NR);
    assert(f[0] == Some(PhotonDataType::Integer(s)));
    lemma_swap_remove_lookup(gm.players, s, s);
    assert forall|k: i32| k != s implies #[trigger] lookup(swap_remove_entry(gm.players, s), k) == lookup(gm.players, k) by {
        lemma_swap_remove_lookup(gm.players, s, k);
    }
}

/// The instantiation of the match manager records its instantiation id as the match manager's
/// view, whoever sent it, and leaves the players and the ids of the local player as they were.
pub proof fn lemma_match_manager_recorded(gm: GameplayModel, sender: i32, view_id: i32)
    ensures
        instantiated(Some(gm), sender, "Match Manager"@, view_id).1 == Ok::<(), HaxError>(()),
        instantiated(Some(gm), sender, "Match Manager"@, view_id).0 matches Some(g2)
            && g2.match_manager_view_id == Some(view_id)
            && g2.players == gm.players
            && g2.player_id == gm.player_id
            && g2.actor_nr == gm.actor_nr,
{
    reveal_strlit("Match Manager");
    reveal_strlit("PlayerBody");
    assert("Match Manager"@ != "PlayerBody"@) by {
        assert("Match Manager"@[0] != "PlayerBody"@[0]);
    }
}

/// The instantiation of a player body gives its sender's actor the instantiation id as its view,
/// adding the actor if it was not tracked, and leaves every other tracked player as it was.
pub proof fn lemma_player_body_view(gm: GameplayModel, sender: i32, view_id: i32)
    requires
        keys_unique(gm.players),
    ensures
        instantiated(Some(gm), sender, "PlayerBody"@, view_id).1 == Ok::<(), HaxError>(()),
        instantiated(Some(gm), sender, "PlayerBody"@, view_id).0 matches Some(g2)
            && (lookup(g2.players, sender) matches Some(a) && a.view_id == Some(view_id))
            && g2.match_manager_view_id == gm.match_manager_view_id
            && forall|k: i32| k != sender ==> #[trigger] lookup(g2.players, k) == lookup(gm.players, k),
{
    reveal_strlit("PlayerBody");
    let p1 = ensure_actor(gm.players, sender);
    if index_of(gm.players, sender) is None {
        lemma_insert_keeps_unique(gm.players, sender, default_actor());
        assert(p1 == insert_entry(gm.players, sender, default_actor()));
    }
    let a1 = lookup(p1, sender)->Some_0;
    if index_of(gm.players, sender) is None {
        crate::ordered_map::lemma_lookup_push(gm.players, sender, default_actor(), sender);
    } else {
        let i = index_of(gm.players, sender)->Some_0;
        crate::ordered_map::lemma_index_of_unique(gm.players, i);
    }
    let na = merged_instantiation(a1, "PlayerBody"@, view_id);
    lemma_insert_keeps_unique(p1, sender, na);
    assert forall|k: i32| k != sender implies #[trigger] lookup(insert_entry(p1, sender, na), k) == lookup(gm.players, k) by {
        crate::convert::lemma_put_other(p1, sender, Some(na), k);
        if index_of(gm.players, sender) is None {
            crate::ordered_map::lemma_lookup_push(gm.players, sender, default_actor(), k);
        }
    }
}

/// Where no item of a player's state is unexpected from `i` on, the state has all its items,
/// and each item from `i` on has its expected type.
pub proof fn lemma_no_unexpected(items: Seq<PhotonValue>, i: int)
    requires
        0 <= i,
        first_unexpected(items, i) is None,
    ensures
        i < script_item_types().len() ==> items.len() >= script_item_types().len(),
        forall|j: int| i <= j < script_item_types().len() ==> crate::codec::type_code(#[trigger] items[j]) == script_item_types()[j],
    decreases script_item_types().len() - i,
{
    if i < script_item_types().len() {
        assert(i < items.len() && crate::codec::type_code(items[i]) == script_item_types()[i]);
        lemma_no_unexpected(items, i + 1);
    }
}

/// The serialized state of a tracked player gives it the health at item 12 and the facing
/// direction (the move angle) at item 2 of the state, and keeps what else is known of it.
pub proof fn lemma_script_sets_health_and_facing(players: Seq<(i32, ActorModel)>, view_id: i32, stream: Seq<PhotonValue>)
    requires
        keys_unique(players),
        lookup(players, owner_of(view_id)) is Some,
        first_unexpected(stream, 0) is None,
    ensures
        stream[12] is Short && stream[2] is Short,
        serialized_applied(players, seq![(view_id, stream)]).1 == Ok::<(), UnexpectedItem>(()),
        lookup(serialized_applied(players, seq![(view_id, stream)]).0, owner_of(view_id)) matches Some(a2) && {
            let a = lookup(players, owner_of(view_id))->Some_0;
            &&& a2.health == Some(stream[12]->Short_0)
            &&& a2.facing_direction == Some(stream[2]->Short_0)
            &&& a2.view_id == a.view_id && a2.user_id == a.user_id && a2.nickname == a.nickname && a2.team_number == a.team_number
        },
{
    lemma_no_unexpected(stream, 0);
    assert(crate::codec::type_code(stream[12]) == crate::codec::SHORT);
    assert(crate::codec::type_code(stream[2]) == crate::codec::SHORT);
    let owner = owner_of(view_id);
    let a = lookup(players, owner)->Some_0;
    let objs = seq![(view_id, stream)];
    let (h, f) = script_update(stream)->Ok_0;
    let p1 = insert_entry(players, owner, merged_script(a, h, f));
    assert(objs.drop_first() =~= Seq::<(i32, Seq<PhotonValue>)>::empty());
    assert(serialized_applied(p1, objs.drop_first()) == (p1, Ok::<(), UnexpectedItem>(())));
    lemma_insert_keeps_unique(players, owner, merged_script(a, h, f));
}

} // verus!
