//! What is known of the players of a game, and how it is updated.
use vstd::prelude::*;

use crate::highlevel::structs::{InstantiationEventData, Player};
use crate::highlevel::PhotonMapConversion;
use crate::ordered_map::{index_of, insert_entry, keys_unique, lemma_index_of_unique, lookup, swap_remove_entry};
use crate::protocol::player_script::PlayerScript;
use crate::state::{opt_str, players_view, ActorModel, PlayerActor};
use crate::value::{PhotonDataType, PhotonValue};

verus! {

/// What a player's properties tell of the player.
pub struct PlayerUpdate {
    pub nickname: Option<Seq<char>>,
    pub user_id: Option<Seq<char>>,
    pub team_number: Option<u8>,
}

/// What `player` tells of the player: its nickname, user id, and the team number among its
/// custom properties.
pub open spec fn player_info(player: Player) -> PlayerUpdate {
    PlayerUpdate {
        nickname: opt_str(player.nickname),
        user_id: opt_str(player.user_id),
        team_number: match lookup(player.custom(), "teamNumber"@) {
            Some(PhotonDataType::Byte(t)) => Some(t),
            _ => None,
        },
    }
}

/// An actor after learning what `u` tells; what `u` does not tell is kept.
pub open spec fn merged_player(a: ActorModel, u: PlayerUpdate) -> ActorModel {
    ActorModel {
        user_id: if u.user_id is Some { u.user_id } else { a.user_id },
        nickname: if u.nickname is Some { u.nickname } else { a.nickname },
        team_number: if u.team_number is Some { u.team_number } else { a.team_number },
        ..a
    }
}

/// An actor after its instantiation as `prefab_name` with view `view_id`: only a player body
/// gives a player its view.
pub open spec fn merged_instantiation(a: ActorModel, prefab_name: Seq<char>, view_id: i32) -> ActorModel {
    if prefab_name == "PlayerBody"@ {
        ActorModel { view_id: Some(view_id), ..a }
    } else {
        a
    }
}

/// An actor after learning its health and the direction it faces.
pub open spec fn merged_script(a: ActorModel, health: i16, facing_direction: i16) -> ActorModel {
    ActorModel { health: Some(health), facing_direction: Some(facing_direction), ..a }
}

/// An actor of which nothing is known.
pub open spec fn default_actor() -> ActorModel {
    ActorModel {
        view_id: None,
        user_id: None,
        nickname: None,
        team_number: None,
        health: None,
        facing_direction: None,
    }
}

/// Learns what `player` tells of the actor.
pub fn merge_player(actor: &mut PlayerActor, player: &Player)
    ensures
        final(actor)@ == merged_player(old(actor)@, player_info(*player)),
        final(actor)@.nickname == if player.nickname is Some { opt_str(player.nickname) } else { old(actor)@.nickname },
        final(actor)@.user_id == if player.user_id is Some { opt_str(player.user_id) } else { old(actor)@.user_id },
        final(actor)@.view_id == old(actor)@.view_id,
        final(actor)@.health == old(actor)@.health,
        final(actor)@.facing_direction == old(actor)@.facing_direction,
{
    if let Some(user_id) = &player.user_id {
        actor.user_id = Some(user_id.clone());
    }
    if let Some(nickname) = &player.nickname {
        actor.nickname = Some(nickname.clone());
    }
    if let Some(PhotonDataType::Byte(team_number)) = player.custom_properties.get(&String::from_str("teamNumber")) {
        actor.team_number = Some(*team_number);
    }
}

/// Learns the view of the actor from its instantiation, if it is a player body.
pub fn merge_instantiation_data(actor: &mut PlayerActor, instantiation_data: &InstantiationEventData)
    ensures
        final(actor)@ == merged_instantiation(old(actor)@, instantiation_data.prefab_name@, instantiation_data.instantiation_id),
{
    if instantiation_data.prefab_name != String::from_str("PlayerBody") {
        return;
    }
    actor.view_id = Some(instantiation_data.get_view_id());
}

/// Learns the health and facing direction of the actor from its serialized state.
pub fn merge_player_script(actor: &mut PlayerActor, script: &PlayerScript)
    ensures
        final(actor)@ == merged_script(old(actor)@, script.health, script.move_angle),
        final(actor)@.health == Some(script.health),
        final(actor)@.facing_direction == Some(script.move_angle),
        final(actor)@.view_id == old(actor)@.view_id,
        final(actor)@.user_id == old(actor)@.user_id,
        final(actor)@.nickname == old(actor)@.nickname,
        final(actor)@.team_number == old(actor)@.team_number,
{
    actor.health = Some(script.health);
    actor.facing_direction = Some(script.move_angle);
}

/* What merging into an actor promises */

/// What a player's properties tell replaces a field of the actor only where they carry it: a
/// carried nickname, user id or team number replaces the known one, a missing one keeps it, and
/// the view, health and facing direction are kept.
pub proof fn lemma_merged_player_fields(a: ActorModel, player: Player)
    ensures
        player.nickname is None ==> merged_player(a, player_info(player)).nickname == a.nickname,
        player.nickname matches Some(n) ==> merged_player(a, player_info(player)).nickname == Some(n@),
        player.user_id is None ==> merged_player(a, player_info(player)).user_id == a.user_id,
        player.user_id matches Some(u) ==> merged_player(a, player_info(player)).user_id == Some(u@),
        lookup(player.custom(), "teamNumber"@) matches Some(PhotonDataType::Byte(t))
            ==> merged_player(a, player_info(player)).team_number == Some(t),
        !(lookup(player.custom(), "teamNumber"@) matches Some(PhotonDataType::Byte(_)))
            ==> merged_player(a, player_info(player)).team_number == a.team_number,
        merged_player(a, player_info(player)).view_id == a.view_id,
        merged_player(a, player_info(player)).health == a.health,
        merged_player(a, player_info(player)).facing_direction == a.facing_direction,
{
}

/// Merging a player's serialized state sets the health and the facing direction to the given
/// values, and keeps everything else known of the actor.
pub proof fn lemma_merged_script_fields(a: ActorModel, health: i16, facing_direction: i16)
    ensures
        merged_script(a, health, facing_direction).health == Some(health),
        merged_script(a, health, facing_direction).facing_direction == Some(facing_direction),
        merged_script(a, health, facing_direction).view_id == a.view_id,
        merged_script(a, health, facing_direction).user_id == a.user_id,
        merged_script(a, health, facing_direction).nickname == a.nickname,
        merged_script(a, health, facing_direction).team_number == a.team_number,
{
}

/// In a player's serialized state, the move angle is item 2 and the health item 12.
pub proof fn lemma_script_positions(script: PlayerScript)
    ensures
        script.items()[2] == PhotonValue::Short(script.move_angle),
        script.items()[12] == PhotonValue::Short(script.health),
{
}

/* The players of a game, and their models */

/// Taking the models of the actors keeps the keys, hence their positions.
pub proof fn lemma_players_view(es: Seq<(i32, PlayerActor)>, k: i32)
    requires
        keys_unique(es),
    ensures
        keys_unique(players_view(es)),
        players_view(es).len() == es.len(),
        index_of(players_view(es), k) == index_of(es, k),
        lookup(players_view(es), k) == match lookup(es, k) {
            Some(a) => Some(a@),
            None => None,
        },
{
    let pv = players_view(es);
    assert forall|a: int, b: int| 0 <= a < pv.len() && 0 <= b < pv.len() && a != b implies #[trigger] pv[a].0@ != #[trigger] pv[b].0@ by {
        crate::ordered_map::lemma_keys_differ(es, a, b);
    }
    match index_of(es, k) {
        Some(i) => {
            lemma_index_of_unique(es, i);
            assert(pv[i].0 == es[i].0);
            lemma_index_of_unique(pv, i);
        },
        None => {
            if exists|i: int| 0 <= i < pv.len() && #[trigger] pv[i].0@ == k {
                let i = choose|i: int| 0 <= i < pv.len() && #[trigger] pv[i].0@ == k;
                assert(es[i].0 == pv[i].0);
            }
        },
    }
}

/// Inserting an actor, then taking the models, is inserting its model.
pub proof fn lemma_players_insert(es: Seq<(i32, PlayerActor)>, k: i32, a: PlayerActor)
    requires
        keys_unique(es),
    ensures
        players_view(insert_entry(es, k, a)) == insert_entry(players_view(es), k, a@),
{
    lemma_players_view(es, k);
    let pv = players_view(es);
    match index_of(es, k) {
        Some(i) => {
            assert(players_view(insert_entry(es, k, a)) =~= insert_entry(pv, k, a@));
        },
        None => {
            assert(players_view(insert_entry(es, k, a)) =~= insert_entry(pv, k, a@));
        },
    }
}

/// Removing an actor, then taking the models, is removing its model.
pub proof fn lemma_players_swap_remove(es: Seq<(i32, PlayerActor)>, k: i32)
    requires
        keys_unique(es),
    ensures
        players_view(swap_remove_entry(es, k)) == swap_remove_entry(players_view(es), k),
{
    lemma_players_view(es, k);
    match index_of(es, k) {
        Some(i) => {
            assert(players_view(swap_remove_entry(es, k)) =~= swap_remove_entry(players_view(es), k));
        },
        None => {},
    }
}

} // verus!
