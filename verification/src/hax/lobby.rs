//! What BulletForceHax does with the messages of the lobby server.
use vstd::prelude::*;

use crate::convert::{byte_key_views, byte_keys, checked, custom_entries, found, kinded, lemma_none_missing, put_all, put_custom, remove_keys};
use crate::hax::rooms::{
    force_games_current_ver, force_games_web, has_password, password_stripped, props_mapped, str_prop,
    strip_password, version_forced, web_forced,
};
use crate::highlevel::structs::{RoomInfo, RoomInfoList};
use crate::highlevel::{PhotonMapConversion, PhotonParameterMapConversion};
use crate::convert::FromMapError;
use crate::hax::HaxError;
use crate::message::ParameterMap;
use crate::highlevel::constants::parameter_code;
use crate::message::{EventData, PhotonMessage};
use crate::ordered_map::lookup;
use crate::state::{opt_str, GlobalModel, GlobalState, VersionInfo};
use crate::text::{first_index_of, has_prefix, split_once, starts_with};
use crate::value::{PhotonDataType, PhotonHashmap};

verus! {

/// How the rooms of the lobby are rewritten.
#[derive(Debug)]
pub struct LobbySettings {
    /// Show rooms of other stores as web rooms.
    pub show_mobile: bool,
    /// Show rooms of other versions as rooms of `target_version`.
    pub show_versions: bool,
    /// Mark rooms with a password, and clear it.
    pub strip: bool,
    /// The version of the game, when it is known.
    pub target_version: Option<String>,
}

pub struct RoomSettings {
    pub show_mobile: bool,
    pub show_versions: bool,
    pub strip: bool,
    pub target_version: Option<Seq<char>>,
}

impl View for LobbySettings {
    type V = RoomSettings;

    open spec fn view(&self) -> RoomSettings {
        RoomSettings {
            show_mobile: self.show_mobile,
            show_versions: self.show_versions,
            strip: self.strip,
            target_version: opt_str(self.target_version),
        }
    }
}

/// Whether the settings change the rooms they are applied to.
pub open spec fn room_changes(s: RoomSettings) -> bool {
    s.show_mobile || (s.show_versions && s.target_version is Some) || s.strip
}

/// Whether a room is of another game, whose version starts with "newfps-", and left alone.
pub open spec fn room_is_skipped(custom: Seq<(String, PhotonDataType)>) -> bool {
    match str_prop(custom, "gameversion"@) {
        Some(v) => has_prefix(v, "newfps-"@),
        None => false,
    }
}

/// The custom properties of a room after the first rewrite the settings ask for.
pub open spec fn web_step(c0: Seq<(String, PhotonDataType)>, c1: Seq<(String, PhotonDataType)>, s: RoomSettings) -> bool {
    if s.show_mobile {
        props_mapped(c0, c1, web_forced(str_prop(c0, "storeID"@)))
    } else {
        c1 == c0
    }
}

/// The custom properties of a room after the second rewrite the settings ask for.
pub open spec fn version_step(c1: Seq<(String, PhotonDataType)>, c2: Seq<(String, PhotonDataType)>, s: RoomSettings) -> bool {
    match s.target_version {
        Some(t) => if s.show_versions {
            props_mapped(c1, c2, version_forced(str_prop(c1, "gameVersion"@), t))
        } else {
            c2 == c1
        },
        None => c2 == c1,
    }
}

/// The custom properties of a room after the third rewrite the settings ask for.
pub open spec fn password_step(c2: Seq<(String, PhotonDataType)>, c3: Seq<(String, PhotonDataType)>, s: RoomSettings) -> bool {
    if s.strip {
        props_mapped(c2, c3, password_stripped(has_password(c2)))
    } else {
        c3 == c2
    }
}

/// The fields of a room, as read out of its properties.
pub open spec fn room_fields(props: Seq<(PhotonDataType, PhotonDataType)>) -> Seq<Option<PhotonDataType>> {
    kinded(found(props, byte_key_views(RoomInfo::keys())), RoomInfo::kinds())
}

/// The custom properties of a room, as read out of its properties.
pub open spec fn room_custom(props: Seq<(PhotonDataType, PhotonDataType)>) -> Seq<(String, PhotonDataType)> {
    custom_entries(remove_keys(props, byte_key_views(RoomInfo::keys())))
}

/// The properties of a room after rewriting them through `c1`, `c2` and `c3`.
pub open spec fn room_rewritten_via(
    old: Seq<(PhotonDataType, PhotonDataType)>,
    new: Seq<(PhotonDataType, PhotonDataType)>,
    s: RoomSettings,
    c1: Seq<(String, PhotonDataType)>,
    c2: Seq<(String, PhotonDataType)>,
    c3: Seq<(String, PhotonDataType)>,
) -> bool {
    &&& web_step(room_custom(old), c1, s)
    &&& version_step(c1, c2, s)
    &&& password_step(c2, c3, s)
    &&& new == put_custom(put_all(Seq::empty(), byte_keys(RoomInfo::keys()), room_fields(old)), c3)
}

/// The properties of a room after rewriting: a skipped room is left empty, any other is read,
/// rewritten and written back.
pub open spec fn room_rewritten(old: Seq<(PhotonDataType, PhotonDataType)>, new: Seq<(PhotonDataType, PhotonDataType)>, s: RoomSettings) -> bool {
    if room_is_skipped(room_custom(old)) {
        new == Seq::<(PhotonDataType, PhotonDataType)>::empty()
    } else {
        exists|c1: Seq<(String, PhotonDataType)>, c2: Seq<(String, PhotonDataType)>, c3: Seq<(String, PhotonDataType)>|
            #[trigger] room_rewritten_via(old, new, s, c1, c2, c3)
    }
}

/// A room can always be read out of its properties: none of its fields is required.
proof fn lemma_room_reads(props: Seq<(PhotonDataType, PhotonDataType)>)
    ensures
        checked(room_fields(props), RoomInfo::keys(), RoomInfo::required()) == Ok::<Seq<Option<PhotonDataType>>, FromMapError>(room_fields(props)),
{
    lemma_none_missing(room_fields(props), RoomInfo::required(), 0);
}

/// Rewrites the properties of a room as the settings ask; returns whether the room was changed.
pub fn rewrite_room(props: &mut PhotonHashmap, s: &LobbySettings) -> (r: bool)
    ensures
        room_rewritten(old(props).entries(), final(props).entries(), s@),
        r == (!room_is_skipped(room_custom(old(props).entries())) && room_changes(s@)),
{
    let ghost old_props = props.entries();
    proof {
        lemma_room_reads(old_props);
    }
    let mut room_info = match RoomInfo::from_map(props) {
        Ok(x) => x,
        Err(_) => {
            assert(false);
            return false;
        },
    };
    // BulletForce has `gameVersion` as key, so this only matches rooms of another game
    let skipped = match room_info.custom_properties.get(&String::from_str("gameversion")) {
        Some(PhotonDataType::String(version)) => starts_with(version.as_str(), "newfps-"),
        _ => false,
    };
    if skipped {
        return false;
    }
    let mut changes_made = false;
    let ghost c0 = room_info.custom();
    if s.show_mobile {
        force_games_web(&mut room_info);
        changes_made = true;
    }
    let ghost c1 = room_info.custom();
    if s.show_versions {
        if let Some(version) = &s.target_version {
            force_games_current_ver(&mut room_info, version.as_str());
            changes_made = true;
        }
    }
    let ghost c2 = room_info.custom();
    if s.strip {
        strip_password(&mut room_info);
        changes_made = true;
    }
    let ghost c3 = room_info.custom();
    let ghost fields = room_info.fields();
    room_info.into_map(props);
    proof {
        assert(room_rewritten_via(old_props, props.entries(), s@, c1, c2, c3));
    }
    changes_made
}

/// Whether an entry of the game list is a room that is rewritten: a name and the room's
/// properties, which do not mark it as skipped.
pub open spec fn room_entry(e: (PhotonDataType, PhotonDataType)) -> bool {
    match e {
        (PhotonDataType::String(_), PhotonDataType::Hashtable(p)) => !room_is_skipped(room_custom(p.entries())),
        _ => false,
    }
}

/// The value of an entry of the game list after rewriting: a room's properties are rewritten,
/// anything else is left as it was.
pub open spec fn entry_rewritten(e: (PhotonDataType, PhotonDataType), new: PhotonDataType, s: RoomSettings) -> bool {
    match e {
        (PhotonDataType::String(_), PhotonDataType::Hashtable(p)) => new matches PhotonDataType::Hashtable(p2) && room_rewritten(p.entries(), p2.entries(), s),
        _ => new == e.1,
    }
}

/// The game list after rewriting each room in it.
pub open spec fn games_rewritten(old: Seq<(PhotonDataType, PhotonDataType)>, new: Seq<(PhotonDataType, PhotonDataType)>, s: RoomSettings) -> bool {
    &&& new.len() == old.len()
    &&& forall|i: int| 0 <= i < old.len() ==> (#[trigger] new[i]).0 == old[i].0 && entry_rewritten(old[i], new[i].1, s)
}

/// Whether rewriting the game list changes it: the settings change rooms, and there is a room
/// to change.
pub open spec fn games_changed(old: Seq<(PhotonDataType, PhotonDataType)>, s: RoomSettings) -> bool {
    room_changes(s) && exists|i: int| 0 <= i < old.len() && room_entry(#[trigger] old[i])
}

/// Rewrites each room of a game list; returns whether any was changed.
pub fn rewrite_games(games: &mut PhotonHashmap, s: &LobbySettings) -> (r: bool)
    ensures
        games_rewritten(old(games).entries(), final(games).entries(), s@),
        r == games_changed(old(games).entries(), s@),
{
    let ghost orig = games.entries();
    let mut changes_made = false;
    let mut i: usize = 0;
    let n = games.len();
    while i < n
        invariant
            n == orig.len(),
            i <= n,
            games.entries().len() == n,
            forall|j: int| 0 <= j < i ==> (#[trigger] games.entries()[j]).0 == orig[j].0 && entry_rewritten(orig[j], games.entries()[j].1, s@),
            forall|j: int| i <= j < n ==> #[trigger] games.entries()[j] == orig[j],
            changes_made == (room_changes(s@) && exists|j: int| 0 <= j < i && room_entry(#[trigger] orig[j])),
        decreases n - i,
    {
        let ghost before = games.entries();
        let (k, v) = games.entry_at(i);
        let is_room = match (k, v) {
            (PhotonDataType::String(_), PhotonDataType::Hashtable(_)) => true,
            _ => false,
        };
        if is_room {
            let old_v = games.replace_value_at(i, PhotonDataType::Null);
            match old_v {
                PhotonDataType::Hashtable(mut props) => {
                    let changed = rewrite_room(&mut props, s);
                    changes_made = changes_made || changed;
                    games.replace_value_at(i, PhotonDataType::Hashtable(props));
                },
                _ => {},
            }
        }
        proof {
            let cur = games.entries();
            assert(cur[i as int].0 == orig[i as int].0);
            assert(entry_rewritten(orig[i as int], cur[i as int].1, s@));
            assert forall|j: int| 0 <= j < i + 1 implies (#[trigger] cur[j]).0 == orig[j].0 && entry_rewritten(orig[j], cur[j].1, s@) by {
                if j < i {
                    assert(cur[j] == before[j]);
                }
            }
            if room_entry(orig[i as int]) && room_changes(s@) {
                assert(exists|j: int| 0 <= j < i + 1 && room_entry(#[trigger] orig[j]));
            }
            if changes_made {
                if !(room_entry(orig[i as int]) && room_changes(s@)) {
                    let j = choose|j: int| 0 <= j < i && room_entry(#[trigger] orig[j]);
                    assert(0 <= j < i + 1 && room_entry(orig[j]));
                }
            } else {
                assert forall|j: int| 0 <= j < i + 1 implies !(room_changes(s@) && room_entry(#[trigger] orig[j])) by {
                    if j < i {
                    }
                }
            }
        }
        i = i + 1;
    }
    changes_made
}

/// The parameters of a game list event after writing the rewritten list `v` back.
pub open spec fn game_list_written(
    params: Seq<(u8, PhotonDataType)>,
    new_params: Seq<(u8, PhotonDataType)>,
    v: PhotonDataType,
    games: Seq<(PhotonDataType, PhotonDataType)>,
    s: RoomSettings,
) -> bool {
    &&& v matches PhotonDataType::Hashtable(g2)
    &&& games_rewritten(games, v->Hashtable_0.entries(), s)
    &&& new_params == put_all(remove_keys(params, RoomInfoList::keys()), RoomInfoList::keys(), seq![Some(v)])
}

/// What handling a game list event gives: the error of reading the list, nothing when no room
/// changes, or the event with the rewritten list.
pub open spec fn game_list_result(event: EventData, s: RoomSettings, r: Result<Option<PhotonMessage>, HaxError>) -> bool {
    match checked(kinded(found(event.parameters.entries(), RoomInfoList::keys()), RoomInfoList::kinds()), RoomInfoList::keys(), RoomInfoList::required()) {
        Err(e) => r == Err::<Option<PhotonMessage>, HaxError>(HaxError::FromMap(e)),
        Ok(vals) => {
            let games = vals[0]->Some_0->Hashtable_0.entries();
            if games_changed(games, s) {
                &&& r matches Ok(Some(PhotonMessage::EventData(e2)))
                &&& e2.code == event.code
                &&& exists|v: PhotonDataType| #[trigger] game_list_written(event.parameters.entries(), e2.parameters.entries(), v, games, s)
            } else {
                r == Ok::<Option<PhotonMessage>, HaxError>(None)
            }
        },
    }
}

/// Rewrites the rooms of a game list event as the settings ask; gives the rewritten event when
/// a room changed.
pub fn handle_game_list(event: EventData, s: &LobbySettings) -> (r: Result<Option<PhotonMessage>, HaxError>)
    ensures
        game_list_result(event, s@, r),
{
    let ghost params = event.parameters.entries();
    let mut event = event;
    let mut game_list = match RoomInfoList::from_map(&mut event.parameters) {
        Ok(x) => x,
        Err(e) => return Err(HaxError::FromMap(e)),
    };
    let ghost games = game_list.games.entries();
    proof {
        let vals = checked(kinded(found(params, RoomInfoList::keys()), RoomInfoList::kinds()), RoomInfoList::keys(), RoomInfoList::required())->Ok_0;
        assert(game_list.fields()[0] == Some(PhotonDataType::Hashtable(game_list.games)));
        assert(vals[0]->Some_0->Hashtable_0.entries() == games);
    }
    let changes_made = rewrite_games(&mut game_list.games, s);
    // prevent doing work if we didnt actually change anything
    if changes_made {
        let ghost v = PhotonDataType::Hashtable(game_list.games);
        game_list.into_map(&mut event.parameters);
        proof {
            assert(game_list_written(params, event.parameters.entries(), v, games, s@));
        }
        Ok(Some(PhotonMessage::EventData(event)))
    } else {
        Ok(None)
    }
}

/// The game and Photon versions in an app version such as "1.89.1_1.99": the parts before and
/// after the first underscore.
pub open spec fn version_of(app_version: Seq<char>) -> Option<(Seq<char>, Seq<char>)> {
    match first_index_of(app_version, '_') {
        Some(i) => Some((app_version.subrange(0, i), app_version.subrange(i + 1, app_version.len() as int))),
        None => None,
    }
}

/// The global state after an authentication request: the app version gives the versions (none
/// when it has no underscore), and the user id is recorded.
pub open spec fn authenticated(g: GlobalModel, params: Seq<(u8, PhotonDataType)>) -> GlobalModel {
    GlobalModel {
        version: match lookup(params, parameter_code::APP_VERSION) {
            Some(PhotonDataType::String(v)) => version_of(v@),
            _ => g.version,
        },
        user_id: match lookup(params, parameter_code::USER_ID) {
            Some(PhotonDataType::String(u)) => Some(u@),
            _ => g.user_id,
        },
    }
}

/// Learns the versions and the user id from an authentication request.
pub fn authenticate(global: &mut GlobalState, params: &ParameterMap)
    ensures
        final(global)@ == authenticated(old(global)@, params.entries()),
{
    if let Some(PhotonDataType::String(app_version)) = params.get(&parameter_code::APP_VERSION) {
        global.version = match split_once(app_version.as_str(), '_') {
            Some((game, photon)) => Some(VersionInfo { game_version: game, photon_version: photon }),
            None => None,
        };
    }
    if let Some(PhotonDataType::String(user_id)) = params.get(&parameter_code::USER_ID) {
        global.user_id = Some(user_id.clone());
    }
}

} // verus!
