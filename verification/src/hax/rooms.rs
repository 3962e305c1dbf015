//! Rewriting the rooms listed in the lobby.
use vstd::prelude::*;

use crate::highlevel::structs::RoomInfo;
use crate::highlevel::PhotonMapConversion;
use crate::ordered_map::{index_of, lookup};
use crate::state::opt_str;
use crate::text::concat;
use crate::value::{PhotonDataType, PhotonValue};

verus! {

/// The string stored under `key`, if the value there is a string.
pub open spec fn str_prop(c: Seq<(String, PhotonDataType)>, key: Seq<char>) -> Option<Seq<char>> {
    match lookup(c, key) {
        Some(PhotonDataType::String(s)) => Some(s@),
        _ => None,
    }
}

/// `new` has the keys of `old`, in the same order, and each value is `f` applied to the key and
/// the old value.
pub open spec fn props_mapped(old: Seq<(String, PhotonDataType)>, new: Seq<(String, PhotonDataType)>, f: spec_fn(Seq<char>, PhotonValue) -> PhotonValue) -> bool {
    &&& new.len() == old.len()
    &&& forall|i: int| 0 <= i < old.len() ==> (#[trigger] new[i]).0 == old[i].0 && new[i].1@ == f(old[i].0@, old[i].1@)
}

/// Whether the room has a password: a nonempty string under "password".
pub open spec fn has_password(c: Seq<(String, PhotonDataType)>) -> bool {
    match str_prop(c, "password"@) {
        Some(s) => s.len() > 0,
        None => false,
    }
}

/// The change made to a room with a password: its name is marked and its password cleared.
pub open spec fn password_stripped(has: bool) -> spec_fn(Seq<char>, PhotonValue) -> PhotonValue {
    |key: Seq<char>, v: PhotonValue| if has && key == "roomName"@ {
        match v {
            PhotonValue::String(name) => PhotonValue::String("[p] "@ + name),
            _ => v,
        }
    } else if has && key == "password"@ {
        match v {
            PhotonValue::String(_) => PhotonValue::String(Seq::empty()),
            _ => v,
        }
    } else {
        v
    }
}

/// The name of a room from the store `store_id`: web rooms keep theirs, mobile rooms are marked
/// with "[M]", rooms of other stores with the store's name.
pub open spec fn store_marked(store_id: Seq<char>, name: Seq<char>) -> Seq<char> {
    if store_id == "BALYZE_WEB"@ {
        name
    } else if store_id == "BALYZE_MOBILE"@ {
        "[M] "@ + name
    } else {
        "["@ + store_id + "] "@ + name
    }
}

/// The change made to show a room as a web room: its name is marked with its store, and its
/// store becomes the web store.
pub open spec fn web_forced(store_id: Option<Seq<char>>) -> spec_fn(Seq<char>, PhotonValue) -> PhotonValue {
    |key: Seq<char>, v: PhotonValue| if key == "roomName"@ {
        match (v, store_id) {
            (PhotonValue::String(name), Some(sid)) => PhotonValue::String(store_marked(sid, name)),
            _ => v,
        }
    } else if key == "storeID"@ {
        match v {
            PhotonValue::String(_) => PhotonValue::String("BALYZE_WEB"@),
            _ => v,
        }
    } else {
        v
    }
}

/// The change made to show a room of another version as one of `target`: its name is marked
/// with its version, and its version becomes `target`.
pub open spec fn version_forced(actual: Option<Seq<char>>, target: Seq<char>) -> spec_fn(Seq<char>, PhotonValue) -> PhotonValue {
    |key: Seq<char>, v: PhotonValue| match actual {
        Some(a) => if a != target && key == "roomName"@ {
            match v {
                PhotonValue::String(name) => PhotonValue::String("["@ + a + "] "@ + name),
                _ => v,
            }
        } else if a != target && key == "gameVersion"@ {
            match v {
                PhotonValue::String(_) => PhotonValue::String(target),
                _ => v,
            }
        } else {
            v
        },
        None => v,
    }
}

/// Forcing rooms to the version `target` changes nothing of a room already at `target`; a room of
/// another version gets `target` as its version.
pub proof fn lemma_version_forced(actual: Option<Seq<char>>, target: Seq<char>, key: Seq<char>, v: PhotonValue)
    ensures
        actual == Some(target) ==> version_forced(actual, target)(key, v) == v,
        actual is None ==> version_forced(actual, target)(key, v) == v,
        (actual matches Some(a) && a != target) && key == "gameVersion"@ && v is String
            ==> version_forced(actual, target)(key, v) == PhotonValue::String(target),
{
    reveal_strlit("roomName");
    reveal_strlit("gameVersion");
    assert("roomName"@ != "gameVersion"@) by {
        assert("roomName"@[0] != "gameVersion"@[0]);
    }
}

/// Replaces the string stored under `key`, if there is one, by `f` of it; returns the position
/// of the entry that changed.
fn replace_str_prop(room_info: &mut RoomInfo, key: &String, prefix: &str, whole: bool) -> (r: Option<usize>)
    ensures
        final(room_info).fields() == old(room_info).fields(),
        match r {
            Some(i) => {
                &&& i < old(room_info).custom().len()
                &&& old(room_info).custom()[i as int].0@ == key@
                &&& old(room_info).custom()[i as int].1 is String
                &&& final(room_info).custom() == old(room_info).custom().update(i as int, (old(room_info).custom()[i as int].0, final(room_info).custom()[i as int].1))
                &&& final(room_info).custom()[i as int].1@ == PhotonValue::String(if whole {
                        prefix@
                    } else {
                        prefix@ + old(room_info).custom()[i as int].1->String_0@
                    })
            },
            None => {
                &&& final(room_info).custom() == old(room_info).custom()
                &&& !(lookup(old(room_info).custom(), key@) matches Some(PhotonDataType::String(_)))
            },
        },
{
    match room_info.custom_properties.index_of(key) {
        Some(i) => {
            let (_, v) = room_info.custom_properties.entry_at(i);
            let new = match v {
                PhotonDataType::String(s) => if whole {
                    String::from_str(prefix)
                } else {
                    concat(prefix, s.as_str())
                },
                _ => return None,
            };
            room_info.custom_properties.replace_value_at(i, PhotonDataType::String(new));
            Some(i)
        },
        None => None,
    }
}

/// The string stored under `key`, if the value there is a string.
fn get_str_prop(room_info: &RoomInfo, key: &String) -> (r: Option<String>)
    ensures
        opt_str(r) == str_prop(room_info.custom(), key@),
{
    match room_info.custom_properties.get(key) {
        Some(PhotonDataType::String(s)) => Some(s.clone()),
        _ => None,
    }
}

/// Facts about two entries of the custom properties of a room after replacing strings at `a`
/// and `b`.
proof fn lemma_entry_cases(c: Seq<(String, PhotonDataType)>, j: int, key: Seq<char>)
    requires
        crate::ordered_map::keys_unique(c),
        0 <= j < c.len(),
        c[j].0@ == key,
    ensures
        lookup(c, key) == Some(c[j].1),
{
    crate::ordered_map::lemma_index_of_unique(c, j);
}

/// Two entries with keys of the same model are the same entry.
proof fn lemma_same_index(c: Seq<(String, PhotonDataType)>, r: Option<usize>, j: int)
    requires
        crate::ordered_map::keys_unique(c),
        0 <= j < c.len(),
        r matches Some(i) ==> i < c.len(),
    ensures
        r matches Some(i) ==> (c[i as int].0@ == c[j].0@ <==> i == j),
{
    if let Some(i) = r {
        if i != j {
            crate::ordered_map::lemma_keys_differ(c, i as int, j);
        }
    }
}

/// Marks the name of a room that has a password with "[p]", and clears the password.
pub fn strip_password(room_info: &mut RoomInfo)
    ensures
        final(room_info).fields() == old(room_info).fields(),
        props_mapped(old(room_info).custom(), final(room_info).custom(), password_stripped(has_password(old(room_info).custom()))),
{
    proof {
        use_type_invariant(&room_info.custom_properties);
        reveal_strlit("roomName");
        reveal_strlit("password");
        reveal_strlit("");
        assert(""@ =~= Seq::<char>::empty());
        assert("roomName"@ != "password"@) by {
            assert("roomName"@[0] != "password"@[0]);
        }
    }
    let ghost c = room_info.custom();
    let pw_key = String::from_str("password");
    let has = match get_str_prop(room_info, &pw_key) {
        Some(s) => !s.as_str().is_empty(),
        None => false,
    };
    if has {
        let name_key = String::from_str("roomName");
        let r1 = replace_str_prop(room_info, &name_key, "[p] ", false);
        let ghost mid = room_info.custom();
        proof {
            use_type_invariant(&room_info.custom_properties);
        }
        let r2 = replace_str_prop(room_info, &pw_key, "", true);
        proof {
            let f = password_stripped(true);
            let n = room_info.custom();
            assert forall|j: int| 0 <= j < c.len() implies (#[trigger] n[j]).0 == c[j].0 && n[j].1@ == f(c[j].0@, c[j].1@) by {
                lemma_same_index(c, r1, j);
                lemma_same_index(mid, r2, j);
                assert(mid[j].0 == c[j].0);
                assert(n[j].0 == mid[j].0);
                if c[j].0@ == "roomName"@ {
                    lemma_entry_cases(c, j, "roomName"@);
                    assert(r2 is Some ==> r2->0 != j);
                    assert(n[j] == mid[j]);
                    assert(n[j].1@ == f(c[j].0@, c[j].1@));
                } else if c[j].0@ == "password"@ {
                    lemma_entry_cases(c, j, "password"@);
                    lemma_entry_cases(mid, j, "password"@);
                    assert(r1 is Some ==> r1->0 != j);
                    assert(mid[j] == c[j]);
                    assert(n[j].1@ == f(c[j].0@, c[j].1@));
                } else {
                    assert(n[j] == c[j]);
                    assert(n[j].1@ == f(c[j].0@, c[j].1@));
                }
            }
        }
    } else {
        assert(props_mapped(c, room_info.custom(), password_stripped(false)));
    }
}

/// After stripping, a room has no password left, so stripping it again changes nothing.
pub proof fn lemma_strip_password_idempotent(old: Seq<(String, PhotonDataType)>, new: Seq<(String, PhotonDataType)>)
    requires
        crate::ordered_map::keys_unique(old),
        props_mapped(old, new, password_stripped(has_password(old))),
    ensures
        !has_password(new),
        forall|key: Seq<char>, v: PhotonValue| #[trigger] password_stripped(has_password(new))(key, v) == v,
{
    reveal_strlit("roomName");
    reveal_strlit("password");
    assert("roomName"@ != "password"@) by {
        assert("roomName"@[0] != "password"@[0]);
    }
    let f = password_stripped(has_password(old));
    if let Some(j) = index_of(new, "password"@) {
        assert(new[j].0 == old[j].0);
        lemma_entry_cases(old, j, "password"@);
        assert forall|a: int, b: int| 0 <= a < new.len() && 0 <= b < new.len() && a != b implies #[trigger] new[a].0@ != #[trigger] new[b].0@ by {
            assert(new[a].0 == old[a].0 && new[b].0 == old[b].0);
        }
        lemma_entry_cases(new, j, "password"@);
        assert(new[j].1@ == f(old[j].0@, old[j].1@));
        match new[j].1 {
            PhotonDataType::String(x) => {
                if has_password(old) {
                    match old[j].1 {
                        PhotonDataType::String(y) => {},
                        _ => {},
                    }
                    assert(x@ =~= Seq::<char>::empty());
                } else {
                    assert(new[j].1@ == old[j].1@);
                    match old[j].1 {
                        PhotonDataType::String(y) => {
                            assert(y@ == x@);
                        },
                        _ => {},
                    }
                }
            },
            _ => {},
        }
    } else {
        if exists|i: int| 0 <= i < old.len() && #[trigger] old[i].0@ == "password"@ {
            let i = choose|i: int| 0 <= i < old.len() && #[trigger] old[i].0@ == "password"@;
            assert(new[i].0 == old[i].0);
        }
    }
}

/// Marks the name of a room with its store unless it is a web room, and lists it as a web room
/// so that it shows up in the lobby.
pub fn force_games_web(room_info: &mut RoomInfo)
    ensures
        final(room_info).fields() == old(room_info).fields(),
        props_mapped(old(room_info).custom(), final(room_info).custom(), web_forced(str_prop(old(room_info).custom(), "storeID"@))),
{
    proof {
        use_type_invariant(&room_info.custom_properties);
        reveal_strlit("roomName");
        reveal_strlit("storeID");
        assert("roomName"@ != "storeID"@) by {
            assert("roomName"@[0] != "storeID"@[0]);
        }
    }
    let ghost c = room_info.custom();
    let store_key = String::from_str("storeID");
    let name_key = String::from_str("roomName");
    let store_id = get_str_prop(room_info, &store_key);
    // adjust name if not web
    let r1 = match &store_id {
        Some(sid) => {
            if *sid == String::from_str("BALYZE_WEB") {
                None
            } else if *sid == String::from_str("BALYZE_MOBILE") {
                replace_str_prop(room_info, &name_key, "[M] ", false)
            } else {
                let prefix = concat(concat("[", sid.as_str()).as_str(), "] ");
                replace_str_prop(room_info, &name_key, prefix.as_str(), false)
            }
        },
        None => None,
    };
    let ghost mid = room_info.custom();
    proof {
        use_type_invariant(&room_info.custom_properties);
    }
    // force game to web so it shows up in the list
    let r2 = replace_str_prop(room_info, &store_key, "BALYZE_WEB", true);
    proof {
        let f = web_forced(str_prop(c, "storeID"@));
        let n = room_info.custom();
        assert forall|j: int| 0 <= j < c.len() implies (#[trigger] n[j]).0 == c[j].0 && n[j].1@ == f(c[j].0@, c[j].1@) by {
            lemma_same_index(c, r1, j);
            lemma_same_index(mid, r2, j);
            if c[j].0@ == "roomName"@ {
                lemma_entry_cases(c, j, "roomName"@);
            } else if c[j].0@ == "storeID"@ {
                lemma_entry_cases(c, j, "storeID"@);
                lemma_entry_cases(mid, j, "storeID"@);
            }
        }
    }
}

/// Forces a game of another version to `target_version`, marking its name with its version,
/// so that it appears in the lobby list.
///
/// Note that this only handles BulletForce games which use `gameVersion` as key; the "newgame"
/// game uses `gameversion` (no uppercase 'v'), which is not matched. This is intended.
pub fn force_games_current_ver(room_info: &mut RoomInfo, target_version: &str)
    ensures
        final(room_info).fields() == old(room_info).fields(),
        props_mapped(old(room_info).custom(), final(room_info).custom(), version_forced(str_prop(old(room_info).custom(), "gameVersion"@), target_version@)),
{
    proof {
        use_type_invariant(&room_info.custom_properties);
        reveal_strlit("roomName");
        reveal_strlit("gameVersion");
        assert("roomName"@ != "gameVersion"@) by {
            assert("roomName"@[0] != "gameVersion"@[0]);
        }
    }
    let ghost c = room_info.custom();
    let version_key = String::from_str("gameVersion");
    let actual_version = match get_str_prop(room_info, &version_key) {
        Some(v) => v,
        None => {
            assert(props_mapped(c, room_info.custom(), version_forced(None, target_version@)));
            return;
        },
    };
    if actual_version != String::from_str(target_version) {
        let name_key = String::from_str("roomName");
        let prefix = concat(concat("[", actual_version.as_str()).as_str(), "] ");
        let r1 = replace_str_prop(room_info, &name_key, prefix.as_str(), false);
        let ghost mid = room_info.custom();
        proof {
            use_type_invariant(&room_info.custom_properties);
        }
        let r2 = replace_str_prop(room_info, &version_key, target_version, true);
        proof {
            let f = version_forced(Some(actual_version@), target_version@);
            let n = room_info.custom();
            assert forall|j: int| 0 <= j < c.len() implies (#[trigger] n[j]).0 == c[j].0 && n[j].1@ == f(c[j].0@, c[j].1@) by {
                lemma_same_index(c, r1, j);
                lemma_same_index(mid, r2, j);
                if c[j].0@ == "roomName"@ {
                    lemma_entry_cases(c, j, "roomName"@);
                } else if c[j].0@ == "gameVersion"@ {
                    lemma_entry_cases(c, j, "gameVersion"@);
                    lemma_entry_cases(mid, j, "gameVersion"@);
                }
            }
        }
    } else {
        assert(props_mapped(c, room_info.custom(), version_forced(Some(actual_version@), target_version@)));
    }
}

} // verus!
