//! The state kept while proxying the game, and the messages exchanged with the front-end.
use vstd::prelude::*;

use crate::highlevel::structs_impl::ViewId;
use crate::ordered_map::{keys_unique, OrderedMap};

verus! {

/// The version of the game and of Photon Unity Networking.
#[derive(Debug)]
pub struct VersionInfo {
    /// The version of the game.
    pub game_version: String,
    /// The version of Photon Unity Networking. This is not the version of the Photon .Net Client Library.
    pub photon_version: String,
}

/// Game-related state that is kept over the lifetime of the program.
#[derive(Debug)]
pub struct GlobalState {
    pub user_id: Option<String>,
    pub version: Option<VersionInfo>,
}

/// State for a given lobby connection
#[derive(Debug)]
pub struct LobbyState {}

/// What is known of a player in a game.
#[derive(Debug)]
pub struct PlayerActor {
    pub view_id: Option<ViewId>,
    pub user_id: Option<String>,
    pub nickname: Option<String>,
    pub team_number: Option<u8>,
    /// The health, where 10000 is 100%.
    pub health: Option<i16>,
    /// The direction the player faces, in tenths of a degree.
    pub facing_direction: Option<i16>,
}

/// State for a given game connection
#[derive(Debug)]
pub struct GameplayState {
    /// the player id
    pub player_id: Option<i32>,
    /// our player's actor id
    pub actor_nr: Option<i32>,
    pub match_manager_view_id: Option<i32>,
    /// The player actors currently in the game.
    ///
    /// Keyed by actor id.
    pub players: OrderedMap<i32, PlayerActor>,
}

/// The current user-defined settings.
#[derive(Debug)]
pub struct FeatureSettings {
    pub show_mobile_games: bool,
    pub show_other_versions: bool,
    pub strip_passwords: bool,
    pub spoofed_name: (bool, String),
}

/// Game state as it is sent over the network.
#[derive(Debug)]
pub struct HaxStateUpdate {
    pub global_state: GlobalState,
    pub lobby_state: Option<LobbyState>,
    pub gameplay_state: Option<GameplayState>,
}

/// A message sent from the front-end to the proxy.
#[derive(Debug)]
pub enum C2SMessage {
    UpdateSettings(FeatureSettings),
    Command,
}

/// A message sent from the proxy to the front-end.
#[derive(Debug)]
pub enum S2CMessage {
    InitialState(HaxStateUpdate, FeatureSettings),
    NewGameState(HaxStateUpdate),
}

/* Models */

pub struct GlobalModel {
    pub user_id: Option<Seq<char>>,
    pub version: Option<(Seq<char>, Seq<char>)>,
}

pub struct ActorModel {
    pub view_id: Option<i32>,
    pub user_id: Option<Seq<char>>,
    pub nickname: Option<Seq<char>>,
    pub team_number: Option<u8>,
    pub health: Option<i16>,
    pub facing_direction: Option<i16>,
}

pub struct GameplayModel {
    pub player_id: Option<i32>,
    pub actor_nr: Option<i32>,
    pub match_manager_view_id: Option<i32>,
    pub players: Seq<(i32, ActorModel)>,
}

pub struct FeatureModel {
    pub show_mobile_games: bool,
    pub show_other_versions: bool,
    pub strip_passwords: bool,
    pub spoofed_name: (bool, Seq<char>),
}

pub open spec fn opt_str(s: Option<String>) -> Option<Seq<char>> {
    match s {
        Some(x) => Some(x@),
        None => None,
    }
}

impl View for GlobalState {
    type V = GlobalModel;

    open spec fn view(&self) -> GlobalModel {
        GlobalModel {
            user_id: opt_str(self.user_id),
            version: match self.version {
                Some(v) => Some((v.game_version@, v.photon_version@)),
                None => None,
            },
        }
    }
}

impl View for PlayerActor {
    type V = ActorModel;

    open spec fn view(&self) -> ActorModel {
        ActorModel {
            view_id: match self.view_id {
                Some(v) => Some(v.0),
                None => None,
            },
            user_id: opt_str(self.user_id),
            nickname: opt_str(self.nickname),
            team_number: self.team_number,
            health: self.health,
            facing_direction: self.facing_direction,
        }
    }
}

/// The players, with each actor taken by its model.
pub open spec fn players_view(s: Seq<(i32, PlayerActor)>) -> Seq<(i32, ActorModel)> {
    s.map_values(|e: (i32, PlayerActor)| (e.0, e.1@))
}

impl View for GameplayState {
    type V = GameplayModel;

    open spec fn view(&self) -> GameplayModel {
        GameplayModel {
            player_id: self.player_id,
            actor_nr: self.actor_nr,
            match_manager_view_id: self.match_manager_view_id,
            players: players_view(self.players.entries()),
        }
    }
}

impl View for FeatureSettings {
    type V = FeatureModel;

    open spec fn view(&self) -> FeatureModel {
        FeatureModel {
            show_mobile_games: self.show_mobile_games,
            show_other_versions: self.show_other_versions,
            strip_passwords: self.strip_passwords,
            spoofed_name: (self.spoofed_name.0, self.spoofed_name.1@),
        }
    }
}

/* Defaults */

impl Default for GlobalState {
    fn default() -> (r: Self)
        ensures
            r.user_id is None,
            r.version is None,
    {
        GlobalState { user_id: None, version: None }
    }
}

impl Default for LobbyState {
    fn default() -> (r: Self)
        ensures
            r == (LobbyState {}),
    {
        LobbyState {}
    }
}

impl Default for PlayerActor {
    fn default() -> (r: Self)
        ensures
            r@ == (ActorModel {
                view_id: None,
                user_id: None,
                nickname: None,
                team_number: None,
                health: None,
                facing_direction: None,
            }),
    {
        PlayerActor {
            view_id: None,
            user_id: None,
            nickname: None,
            team_number: None,
            health: None,
            facing_direction: None,
        }
    }
}

impl Default for GameplayState {
    fn default() -> (r: Self)
        ensures
            r@ == (GameplayModel {
                player_id: None,
                actor_nr: None,
                match_manager_view_id: None,
                players: Seq::empty(),
            }),
    {
        let r = GameplayState {
            player_id: None,
            actor_nr: None,
            match_manager_view_id: None,
            players: OrderedMap::new(),
        };
        assert(players_view(r.players.entries()) =~= Seq::<(i32, ActorModel)>::empty());
        r
    }
}

impl Default for FeatureSettings {
    fn default() -> (r: Self)
        ensures
            r@ == (FeatureModel {
                show_mobile_games: false,
                show_other_versions: false,
                strip_passwords: false,
                spoofed_name: (false, Seq::empty()),
            }),
    {
        FeatureSettings {
            show_mobile_games: false,
            show_other_versions: false,
            strip_passwords: false,
            spoofed_name: (false, String::new()),
        }
    }
}

/* Copies */

impl VersionInfo {
    pub fn deep_clone(&self) -> (r: Self)
        ensures
            r.game_version@ == self.game_version@,
            r.photon_version@ == self.photon_version@,
    {
        VersionInfo { game_version: self.game_version.clone(), photon_version: self.photon_version.clone() }
    }
}

impl GlobalState {
    pub fn deep_clone(&self) -> (r: Self)
        ensures
            r@ == self@,
    {
        GlobalState {
            user_id: match &self.user_id {
                Some(s) => Some(s.clone()),
                None => None,
            },
            version: match &self.version {
                Some(v) => Some(v.deep_clone()),
                None => None,
            },
        }
    }
}

impl PlayerActor {
    pub fn deep_clone(&self) -> (r: Self)
        ensures
            r@ == self@,
    {
        PlayerActor {
            view_id: self.view_id,
            user_id: match &self.user_id {
                Some(s) => Some(s.clone()),
                None => None,
            },
            nickname: match &self.nickname {
                Some(s) => Some(s.clone()),
                None => None,
            },
            team_number: self.team_number,
            health: self.health,
            facing_direction: self.facing_direction,
        }
    }
}

impl GameplayState {
    pub fn deep_clone(&self) -> (r: Self)
        ensures
            r@ == self@,
    {
        proof {
            use_type_invariant(&self.players);
        }
        let src = self.players.as_vec();
        let mut players: OrderedMap<i32, PlayerActor> = OrderedMap::new();
        let mut i: usize = 0;
        while i < src.len()
            invariant
                i <= src@.len(),
                src@ == self.players.entries(),
                keys_unique(src@),
                players.entries().len() == i,
                forall|j: int| 0 <= j < i ==> (#[trigger] players.entries()[j]).0 == src@[j].0 && players.entries()[j].1@ == src@[j].1@,
            decreases src@.len() - i,
        {
            let (k, v) = (&src[i].0, &src[i].1);
            proof {
                let es = players.entries();
                if exists|j: int| 0 <= j < es.len() && #[trigger] es[j].0@ == k@ {
                    let j = choose|j: int| 0 <= j < es.len() && #[trigger] es[j].0@ == k@;
                    crate::ordered_map::lemma_keys_differ(src@, j, i as int);
                }
            }
            players.insert(*k, v.deep_clone());
            i = i + 1;
        }
        let r = GameplayState {
            player_id: self.player_id,
            actor_nr: self.actor_nr,
            match_manager_view_id: self.match_manager_view_id,
            players,
        };
        assert(players_view(r.players.entries()) =~= players_view(self.players.entries()));
        r
    }
}

impl FeatureSettings {
    pub fn deep_clone(&self) -> (r: Self)
        ensures
            r@ == self@,
    {
        FeatureSettings {
            show_mobile_games: self.show_mobile_games,
            show_other_versions: self.show_other_versions,
            strip_passwords: self.strip_passwords,
            spoofed_name: (self.spoofed_name.0, self.spoofed_name.1.clone()),
        }
    }
}

} // verus!
