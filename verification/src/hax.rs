//! The logic of BulletForceHax: what it learns from the messages it proxies, and how it rewrites
//! them.
pub mod game;
pub mod lobby;
pub mod players;
pub mod rooms;

use vstd::prelude::*;

use crate::convert::FromMapError;
use crate::error::{ReadError, WriteError};
use crate::hax::game::{game_step, match_packet_game, opt_game};
use crate::hax::lobby::{authenticate, authenticated, game_list_result, handle_game_list, LobbySettings, RoomSettings};
use crate::highlevel::constants::{event_code, operation_code, parameter_code};
use crate::ordered_map::lookup;
use crate::text::first_index_of;
use crate::value::PhotonDataType;
use crate::message::{parse_message, websocket_result, Outcome, PhotonMessage};
use crate::protocol::player_script::UnexpectedItem;
use crate::proxy::{server_of_port, Direction, WebSocketServer};
use crate::state::{C2SMessage, S2CMessage, FeatureModel, FeatureSettings, GameplayModel, GameplayState, GlobalModel, GlobalState, HaxStateUpdate, LobbyState};

verus! {

/// An error that stops the handling of a message.
#[derive(Debug, Clone, Copy, PartialEq, Eq)]
pub enum HaxError {
    /// The message could not be read.
    Read(ReadError),
    /// The rewritten message could not be written.
    Write(WriteError),
    /// A struct could not be read out of a map of the message.
    FromMap(FromMapError),
    /// The message belongs to a game, but no game connection is known.
    NoGameplayState,
    /// An event of the given code was raised without data.
    MissingEventData(u8),
    /// The serialized data of an event could not be read.
    InvalidSerializedData,
    /// The properties of an unknown actor changed.
    ActorNotFound(i32),
    /// The serialized state of a player was malformed.
    PlayerScript(UnexpectedItem),
}

/// The internal state.
#[derive(Debug)]
pub struct HaxState {
    pub global_state: GlobalState,
    pub features: FeatureSettings,
    /// The state of the lobby connection, while there is one.
    pub lobby_state: Option<LobbyState>,
    /// The state of the game connection, while there is one.
    pub gameplay_state: Option<GameplayState>,
}

pub struct HaxModel {
    pub global_state: GlobalModel,
    pub features: FeatureModel,
    pub lobby_state: bool,
    pub gameplay_state: Option<GameplayModel>,
}

impl View for HaxState {
    type V = HaxModel;

    open spec fn view(&self) -> HaxModel {
        HaxModel {
            global_state: self.global_state@,
            features: self.features@,
            lobby_state: self.lobby_state is Some,
            gameplay_state: opt_game(self.gameplay_state),
        }
    }
}

impl Default for HaxState {
    fn default() -> (r: Self)
        ensures
            r@ == (HaxModel {
                global_state: GlobalModel { user_id: None, version: None },
                features: FeatureModel {
                    show_mobile_games: false,
                    show_other_versions: false,
                    strip_passwords: false,
                    spoofed_name: (false, Seq::empty()),
                },
                lobby_state: false,
                gameplay_state: None,
            }),
    {
        HaxState {
            global_state: GlobalState::default(),
            features: FeatureSettings::default(),
            lobby_state: None,
            gameplay_state: None,
        }
    }
}

/// How the rooms of the lobby are rewritten in state `h`.
pub open spec fn lobby_settings(h: HaxModel) -> RoomSettings {
    RoomSettings {
        show_mobile: h.features.show_mobile_games,
        show_versions: h.features.show_other_versions,
        strip: h.features.strip_passwords,
        target_version: match h.global_state.version {
            Some((game, _)) => Some(game),
            None => None,
        },
    }
}

/// The state after a message of the lobby server, and what handling it gives: an
/// authentication request tells the versions and the user id, a game list event is rewritten.
pub open spec fn lobby_step(old: HaxModel, new: HaxModel, msg: PhotonMessage, out: Result<Option<PhotonMessage>, HaxError>) -> bool {
    match msg {
        PhotonMessage::OperationRequest(req) => if req.operation_code == operation_code::AUTHENTICATE {
            new == HaxModel { global_state: authenticated(old.global_state, req.parameters.entries()), ..old } && out == Ok::<Option<PhotonMessage>, HaxError>(None)
        } else {
            new == old && out == Ok::<Option<PhotonMessage>, HaxError>(None)
        },
        PhotonMessage::EventData(ev) => if ev.code == event_code::GAME_LIST || ev.code == event_code::GAME_LIST_UPDATE {
            new == old && game_list_result(ev, lobby_settings(old), out)
        } else {
            new == old && out == Ok::<Option<PhotonMessage>, HaxError>(None)
        },
        _ => new == old && out == Ok::<Option<PhotonMessage>, HaxError>(None),
    }
}

/// What the hook answers and leaves in `data` after handling gave `out`: an error stops it, a
/// rewritten message replaces the data, and otherwise the data is forwarded as it was.
pub open spec fn sent(data0: Seq<u8>, data1: Seq<u8>, out: Result<Option<PhotonMessage>, HaxError>, r: Result<bool, HaxError>) -> bool {
    match out {
        Err(e) => r == Err::<bool, HaxError>(e) && data1 == data0,
        Ok(None) => r == Ok::<bool, HaxError>(true) && data1 == data0,
        Ok(Some(m2)) => match websocket_result(m2@) {
            Ok(b) => r == Ok::<bool, HaxError>(true) && data1 == b,
            Err(e) => r == Err::<bool, HaxError>(HaxError::Write(e)) && data1 == data0,
        },
    }
}

/// Handling the message `msg` from or to a server of kind `server`.
pub open spec fn hook_step(
    old: HaxModel,
    new: HaxModel,
    msg: PhotonMessage,
    server: WebSocketServer,
    data0: Seq<u8>,
    data1: Seq<u8>,
    r: Result<bool, HaxError>,
) -> bool {
    match server {
        WebSocketServer::LobbyServer => exists|out: Result<Option<PhotonMessage>, HaxError>| #[trigger] lobby_step(old, new, msg, out) && sent(data0, data1, out, r),
        WebSocketServer::GameServer => {
            let (g, res) = game_step(old.gameplay_state, msg);
            &&& new == HaxModel { gameplay_state: g, ..old }
            &&& sent(data0, data1, match res {
                Ok(()) => Ok(None),
                Err(e) => Err(e),
            }, r)
        },
    }
}

/// Whether a state is kept for the connection to a server of kind `server`.
pub open spec fn kept(h: HaxModel, server: WebSocketServer) -> bool {
    match server {
        WebSocketServer::LobbyServer => h.lobby_state,
        WebSocketServer::GameServer => h.gameplay_state is Some,
    }
}

/// The state after a connection to a server of kind `server` was opened: a fresh state is kept
/// for it, and nothing else changes.
pub open spec fn opened(h: HaxModel, server: WebSocketServer) -> HaxModel {
    match server {
        WebSocketServer::LobbyServer => HaxModel { lobby_state: true, ..h },
        WebSocketServer::GameServer => HaxModel {
            gameplay_state: Some(GameplayModel { player_id: None, actor_nr: None, match_manager_view_id: None, players: Seq::empty() }),
            ..h
        },
    }
}

/// The state after the connection to a server of kind `server` was closed: its state is dropped,
/// and nothing else changes.
pub open spec fn closed(h: HaxModel, server: WebSocketServer) -> HaxModel {
    match server {
        WebSocketServer::LobbyServer => HaxModel { lobby_state: false, ..h },
        WebSocketServer::GameServer => HaxModel { gameplay_state: None, ..h },
    }
}

/// Opening a connection and closing it again leaves the state as closing it alone would: what
/// was kept for the connection is gone, and what is kept for the other server, the settings and
/// the global state are untouched by both.
pub proof fn lemma_open_then_close(h: HaxModel, server: WebSocketServer)
    ensures
        closed(opened(h, server), server) == closed(h, server),
        !kept(closed(h, server), server),
        kept(opened(h, server), server),
        opened(h, server).global_state == h.global_state && opened(h, server).features == h.features,
        closed(h, server).global_state == h.global_state && closed(h, server).features == h.features,
{
}

/// Whether the update `u` holds the state of `h`.
pub open spec fn update_matches(u: HaxStateUpdate, h: &HaxState) -> bool {
    &&& u.global_state@ == h.global_state@
    &&& u.lobby_state is Some == h.lobby_state is Some
    &&& opt_game(u.gameplay_state) == opt_game(h.gameplay_state)
}

/// Rooms of other versions are shown as rooms of the game version learned at authentication: an
/// app version `game_photon`, where the game version `game` holds no underscore, makes `game`
/// (not the Photon version) the version the rooms of the lobby are rewritten to.
pub proof fn lemma_lobby_targets_game_version(h: HaxModel, params: Seq<(u8, PhotonDataType)>, game: Seq<char>, photon: Seq<char>)
    requires
        lookup(params, parameter_code::APP_VERSION) matches Some(PhotonDataType::String(v)) && v@ == game + seq!['_'] + photon,
        !game.contains('_'),
    ensures
        authenticated(h.global_state, params).version == Some((game, photon)),
        lobby_settings(HaxModel { global_state: authenticated(h.global_state, params), ..h }).target_version == Some(game),
{
    let v = lookup(params, parameter_code::APP_VERSION)->Some_0->String_0@;
    let n = game.len() as int;
    assert(v[n] == '_');
    assert(exists|i: int| 0 <= i < v.len() && v[i] == '_');
    let i = choose|i: int| 0 <= i < v.len() && v[i] == '_' && forall|j: int| 0 <= j < i ==> v[j] != '_';
    assert(exists|i: int| 0 <= i < v.len() && v[i] == '_' && forall|j: int| 0 <= j < i ==> v[j] != '_') by {
        assert forall|j: int| 0 <= j < n implies v[j] != '_' by {
            assert(v[j] == game[j]);
        }
    }
    if i < n {
        assert(v[i] == game[i]);
        assert(game.contains('_'));
    } else if i > n {
        assert(v[n] != '_');
    }
    assert(first_index_of(v, '_') == Some(n));
    assert(v.subrange(0, n) =~= game);
    assert(v.subrange(n + 1, v.len() as int) =~= photon);
}

/// What the hook does with the message in `data0` of a connection to a server of kind `server`:
/// data that is no message is an error that changes nothing, and a message is handled.
pub open spec fn hooked(
    old: HaxModel,
    new: HaxModel,
    server: WebSocketServer,
    data0: Seq<u8>,
    data1: Seq<u8>,
    r: Result<bool, HaxError>,
) -> bool {
    match parse_message(data0) {
        Outcome::Failed(e) => r == Err::<bool, HaxError>(HaxError::Read(e)) && new == old && data1 == data0,
        Outcome::Parsed(m) => exists|msg: PhotonMessage| msg@ == m && #[trigger] hook_step(old, new, msg, server, data0, data1, r),
        Outcome::Panics => false,
    }
}

impl HaxState {
    /// Handles a message of the lobby server; gives the rewritten message, if any.
    pub fn match_packet_lobby(&mut self, photon_message: PhotonMessage) -> (r: Result<Option<PhotonMessage>, HaxError>)
        ensures
            lobby_step(old(self)@, final(self)@, photon_message, r),
    {
        match photon_message {
            PhotonMessage::OperationRequest(operation_request) => {
                if operation_request.operation_code == operation_code::AUTHENTICATE {
                    authenticate(&mut self.global_state, &operation_request.parameters);
                }
                Ok(None)
            },
            PhotonMessage::EventData(event) => {
                if event.code == event_code::GAME_LIST || event.code == event_code::GAME_LIST_UPDATE {
                    let settings = LobbySettings {
                        show_mobile: self.features.show_mobile_games,
                        show_versions: self.features.show_other_versions,
                        strip: self.features.strip_passwords,
                        target_version: match &self.global_state.version {
                            Some(v) => Some(v.game_version.clone()),
                            None => None,
                        },
                    };
                    handle_game_list(event, &settings)
                } else {
                    Ok(None)
                }
            },
            _ => Ok(None),
        }
    }

    /// Runs logic on this websocket message and returns whether the given data should be
    /// forwarded on; a rewritten message replaces the data.
    pub fn websocket_hook(&mut self, data: &mut Vec<u8>, server: WebSocketServer, direction: Direction) -> (r: Result<bool, HaxError>)
        requires
            !(parse_message(old(data)@) is Panics),
        ensures
            hooked(old(self)@, final(self)@, server, old(data)@, final(data)@, r),
    {
        let mut cursor: &[u8] = data.as_slice();
        let photon_message = match PhotonMessage::from_websocket_bytes(&mut cursor) {
            Ok(m) => m,
            Err(e) => return Err(HaxError::Read(e)),
        };
        let ghost msg = photon_message;
        let ghost old_state = self@;
        let out = match server {
            WebSocketServer::LobbyServer => self.match_packet_lobby(photon_message),
            WebSocketServer::GameServer => match match_packet_game(&mut self.gameplay_state, photon_message) {
                Ok(()) => Ok(None),
                Err(e) => Err(e),
            },
        };
        let ghost data0 = data@;
        let r = match out {
            Err(e) => Err(e),
            Ok(None) => Ok(true),
            Ok(Some(new_message)) => {
                let mut buf: Vec<u8> = Vec::new();
                match new_message.to_websocket_bytes(&mut buf) {
                    Ok(()) => {
                        *data = buf;
                        Ok(true)
                    },
                    Err(e) => Err(HaxError::Write(e)),
                }
            },
        };
        proof {
            assert(hook_step(old_state, self@, msg, server, data0, data@, r));
        }
        r
    }

    /// Runs the hook on a binary message `data` of a proxied connection to port `server_port`,
    /// where that port is one of a known kind of server; gives the hook's result there, and
    /// `None`, with nothing changed, for other ports.
    pub fn proxy_hook(&mut self, server_port: u16, direction: Direction, data: &mut Vec<u8>) -> (r: Option<Result<bool, HaxError>>)
        requires
            server_of_port(server_port) is Some ==> !(parse_message(old(data)@) is Panics),
        ensures
            match server_of_port(server_port) {
                None => r is None && final(self)@ == old(self)@ && final(data)@ == old(data)@,
                Some(server) => r matches Some(res) && hooked(old(self)@, final(self)@, server, old(data)@, final(data)@, res),
            },
    {
        match WebSocketServer::from_port(server_port) {
            None => None,
            Some(server) => Some(self.websocket_hook(data, server, direction)),
        }
    }

    /// Takes in a message of the front-end: new settings replace the current ones.
    pub fn apply_client_message(&mut self, msg: C2SMessage)
        requires
            !(msg is Command),
        ensures
            match msg {
                C2SMessage::UpdateSettings(settings) => final(self)@ == HaxModel { features: settings@, ..old(self)@ },
                C2SMessage::Command => false,
            },
    {
        match msg {
            C2SMessage::UpdateSettings(settings) => self.features = settings,
            C2SMessage::Command => {},
        }
    }

    /// The first message to the front-end: the state and the settings.
    pub fn initial_message(&self) -> (r: S2CMessage)
        ensures
            r matches S2CMessage::InitialState(u, f) && update_matches(u, self) && f@ == self.features@,
    {
        S2CMessage::InitialState(self.copy_to_network_state(), self.features.deep_clone())
    }

    /// A later message to the front-end: the state.
    pub fn state_message(&self) -> (r: S2CMessage)
        ensures
            r matches S2CMessage::NewGameState(u) && update_matches(u, self),
    {
        S2CMessage::NewGameState(self.copy_to_network_state())
    }

    /// A connection to a server of kind `server` was opened: a fresh state is kept for it.
    /// Returns whether one was already kept, which means it was not cleared correctly.
    pub fn connection_opened(&mut self, server: WebSocketServer) -> (r: bool)
        ensures
            r == kept(old(self)@, server),
            final(self)@ == opened(old(self)@, server),
    {
        match server {
            WebSocketServer::LobbyServer => {
                let existed = self.lobby_state.is_some();
                self.lobby_state = Some(LobbyState::default());
                existed
            },
            WebSocketServer::GameServer => {
                let existed = self.gameplay_state.is_some();
                self.gameplay_state = Some(GameplayState::default());
                existed
            },
        }
    }

    /// The connection to a server of kind `server` was closed: its state is dropped. Returns
    /// whether one was kept.
    pub fn connection_closed(&mut self, server: WebSocketServer) -> (r: bool)
        ensures
            r == kept(old(self)@, server),
            final(self)@ == closed(old(self)@, server),
    {
        match server {
            WebSocketServer::LobbyServer => {
                let existed = self.lobby_state.is_some();
                self.lobby_state = None;
                existed
            },
            WebSocketServer::GameServer => {
                let existed = self.gameplay_state.is_some();
                self.gameplay_state = None;
                existed
            },
        }
    }

    /// A copy of the state as it is sent to the front-end.
    pub fn copy_to_network_state(&self) -> (r: HaxStateUpdate)
        ensures
            update_matches(r, self),
    {
        HaxStateUpdate {
            global_state: self.global_state.deep_clone(),
            lobby_state: match &self.lobby_state {
                Some(_) => Some(LobbyState::default()),
                None => None,
            },
            gameplay_state: match &self.gameplay_state {
                Some(g) => Some(g.deep_clone()),
                None => None,
            },
        }
    }
}

/// Whether a message is forwarded after the hook gave `hook`: it is dropped only where the hook
/// ran and said so; an error of the hook is reported and the message forwarded as it is.
pub fn forwards(hook: &Option<Result<bool, HaxError>>) -> (r: bool)
    ensures
        r == !(hook matches Some(Ok(false))),
{
    match hook {
        Some(Ok(false)) => false,
        _ => true,
    }
}

} // verus!
