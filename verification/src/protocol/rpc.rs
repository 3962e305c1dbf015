//! Defines information for Bullet Force's RPC calls.
use vstd::prelude::*;

use crate::highlevel::structs::RpcCall;

verus! {

/// The method names of the RPC calls, by index.
pub const METHOD_NAMES: [&'static str; 80] = [
    "AcknowledgeDamageDoneRPC",
    "AnotherRPCMethod",
    "BecomeNewMasterClient",
    "ChangeCrouchState",
    "Chat",
    "CmdGetTeamNumber",
    "ColorRpc",
    "DestroyRpc",
    "DisplayVoteData",
    "DoJump",
    "FetchCheaters",
    "FetchVoteData",
    "FlagOwnerTeamUpdated",
    "FlagTakenValueUpdated",
    "Flash",
    "GetBestSpawnPointForPlayer",
    "GotKillAssist",
    "HealthUpdated",
    "InstantiateRpc",
    "JSNow",
    "KickPlayer",
    "LatencyReceive",
    "LatencySend",
    "localCreateGrenade",
    "localHurt",
    "localReload",
    "localSpawnThrowingWeapon",
    "MapVotedFor",
    "Marco",
    "MatchOverChanged",
    "mpMeleeAnimation",
    "mpThrowGrenadeAnimation",
    "MyRPCMethod",
    "NukeKill",
    "PickupItemInit",
    "PlayerHitPlayer",
    "PlayerKickedForPing",
    "Polo",
    "PunPickup",
    "PunPickupSimple",
    "PunRespawn",
    "ReliabilityMessageReceived",
    "ReliabilityMessageSent",
    "RequestForPickupItems",
    "RequestForPickupTimes",
    "RequestVipsOnMasterFromSubordinate",
    "RestartHardcoreModeRound",
    "RestartMatch",
    "RpcDie",
    "RPCElevatorButtonPressed",
    "RpcSendChatMessage",
    "RpcShoot",
    "RpcShowHitmarker",
    "RpcShowPerkMessage",
    "SetElevatorsClosed",
    "SetMaps",
    "SetNextMap",
    "SetPing",
    "SetRank",
    "SetSpawnPoint",
    "SetTimeScale",
    "ShowAnnouncement",
    "ShowDebugCapsule",
    "SpawnFailed",
    "TaggedPlayer",
    "TeleportToPosition",
    "UpdateAlivePlayers",
    "UpdateHMFFARounds",
    "UpdateMPDeaths",
    "UpdateMPKills",
    "UpdateMPRounds",
    "UpdateTeamNumber",
    "UpdateTeamPoints",
    "UpdateTimeInMatch",
    "UpdateVIPsOnSubordinates",
    "UsernameChanged",
    "WeaponCamoChanged",
    "WeaponTypeChanged",
    "RpcACKill",
    "RpcForceKillstreak",
];

/// An RPC call that has neither a method name nor a method index.
#[derive(Debug, Clone, Copy, PartialEq, Eq)]
pub struct MalformedRpcCall;

/// Get the method name of an RPC call.
///
/// This function gets the string method name if it is present, or otherwise resolves the method
/// index using the hardcoded [METHOD_NAMES] list.
pub fn get_rpc_method_name(data: &RpcCall) -> (r: Result<String, MalformedRpcCall>)
    requires
        data.method_name is None ==> (data.rpc_index matches Some(idx) ==> idx < 80),
    ensures
        match &data.method_name {
            Some(name) => r matches Ok(s) && s@ == name@,
            None => match data.rpc_index {
                Some(idx) => r matches Ok(s) && s@ == METHOD_NAMES@[idx as int]@,
                None => r == Err::<String, MalformedRpcCall>(MalformedRpcCall),
            },
        },
{
    if let Some(method_name) = &data.method_name {
        Ok(method_name.clone())
    } else if let Some(idx) = data.rpc_index {
        Ok(String::from_str(METHOD_NAMES[idx as usize]))
    } else {
        Err(MalformedRpcCall)
    }
}

} // verus!
