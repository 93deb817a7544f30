//! The web map's settings and its list of online players.
use vstd::prelude::*;

verus! {

/// Map settings.
#[derive(Debug)]
pub struct MapSetting {
    pub player_tracker: PlayerTracker,
    pub spawn: Spawn,
    pub marker_update_interval: u32,
    pub zoom: Zoom,
    pub tiles_update_interval: u32,
}

/// How players are shown on the map.
#[derive(Debug)]
pub struct PlayerTracker {
    pub default_hidden: bool,
    pub z_index: u32,
    pub update_interval: u32,
    pub show_controls: bool,
    pub nameplates: Nameplates,
    pub label: String,
    pub priority: u32,
    pub enabled: bool,
}

/// What a player's nameplate shows.
#[derive(Debug)]
pub struct Nameplates {
    pub show_health: bool,
    pub heads_url: String,
    pub show_armor: bool,
    pub show_heads: bool,
    pub enabled: bool,
}

/// The world spawn, in blocks.
#[derive(Clone, Copy, Debug, PartialEq, Eq, Structural)]
pub struct Spawn {
    pub x: i64,
    pub z: i64,
}

/// Zoom levels: the default, the maximum and the extra levels.
#[derive(Clone, Copy, Debug, PartialEq, Eq, Structural)]
pub struct Zoom {
    pub default: u32,
    pub max: u32,
    pub extra: u32,
}

/// Players online and the server's limit.
#[derive(Debug)]
pub struct OnlinePlayers {
    pub max: u32,
    pub players: Vec<Player>,
}

/// One online player.
#[derive(Debug)]
pub struct Player {
    pub name: String,
    pub uuid: String,
    pub world: String,
    pub x: i64,
    pub y: i64,
    pub z: i64,
    pub yaw: i32,
    pub armor: u8,
    pub health: u8,
}

} // verus!
