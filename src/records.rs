use vstd::prelude::*;

verus! {

/// A point in world space; each coordinate is the IEEE-754 bit pattern of a
/// single-precision float, so that records compare by exact value.
#[derive(Clone, Copy, Debug, PartialEq, Eq, Structural)]
pub struct Vector {
    pub x: u32,
    pub y: u32,
    pub z: u32,
}

/// The extents of the map being played.
#[derive(Clone, Copy, Debug, PartialEq, Eq, Structural)]
pub struct WorldBounds {
    pub boundary_min: Vector,
    pub boundary_max: Vector,
}

#[derive(Clone, Copy, Debug, PartialEq, Eq, Structural)]
pub enum Class {
    Other,
    Scout,
    Sniper,
    Soldier,
    Demoman,
    Medic,
    Heavy,
    Pyro,
    Spy,
    Engineer,
}

#[derive(Clone, Copy, Debug, PartialEq, Eq, Structural)]
pub enum Team {
    Other,
    Spectator,
    Red,
    Blue,
}

#[derive(Clone, Copy, Debug, PartialEq, Eq, Structural)]
pub enum PlayerState {
    Alive,
    Dying,
    Death,
    Respawnable,
}

pub open spec fn class_name(c: Class) -> Seq<char> {
    match c {
        Class::Scout => "scout"@,
        Class::Soldier => "soldier"@,
        Class::Pyro => "pyro"@,
        Class::Demoman => "demoman"@,
        Class::Heavy => "heavy"@,
        Class::Engineer => "engineer"@,
        Class::Medic => "medic"@,
        Class::Sniper => "sniper"@,
        Class::Spy => "spy"@,
        Class::Other => "other"@,
    }
}

pub open spec fn team_name(t: Team) -> Seq<char> {
    match t {
        Team::Blue => "blu"@,
        Team::Red => "red"@,
        Team::Spectator => "spectator"@,
        Team::Other => "other"@,
    }
}

pub open spec fn state_name(s: PlayerState) -> Seq<char> {
    match s {
        PlayerState::Alive => "alive"@,
        PlayerState::Death => "death"@,
        PlayerState::Dying => "dying"@,
        PlayerState::Respawnable => "queue"@,
    }
}

impl Class {
    /// The lower-case name under which the class is recorded.
    pub fn name(&self) -> (r: String)
        ensures
            r@ == class_name(*self),
    {
        match self {
            Class::Scout => "scout".to_owned(),
            Class::Soldier => "soldier".to_owned(),
            Class::Pyro => "pyro".to_owned(),
            Class::Demoman => "demoman".to_owned(),
            Class::Heavy => "heavy".to_owned(),
            Class::Engineer => "engineer".to_owned(),
            Class::Medic => "medic".to_owned(),
            Class::Sniper => "sniper".to_owned(),
            Class::Spy => "spy".to_owned(),
            Class::Other => "other".to_owned(),
        }
    }
}

impl Team {
    /// The lower-case name under which the team is recorded.
    pub fn name(&self) -> (r: String)
        ensures
            r@ == team_name(*self),
    {
        match self {
            Team::Blue => "blu".to_owned(),
            Team::Red => "red".to_owned(),
            Team::Spectator => "spectator".to_owned(),
            Team::Other => "other".to_owned(),
        }
    }
}

impl PlayerState {
    /// The lower-case name under which the life state is recorded.
    pub fn name(&self) -> (r: String)
        ensures
            r@ == state_name(*self),
    {
        match self {
            PlayerState::Alive => "alive".to_owned(),
            PlayerState::Death => "death".to_owned(),
            PlayerState::Dying => "dying".to_owned(),
            PlayerState::Respawnable => "queue".to_owned(),
        }
    }
}

/// A player as the live game state shows it at one moment.
#[derive(Clone, Copy, Debug, PartialEq, Eq, Structural)]
pub struct Player {
    pub position: Vector,
    pub health: u16,
    pub max_health: u16,
    pub class: Class,
    pub team: Team,
    /// Bit pattern of a single-precision angle.
    pub view_angle: u32,
    /// Bit pattern of a single-precision angle.
    pub pitch_angle: u32,
    pub state: PlayerState,
    /// The identity the player is linked to, once the roster has named it.
    pub user_id: Option<u16>,
    pub charge: u8,
    pub in_pvs: bool,
    pub simtime: u16,
}

/// One recorded observation of a player's state.
#[derive(Clone, Debug)]
pub struct Snapshot {
    pub position: Vector,
    pub health: u16,
    pub max_health: u16,
    pub class: String,
    pub team: String,
    pub view_angle: u32,
    pub pitch_angle: u32,
    pub state: String,
    pub user_id: Option<u16>,
    pub charge: u8,
    pub in_pvs: bool,
    pub simtime: u16,
}

/// The snapshot that records player `p`: the numeric fields are copied and
/// the enumerations are written by name.
pub open spec fn snapshot_of(p: Player, s: Snapshot) -> bool {
    &&& s.position == p.position
    &&& s.health == p.health
    &&& s.max_health == p.max_health
    &&& s.class@ == class_name(p.class)
    &&& s.team@ == team_name(p.team)
    &&& s.view_angle == p.view_angle
    &&& s.pitch_angle == p.pitch_angle
    &&& s.state@ == state_name(p.state)
    &&& s.user_id == p.user_id
    &&& s.charge == p.charge
    &&& s.in_pvs == p.in_pvs
    &&& s.simtime == p.simtime
}

impl Snapshot {
    /// Records the current state of a player.
    pub fn from(value: Player) -> (r: Snapshot)
        ensures
            snapshot_of(value, r),
    {
        Snapshot {
            position: value.position,
            health: value.health,
            max_health: value.max_health,
            class: value.class.name(),
            team: value.team.name(),
            view_angle: value.view_angle,
            pitch_angle: value.pitch_angle,
            state: value.state.name(),
            user_id: value.user_id,
            charge: value.charge,
            simtime: value.simtime,
            in_pvs: value.in_pvs,
        }
    }
}

/// The identity metadata of a player as one entry of the player identity
/// string table holds it.
#[derive(Clone, Debug)]
pub struct PlayerInfo {
    pub name: String,
    pub user_id: u16,
    pub steam_id: String,
    pub friends_id: u32,
    pub is_fake_player: u8,
    pub is_hl_tv: u8,
    pub is_replay: u8,
    pub more_extra: u8,
    pub custom_file: [u32; 4],
    pub files_downloaded: u32,
}

/// The roster's record of one player.
#[derive(Clone, Debug)]
pub struct Profile {
    pub name: String,
    pub user_id: u16,
    pub steam_id: String,
    pub friends_id: u32,
    pub is_fake_player: bool,
    pub is_hl_tv: bool,
    pub is_replay: bool,
    pub custom_file: [u32; 4],
    pub files_downloaded: u32,
    pub more_extra: bool,
}

/// The profile that records `info`: values are copied, and each byte flag
/// becomes `true` exactly when it is not zero.
pub open spec fn profile_of(info: PlayerInfo, p: Profile) -> bool {
    &&& p.name@ == info.name@
    &&& p.user_id == info.user_id
    &&& p.steam_id@ == info.steam_id@
    &&& p.friends_id == info.friends_id
    &&& p.is_fake_player == (info.is_fake_player != 0)
    &&& p.is_hl_tv == (info.is_hl_tv != 0)
    &&& p.is_replay == (info.is_replay != 0)
    &&& p.custom_file@ == info.custom_file@
    &&& p.files_downloaded == info.files_downloaded
    &&& p.more_extra == (info.more_extra != 0)
}

impl Profile {
    /// Records the identity metadata of a player.
    pub fn from(player: PlayerInfo) -> (r: Profile)
        ensures
            profile_of(player, r),
    {
        Profile {
            friends_id: player.friends_id,
            user_id: player.user_id,
            name: player.name,
            steam_id: player.steam_id,
            is_fake_player: player.is_fake_player != 0,
            is_hl_tv: player.is_hl_tv != 0,
            is_replay: player.is_replay != 0,
            custom_file: player.custom_file,
            files_downloaded: player.files_downloaded,
            more_extra: player.more_extra != 0,
        }
    }
}

/// The payload of one damage event, as the game event carries it.
#[derive(Clone, Copy, Debug, PartialEq, Eq, Structural)]
pub struct PlayerHurtEvent {
    pub user_id: u16,
    pub health: u16,
    pub attacker: u16,
    pub damage_amount: u16,
    pub custom: u16,
    pub show_disguised_crit: bool,
    pub crit: bool,
    pub mini_crit: bool,
    pub all_see_crit: bool,
    pub weapon_id: u16,
    pub bonus_effect: u8,
}

/// The payload of a game event message, as far as tracing tells kinds apart.
#[derive(Clone, Copy, Debug, PartialEq, Eq, Structural)]
pub enum GameEvent {
    PlayerHurt(PlayerHurtEvent),
    Other,
}

/// A record paired with the tick at which it was observed.
#[derive(Clone, Debug)]
pub struct WithTick<T> {
    pub inner: T,
    pub tick: u32,
}

} // verus!
