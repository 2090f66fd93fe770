use vstd::prelude::*;

verus! {

/// The kinds of message a demo stream carries.
#[derive(Clone, Copy, Debug, PartialEq, Eq, Structural)]
pub enum MessageKind {
    Empty,
    File,
    NetTick,
    StringCmd,
    SetConVar,
    SignOnState,
    Print,
    ServerInfo,
    ClassInfo,
    SetPause,
    CreateStringTable,
    UpdateStringTable,
    VoiceInit,
    VoiceData,
    ParseSounds,
    SetView,
    FixAngle,
    BspDecal,
    UserMessage,
    EntityMessage,
    GameEvent,
    PacketEntities,
    TempEntities,
    PreFetch,
    Menu,
    GameEventList,
    GetCvarValue,
    CmdKeyValues,
}

} // verus!
