//! The registry of packet opcodes.
//!
//! Each opcode's wire value is stable. An opcode outside the registry
//! decodes to the sentinel `Unknown`, so that peers may extend the
//! opcode space without breaking framing.

use vstd::prelude::*;

verus! {

/// A packet's kind, as carried in the header's opcode field.
#[derive(Clone, Copy, Debug, PartialEq, Eq, Structural)]
pub enum PacketType {
    PublicKeyResponse,
    StreamKeyResponse,
    Address,
    Attributes,
    AttributeChange,
    AttributesReset,
    AvatarAdd,
    AvatarChange,
    AvatarClick,
    AvatarDelete,
    Invite,
    BotgramResponse,
    Capabilities,
    CellBegin,
    CellEnd,
    CellNext,
    CellUpdate,
    CitizenAdd,
    CitizenInfo,
    CitizenLookupByName,
    CitizenLookupByNumber,
    CitizenChange,
    CitizenDelete,
    CitizenNext,
    CitizenPrev,
    CitizenChangeResult,
    ConsoleMessage,
    ContactAdd,
    ContactChange,
    ContactDelete,
    ContactList,
    Enter,
    PublicKeyRequest,
    Heartbeat,
    Identify,
    LicenseAdd,
    LicenseResult,
    LicenseByName,
    LicenseChange,
    LicenseDelete,
    LicenseNext,
    LicensePrev,
    LicenseChangeResult,
    Login,
    Message,
    ObjectAdd,
    ObjectClick,
    ObjectDelete,
    ObjectDeleteAll,
    ObjectResult,
    ObjectSelect,
    QueryNeedMore,
    QueryUpToDate,
    RegistryReload,
    ServerLogin,
    WorldServerStart,
    ServerWorldDelete,
    ServerWorldList,
    ServerWorldListResult,
    ServerWorldResult,
    TelegramDeliver,
    TelegramGet,
    TelegramNotify,
    TelegramSend,
    Teleport,
    TerrainBegin,
    TerrainChanged,
    TerrainData,
    TerrainDelete,
    TerrainEnd,
    TerrainLoad,
    TerrainNext,
    TerrainSet,
    ToolbarClick,
    URL,
    URLClick,
    UserList,
    UserListResult,
    LoginApplication,
    WorldList,
    WorldListResult,
    WorldLookup,
    WorldStart,
    WorldStop,
    Tunnel,
    WorldStatsUpdate,
    Join,
    JoinReply,
    Xfer,
    XferReply,
    Noise,
    Camera,
    Botmenu,
    BotmenuResult,
    WorldEject,
    EjectAdd,
    EjectDelete,
    EjectLookup,
    EjectNext,
    EjectPrev,
    WorldEjectResult,
    WorldConnectionResult,
    ObjectBump,
    PasswordSend,
    CavTemplateByNumber,
    CavTemplateNext,
    CavTemplateChange,
    CavTemplateDelete,
    WorldCAVDefinitionChange,
    WorldCAV,
    CavDelete,
    WorldCAVResult,
    MoverAdd,
    MoverDelete,
    MoverChange,
    MoverRiderAdd,
    MoverRiderDelete,
    MoverRiderChange,
    MoverLinks,
    SetAFK,
    Immigrate,
    Register,
    AvatarReload,
    WorldInstanceSet,
    WorldInstanceGet,
    ContactConfirm,
    HudCreate,
    HudClick,
    HudDestroy,
    HudClear,
    HudResult,
    AvatarLocation,
    ObjectQuery,
    LaserBeam,
    Unknown,
}

/// The wire value of an opcode.
pub open spec fn packet_type_code(t: PacketType) -> i16 {
    match t {
        PacketType::PublicKeyResponse => 1,
        PacketType::StreamKeyResponse => 2,
        PacketType::Address => 5,
        PacketType::Attributes => 6,
        PacketType::AttributeChange => 7,
        PacketType::AttributesReset => 8,
        PacketType::AvatarAdd => 9,
        PacketType::AvatarChange => 10,
        PacketType::AvatarClick => 11,
        PacketType::AvatarDelete => 12,
        PacketType::Invite => 14,
        PacketType::BotgramResponse => 15,
        PacketType::Capabilities => 16,
        PacketType::CellBegin => 17,
        PacketType::CellEnd => 18,
        PacketType::CellNext => 19,
        PacketType::CellUpdate => 20,
        PacketType::CitizenAdd => 21,
        PacketType::CitizenInfo => 22,
        PacketType::CitizenLookupByName => 23,
        PacketType::CitizenLookupByNumber => 24,
        PacketType::CitizenChange => 25,
        PacketType::CitizenDelete => 26,
        PacketType::CitizenNext => 27,
        PacketType::CitizenPrev => 28,
        PacketType::CitizenChangeResult => 29,
        PacketType::ConsoleMessage => 30,
        PacketType::ContactAdd => 31,
        PacketType::ContactChange => 32,
        PacketType::ContactDelete => 33,
        PacketType::ContactList => 34,
        PacketType::Enter => 35,
        PacketType::PublicKeyRequest => 36,
        PacketType::Heartbeat => 37,
        PacketType::Identify => 38,
        PacketType::LicenseAdd => 39,
        PacketType::LicenseResult => 40,
        PacketType::LicenseByName => 41,
        PacketType::LicenseChange => 42,
        PacketType::LicenseDelete => 43,
        PacketType::LicenseNext => 44,
        PacketType::LicensePrev => 45,
        PacketType::LicenseChangeResult => 46,
        PacketType::Login => 47,
        PacketType::Message => 48,
        PacketType::ObjectAdd => 49,
        PacketType::ObjectClick => 51,
        PacketType::ObjectDelete => 52,
        PacketType::ObjectDeleteAll => 53,
        PacketType::ObjectResult => 55,
        PacketType::ObjectSelect => 56,
        PacketType::QueryNeedMore => 59,
        PacketType::QueryUpToDate => 60,
        PacketType::RegistryReload => 61,
        PacketType::ServerLogin => 62,
        PacketType::WorldServerStart => 63,
        PacketType::ServerWorldDelete => 67,
        PacketType::ServerWorldList => 68,
        PacketType::ServerWorldListResult => 69,
        PacketType::ServerWorldResult => 70,
        PacketType::TelegramDeliver => 75,
        PacketType::TelegramGet => 76,
        PacketType::TelegramNotify => 77,
        PacketType::TelegramSend => 78,
        PacketType::Teleport => 79,
        PacketType::TerrainBegin => 80,
        PacketType::TerrainChanged => 81,
        PacketType::TerrainData => 82,
        PacketType::TerrainDelete => 83,
        PacketType::TerrainEnd => 84,
        PacketType::TerrainLoad => 85,
        PacketType::TerrainNext => 86,
        PacketType::TerrainSet => 88,
        PacketType::ToolbarClick => 89,
        PacketType::URL => 90,
        PacketType::URLClick => 91,
        PacketType::UserList => 92,
        PacketType::UserListResult => 93,
        PacketType::LoginApplication => 94,
        PacketType::WorldList => 96,
        PacketType::WorldListResult => 97,
        PacketType::WorldLookup => 98,
        PacketType::WorldStart => 99,
        PacketType::WorldStop => 100,
        PacketType::Tunnel => 101,
        PacketType::WorldStatsUpdate => 102,
        PacketType::Join => 103,
        PacketType::JoinReply => 104,
        PacketType::Xfer => 105,
        PacketType::XferReply => 106,
        PacketType::Noise => 107,
        PacketType::Camera => 109,
        PacketType::Botmenu => 110,
        PacketType::BotmenuResult => 111,
        PacketType::WorldEject => 112,
        PacketType::EjectAdd => 113,
        PacketType::EjectDelete => 114,
        PacketType::EjectLookup => 115,
        PacketType::EjectNext => 116,
        PacketType::EjectPrev => 117,
        PacketType::WorldEjectResult => 118,
        PacketType::WorldConnectionResult => 119,
        PacketType::ObjectBump => 120,
        PacketType::PasswordSend => 121,
        PacketType::CavTemplateByNumber => 123,
        PacketType::CavTemplateNext => 124,
        PacketType::CavTemplateChange => 125,
        PacketType::CavTemplateDelete => 126,
        PacketType::WorldCAVDefinitionChange => 127,
        PacketType::WorldCAV => 128,
        PacketType::CavDelete => 130,
        PacketType::WorldCAVResult => 131,
        PacketType::MoverAdd => 144,
        PacketType::MoverDelete => 145,
        PacketType::MoverChange => 146,
        PacketType::MoverRiderAdd => 148,
        PacketType::MoverRiderDelete => 149,
        PacketType::MoverRiderChange => 150,
        PacketType::MoverLinks => 151,
        PacketType::SetAFK => 152,
        PacketType::Immigrate => 155,
        PacketType::Register => 157,
        PacketType::AvatarReload => 159,
        PacketType::WorldInstanceSet => 160,
        PacketType::WorldInstanceGet => 161,
        PacketType::ContactConfirm => 163,
        PacketType::HudCreate => 164,
        PacketType::HudClick => 165,
        PacketType::HudDestroy => 166,
        PacketType::HudClear => 167,
        PacketType::HudResult => 168,
        PacketType::AvatarLocation => 169,
        PacketType::ObjectQuery => 170,
        PacketType::LaserBeam => 183,
        PacketType::Unknown => 32767,
    }
}

/// The opcode a wire value names; `Unknown` for one outside the registry.
pub open spec fn spec_packet_type_of(op: i16) -> PacketType {
    if op == 1 {
        PacketType::PublicKeyResponse
    } else if op == 2 {
        PacketType::StreamKeyResponse
    } else if op == 5 {
        PacketType::Address
    } else if op == 6 {
        PacketType::Attributes
    } else if op == 7 {
        PacketType::AttributeChange
    } else if op == 8 {
        PacketType::AttributesReset
    } else if op == 9 {
        PacketType::AvatarAdd
    } else if op == 10 {
        PacketType::AvatarChange
    } else if op == 11 {
        PacketType::AvatarClick
    } else if op == 12 {
        PacketType::AvatarDelete
    } else if op == 14 {
        PacketType::Invite
    } else if op == 15 {
        PacketType::BotgramResponse
    } else if op == 16 {
        PacketType::Capabilities
    } else if op == 17 {
        PacketType::CellBegin
    } else if op == 18 {
        PacketType::CellEnd
    } else if op == 19 {
        PacketType::CellNext
    } else if op == 20 {
        PacketType::CellUpdate
    } else if op == 21 {
        PacketType::CitizenAdd
    } else if op == 22 {
        PacketType::CitizenInfo
    } else if op == 23 {
        PacketType::CitizenLookupByName
    } else if op == 24 {
        PacketType::CitizenLookupByNumber
    } else if op == 25 {
        PacketType::CitizenChange
    } else if op == 26 {
        PacketType::CitizenDelete
    } else if op == 27 {
        PacketType::CitizenNext
    } else if op == 28 {
        PacketType::CitizenPrev
    } else if op == 29 {
        PacketType::CitizenChangeResult
    } else if op == 30 {
        PacketType::ConsoleMessage
    } else if op == 31 {
        PacketType::ContactAdd
    } else if op == 32 {
        PacketType::ContactChange
    } else if op == 33 {
        PacketType::ContactDelete
    } else if op == 34 {
        PacketType::ContactList
    } else if op == 35 {
        PacketType::Enter
    } else if op == 36 {
        PacketType::PublicKeyRequest
    } else if op == 37 {
        PacketType::Heartbeat
    } else if op == 38 {
        PacketType::Identify
    } else if op == 39 {
        PacketType::LicenseAdd
    } else if op == 40 {
        PacketType::LicenseResult
    } else if op == 41 {
        PacketType::LicenseByName
    } else if op == 42 {
        PacketType::LicenseChange
    } else if op == 43 {
        PacketType::LicenseDelete
    } else if op == 44 {
        PacketType::LicenseNext
    } else if op == 45 {
        PacketType::LicensePrev
    } else if op == 46 {
        PacketType::LicenseChangeResult
    } else if op == 47 {
        PacketType::Login
    } else if op == 48 {
        PacketType::Message
    } else if op == 49 {
        PacketType::ObjectAdd
    } else if op == 51 {
        PacketType::ObjectClick
    } else if op == 52 {
        PacketType::ObjectDelete
    } else if op == 53 {
        PacketType::ObjectDeleteAll
    } else if op == 55 {
        PacketType::ObjectResult
    } else if op == 56 {
        PacketType::ObjectSelect
    } else if op == 59 {
        PacketType::QueryNeedMore
    } else if op == 60 {
        PacketType::QueryUpToDate
    } else if op == 61 {
        PacketType::RegistryReload
    } else if op == 62 {
        PacketType::ServerLogin
    } else if op == 63 {
        PacketType::WorldServerStart
    } else if op == 67 {
        PacketType::ServerWorldDelete
    } else if op == 68 {
        PacketType::ServerWorldList
    } else if op == 69 {
        PacketType::ServerWorldListResult
    } else if op == 70 {
        PacketType::ServerWorldResult
    } else if op == 75 {
        PacketType::TelegramDeliver
    } else if op == 76 {
        PacketType::TelegramGet
    } else if op == 77 {
        PacketType::TelegramNotify
    } else if op == 78 {
        PacketType::TelegramSend
    } else if op == 79 {
        PacketType::Teleport
    } else if op == 80 {
        PacketType::TerrainBegin
    } else if op == 81 {
        PacketType::TerrainChanged
    } else if op == 82 {
        PacketType::TerrainData
    } else if op == 83 {
        PacketType::TerrainDelete
    } else if op == 84 {
        PacketType::TerrainEnd
    } else if op == 85 {
        PacketType::TerrainLoad
    } else if op == 86 {
        PacketType::TerrainNext
    } else if op == 88 {
        PacketType::TerrainSet
    } else if op == 89 {
        PacketType::ToolbarClick
    } else if op == 90 {
        PacketType::URL
    } else if op == 91 {
        PacketType::URLClick
    } else if op == 92 {
        PacketType::UserList
    } else if op == 93 {
        PacketType::UserListResult
    } else if op == 94 {
        PacketType::LoginApplication
    } else if op == 96 {
        PacketType::WorldList
    } else if op == 97 {
        PacketType::WorldListResult
    } else if op == 98 {
        PacketType::WorldLookup
    } else if op == 99 {
        PacketType::WorldStart
    } else if op == 100 {
        PacketType::WorldStop
    } else if op == 101 {
        PacketType::Tunnel
    } else if op == 102 {
        PacketType::WorldStatsUpdate
    } else if op == 103 {
        PacketType::Join
    } else if op == 104 {
        PacketType::JoinReply
    } else if op == 105 {
        PacketType::Xfer
    } else if op == 106 {
        PacketType::XferReply
    } else if op == 107 {
        PacketType::Noise
    } else if op == 109 {
        PacketType::Camera
    } else if op == 110 {
        PacketType::Botmenu
    } else if op == 111 {
        PacketType::BotmenuResult
    } else if op == 112 {
        PacketType::WorldEject
    } else if op == 113 {
        PacketType::EjectAdd
    } else if op == 114 {
        PacketType::EjectDelete
    } else if op == 115 {
        PacketType::EjectLookup
    } else if op == 116 {
        PacketType::EjectNext
    } else if op == 117 {
        PacketType::EjectPrev
    } else if op == 118 {
        PacketType::WorldEjectResult
    } else if op == 119 {
        PacketType::WorldConnectionResult
    } else if op == 120 {
        PacketType::ObjectBump
    } else if op == 121 {
        PacketType::PasswordSend
    } else if op == 123 {
        PacketType::CavTemplateByNumber
    } else if op == 124 {
        PacketType::CavTemplateNext
    } else if op == 125 {
        PacketType::CavTemplateChange
    } else if op == 126 {
        PacketType::CavTemplateDelete
    } else if op == 127 {
        PacketType::WorldCAVDefinitionChange
    } else if op == 128 {
        PacketType::WorldCAV
    } else if op == 130 {
        PacketType::CavDelete
    } else if op == 131 {
        PacketType::WorldCAVResult
    } else if op == 144 {
        PacketType::MoverAdd
    } else if op == 145 {
        PacketType::MoverDelete
    } else if op == 146 {
        PacketType::MoverChange
    } else if op == 148 {
        PacketType::MoverRiderAdd
    } else if op == 149 {
        PacketType::MoverRiderDelete
    } else if op == 150 {
        PacketType::MoverRiderChange
    } else if op == 151 {
        PacketType::MoverLinks
    } else if op == 152 {
        PacketType::SetAFK
    } else if op == 155 {
        PacketType::Immigrate
    } else if op == 157 {
        PacketType::Register
    } else if op == 159 {
        PacketType::AvatarReload
    } else if op == 160 {
        PacketType::WorldInstanceSet
    } else if op == 161 {
        PacketType::WorldInstanceGet
    } else if op == 163 {
        PacketType::ContactConfirm
    } else if op == 164 {
        PacketType::HudCreate
    } else if op == 165 {
        PacketType::HudClick
    } else if op == 166 {
        PacketType::HudDestroy
    } else if op == 167 {
        PacketType::HudClear
    } else if op == 168 {
        PacketType::HudResult
    } else if op == 169 {
        PacketType::AvatarLocation
    } else if op == 170 {
        PacketType::ObjectQuery
    } else if op == 183 {
        PacketType::LaserBeam
    } else {
        PacketType::Unknown
    }
}

impl PacketType {
    /// The wire value of this opcode.
    pub fn as_i16(self) -> (r: i16)
        ensures
            r == packet_type_code(self),
    {
        match self {
            PacketType::PublicKeyResponse => 1,
            PacketType::StreamKeyResponse => 2,
            PacketType::Address => 5,
            PacketType::Attributes => 6,
            PacketType::AttributeChange => 7,
            PacketType::AttributesReset => 8,
            PacketType::AvatarAdd => 9,
            PacketType::AvatarChange => 10,
            PacketType::AvatarClick => 11,
            PacketType::AvatarDelete => 12,
            PacketType::Invite => 14,
            PacketType::BotgramResponse => 15,
            PacketType::Capabilities => 16,
            PacketType::CellBegin => 17,
            PacketType::CellEnd => 18,
            PacketType::CellNext => 19,
            PacketType::CellUpdate => 20,
            PacketType::CitizenAdd => 21,
            PacketType::CitizenInfo => 22,
            PacketType::CitizenLookupByName => 23,
            PacketType::CitizenLookupByNumber => 24,
            PacketType::CitizenChange => 25,
            PacketType::CitizenDelete => 26,
            PacketType::CitizenNext => 27,
            PacketType::CitizenPrev => 28,
            PacketType::CitizenChangeResult => 29,
            PacketType::ConsoleMessage => 30,
            PacketType::ContactAdd => 31,
            PacketType::ContactChange => 32,
            PacketType::ContactDelete => 33,
            PacketType::ContactList => 34,
            PacketType::Enter => 35,
            PacketType::PublicKeyRequest => 36,
            PacketType::Heartbeat => 37,
            PacketType::Identify => 38,
            PacketType::LicenseAdd => 39,
            PacketType::LicenseResult => 40,
            PacketType::LicenseByName => 41,
            PacketType::LicenseChange => 42,
            PacketType::LicenseDelete => 43,
            PacketType::LicenseNext => 44,
            PacketType::LicensePrev => 45,
            PacketType::LicenseChangeResult => 46,
            PacketType::Login => 47,
            PacketType::Message => 48,
            PacketType::ObjectAdd => 49,
            PacketType::ObjectClick => 51,
            PacketType::ObjectDelete => 52,
            PacketType::ObjectDeleteAll => 53,
            PacketType::ObjectResult => 55,
            PacketType::ObjectSelect => 56,
            PacketType::QueryNeedMore => 59,
            PacketType::QueryUpToDate => 60,
            PacketType::RegistryReload => 61,
            PacketType::ServerLogin => 62,
            PacketType::WorldServerStart => 63,
            PacketType::ServerWorldDelete => 67,
            PacketType::ServerWorldList => 68,
            PacketType::ServerWorldListResult => 69,
            PacketType::ServerWorldResult => 70,
            PacketType::TelegramDeliver => 75,
            PacketType::TelegramGet => 76,
            PacketType::TelegramNotify => 77,
            PacketType::TelegramSend => 78,
            PacketType::Teleport => 79,
            PacketType::TerrainBegin => 80,
            PacketType::TerrainChanged => 81,
            PacketType::TerrainData => 82,
            PacketType::TerrainDelete => 83,
            PacketType::TerrainEnd => 84,
            PacketType::TerrainLoad => 85,
            PacketType::TerrainNext => 86,
            PacketType::TerrainSet => 88,
            PacketType::ToolbarClick => 89,
            PacketType::URL => 90,
            PacketType::URLClick => 91,
            PacketType::UserList => 92,
            PacketType::UserListResult => 93,
            PacketType::LoginApplication => 94,
            PacketType::WorldList => 96,
            PacketType::WorldListResult => 97,
            PacketType::WorldLookup => 98,
            PacketType::WorldStart => 99,
            PacketType::WorldStop => 100,
            PacketType::Tunnel => 101,
            PacketType::WorldStatsUpdate => 102,
            PacketType::Join => 103,
            PacketType::JoinReply => 104,
            PacketType::Xfer => 105,
            PacketType::XferReply => 106,
            PacketType::Noise => 107,
            PacketType::Camera => 109,
            PacketType::Botmenu => 110,
            PacketType::BotmenuResult => 111,
            PacketType::WorldEject => 112,
            PacketType::EjectAdd => 113,
            PacketType::EjectDelete => 114,
            PacketType::EjectLookup => 115,
            PacketType::EjectNext => 116,
            PacketType::EjectPrev => 117,
            PacketType::WorldEjectResult => 118,
            PacketType::WorldConnectionResult => 119,
            PacketType::ObjectBump => 120,
            PacketType::PasswordSend => 121,
            PacketType::CavTemplateByNumber => 123,
            PacketType::CavTemplateNext => 124,
            PacketType::CavTemplateChange => 125,
            PacketType::CavTemplateDelete => 126,
            PacketType::WorldCAVDefinitionChange => 127,
            PacketType::WorldCAV => 128,
            PacketType::CavDelete => 130,
            PacketType::WorldCAVResult => 131,
            PacketType::MoverAdd => 144,
            PacketType::MoverDelete => 145,
            PacketType::MoverChange => 146,
            PacketType::MoverRiderAdd => 148,
            PacketType::MoverRiderDelete => 149,
            PacketType::MoverRiderChange => 150,
            PacketType::MoverLinks => 151,
            PacketType::SetAFK => 152,
            PacketType::Immigrate => 155,
            PacketType::Register => 157,
            PacketType::AvatarReload => 159,
            PacketType::WorldInstanceSet => 160,
            PacketType::WorldInstanceGet => 161,
            PacketType::ContactConfirm => 163,
            PacketType::HudCreate => 164,
            PacketType::HudClick => 165,
            PacketType::HudDestroy => 166,
            PacketType::HudClear => 167,
            PacketType::HudResult => 168,
            PacketType::AvatarLocation => 169,
            PacketType::ObjectQuery => 170,
            PacketType::LaserBeam => 183,
            PacketType::Unknown => 32767,
        }
    }

    /// The opcode a wire value names; `Unknown` for one outside the registry.
    pub fn from_i16(op: i16) -> (r: Self)
        ensures
            r == spec_packet_type_of(op),
    {
        if op == 1 {
            PacketType::PublicKeyResponse
        } else if op == 2 {
            PacketType::StreamKeyResponse
        } else if op == 5 {
            PacketType::Address
        } else if op == 6 {
            PacketType::Attributes
        } else if op == 7 {
            PacketType::AttributeChange
        } else if op == 8 {
            PacketType::AttributesReset
        } else if op == 9 {
            PacketType::AvatarAdd
        } else if op == 10 {
            PacketType::AvatarChange
        } else if op == 11 {
            PacketType::AvatarClick
        } else if op == 12 {
            PacketType::AvatarDelete
        } else if op == 14 {
            PacketType::Invite
        } else if op == 15 {
            PacketType::BotgramResponse
        } else if op == 16 {
            PacketType::Capabilities
        } else if op == 17 {
            PacketType::CellBegin
        } else if op == 18 {
            PacketType::CellEnd
        } else if op == 19 {
            PacketType::CellNext
        } else if op == 20 {
            PacketType::CellUpdate
        } else if op == 21 {
            PacketType::CitizenAdd
        } else if op == 22 {
            PacketType::CitizenInfo
        } else if op == 23 {
            PacketType::CitizenLookupByName
        } else if op == 24 {
            PacketType::CitizenLookupByNumber
        } else if op == 25 {
            PacketType::CitizenChange
        } else if op == 26 {
            PacketType::CitizenDelete
        } else if op == 27 {
            PacketType::CitizenNext
        } else if op == 28 {
            PacketType::CitizenPrev
        } else if op == 29 {
            PacketType::CitizenChangeResult
        } else if op == 30 {
            PacketType::ConsoleMessage
        } else if op == 31 {
            PacketType::ContactAdd
        } else if op == 32 {
            PacketType::ContactChange
        } else if op == 33 {
            PacketType::ContactDelete
        } else if op == 34 {
            PacketType::ContactList
        } else if op == 35 {
            PacketType::Enter
        } else if op == 36 {
            PacketType::PublicKeyRequest
        } else if op == 37 {
            PacketType::Heartbeat
        } else if op == 38 {
            PacketType::Identify
        } else if op == 39 {
            PacketType::LicenseAdd
        } else if op == 40 {
            PacketType::LicenseResult
        } else if op == 41 {
            PacketType::LicenseByName
        } else if op == 42 {
            PacketType::LicenseChange
        } else if op == 43 {
            PacketType::LicenseDelete
        } else if op == 44 {
            PacketType::LicenseNext
        } else if op == 45 {
            PacketType::LicensePrev
        } else if op == 46 {
            PacketType::LicenseChangeResult
        } else if op == 47 {
            PacketType::Login
        } else if op == 48 {
            PacketType::Message
        } else if op == 49 {
            PacketType::ObjectAdd
        } else if op == 51 {
            PacketType::ObjectClick
        } else if op == 52 {
            PacketType::ObjectDelete
        } else if op == 53 {
            PacketType::ObjectDeleteAll
        } else if op == 55 {
            PacketType::ObjectResult
        } else if op == 56 {
            PacketType::ObjectSelect
        } else if op == 59 {
            PacketType::QueryNeedMore
        } else if op == 60 {
            PacketType::QueryUpToDate
        } else if op == 61 {
            PacketType::RegistryReload
        } else if op == 62 {
            PacketType::ServerLogin
        } else if op == 63 {
            PacketType::WorldServerStart
        } else if op == 67 {
            PacketType::ServerWorldDelete
        } else if op == 68 {
            PacketType::ServerWorldList
        } else if op == 69 {
            PacketType::ServerWorldListResult
        } else if op == 70 {
            PacketType::ServerWorldResult
        } else if op == 75 {
            PacketType::TelegramDeliver
        } else if op == 76 {
            PacketType::TelegramGet
        } else if op == 77 {
            PacketType::TelegramNotify
        } else if op == 78 {
            PacketType::TelegramSend
        } else if op == 79 {
            PacketType::Teleport
        } else if op == 80 {
            PacketType::TerrainBegin
        } else if op == 81 {
            PacketType::TerrainChanged
        } else if op == 82 {
            PacketType::TerrainData
        } else if op == 83 {
            PacketType::TerrainDelete
        } else if op == 84 {
            PacketType::TerrainEnd
        } else if op == 85 {
            PacketType::TerrainLoad
        } else if op == 86 {
            PacketType::TerrainNext
        } else if op == 88 {
            PacketType::TerrainSet
        } else if op == 89 {
            PacketType::ToolbarClick
        } else if op == 90 {
            PacketType::URL
        } else if op == 91 {
            PacketType::URLClick
        } else if op == 92 {
            PacketType::UserList
        } else if op == 93 {
            PacketType::UserListResult
        } else if op == 94 {
            PacketType::LoginApplication
        } else if op == 96 {
            PacketType::WorldList
        } else if op == 97 {
            PacketType::WorldListResult
        } else if op == 98 {
            PacketType::WorldLookup
        } else if op == 99 {
            PacketType::WorldStart
        } else if op == 100 {
            PacketType::WorldStop
        } else if op == 101 {
            PacketType::Tunnel
        } else if op == 102 {
            PacketType::WorldStatsUpdate
        } else if op == 103 {
            PacketType::Join
        } else if op == 104 {
            PacketType::JoinReply
        } else if op == 105 {
            PacketType::Xfer
        } else if op == 106 {
            PacketType::XferReply
        } else if op == 107 {
            PacketType::Noise
        } else if op == 109 {
            PacketType::Camera
        } else if op == 110 {
            PacketType::Botmenu
        } else if op == 111 {
            PacketType::BotmenuResult
        } else if op == 112 {
            PacketType::WorldEject
        } else if op == 113 {
            PacketType::EjectAdd
        } else if op == 114 {
            PacketType::EjectDelete
        } else if op == 115 {
            PacketType::EjectLookup
        } else if op == 116 {
            PacketType::EjectNext
        } else if op == 117 {
            PacketType::EjectPrev
        } else if op == 118 {
            PacketType::WorldEjectResult
        } else if op == 119 {
            PacketType::WorldConnectionResult
        } else if op == 120 {
            PacketType::ObjectBump
        } else if op == 121 {
            PacketType::PasswordSend
        } else if op == 123 {
            PacketType::CavTemplateByNumber
        } else if op == 124 {
            PacketType::CavTemplateNext
        } else if op == 125 {
            PacketType::CavTemplateChange
        } else if op == 126 {
            PacketType::CavTemplateDelete
        } else if op == 127 {
            PacketType::WorldCAVDefinitionChange
        } else if op == 128 {
            PacketType::WorldCAV
        } else if op == 130 {
            PacketType::CavDelete
        } else if op == 131 {
            PacketType::WorldCAVResult
        } else if op == 144 {
            PacketType::MoverAdd
        } else if op == 145 {
            PacketType::MoverDelete
        } else if op == 146 {
            PacketType::MoverChange
        } else if op == 148 {
            PacketType::MoverRiderAdd
        } else if op == 149 {
            PacketType::MoverRiderDelete
        } else if op == 150 {
            PacketType::MoverRiderChange
        } else if op == 151 {
            PacketType::MoverLinks
        } else if op == 152 {
            PacketType::SetAFK
        } else if op == 155 {
            PacketType::Immigrate
        } else if op == 157 {
            PacketType::Register
        } else if op == 159 {
            PacketType::AvatarReload
        } else if op == 160 {
            PacketType::WorldInstanceSet
        } else if op == 161 {
            PacketType::WorldInstanceGet
        } else if op == 163 {
            PacketType::ContactConfirm
        } else if op == 164 {
            PacketType::HudCreate
        } else if op == 165 {
            PacketType::HudClick
        } else if op == 166 {
            PacketType::HudDestroy
        } else if op == 167 {
            PacketType::HudClear
        } else if op == 168 {
            PacketType::HudResult
        } else if op == 169 {
            PacketType::AvatarLocation
        } else if op == 170 {
            PacketType::ObjectQuery
        } else if op == 183 {
            PacketType::LaserBeam
        } else {
            PacketType::Unknown
        }
    }
}

/// Every opcode's wire value reads back as the opcode itself.
#[verifier::rlimit(60)]
pub proof fn lemma_packet_type_round_trip(t: PacketType)
    ensures
        spec_packet_type_of(packet_type_code(t)) == t,
{
}

} // verus!
