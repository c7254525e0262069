use vstd::prelude::*;

use crate::block::CUSTOM_BLOCKS_SUPPORT_LEVEL;
use crate::level::{weather_byte, WeatherType};
use crate::packet::{array_field, be16, be32, string_field, PacketWriter};
use crate::player::PlayerType;

verus! {

/// The name the server announces in extension negotiation.
pub const SERVER_NAME: &'static str = "classics";

/// The teleport behaviour flags of `ExtEntityTeleport`.
#[derive(Debug, Clone, Copy, PartialEq, Eq, Structural)]
pub struct TeleportBehavior {
    pub bits: u8,
}

impl TeleportBehavior {
    pub const USE_POSITION: u8 = 0b0000_0001;
    pub const MODE_INSTANT: u8 = 0;
    pub const MODE_INTERPOLATED: u8 = 0b0000_0010;
    pub const MODE_RELATIVE_INTERPOLATED: u8 = 0b0000_0100;
    pub const MODE_RELATIVE_SEAMLESS: u8 = 0b0000_0110;
    pub const USE_ORIENTATION: u8 = 0b0001_0000;
    pub const INTERPOLATE_ORIENTATION: u8 = 0b0010_0000;
}

/// The byte that the protocol sends for a permission level.
pub open spec fn player_type_byte(p: PlayerType) -> u8 {
    if p == PlayerType::Normal { 0 } else { 0x64 }
}

/// A packet sent by the server. Positions are fixed-point, in 1/32 of a block.
#[derive(Debug)]
pub enum ServerPacket {
    /// packet sent as a response to joining clients
    ServerIdentification { protocol_version: u8, server_name: String, server_motd: String, user_type: PlayerType },
    /// checks whether the client is still connected
    Ping,
    /// informs clients that level data is coming
    LevelInitialize,
    /// one chunk of gzipped level data
    LevelDataChunk { chunk_length: i16, chunk_data: Vec<u8>, percent_complete: u8 },
    /// sent after the level data, with the level dimensions
    LevelFinalize { x_size: i16, y_size: i16, z_size: i16 },
    /// indicates a block change
    SetBlock { x: i16, y: i16, z: i16, block_type: u8 },
    /// sent when a player spawns, with its spawn point
    SpawnPlayer { player_id: i8, player_name: String, x: i16, y: i16, z: i16, yaw: u8, pitch: u8 },
    /// sets a player's position and orientation
    SetPositionOrientation { player_id: i8, x: i16, y: i16, z: i16, yaw: u8, pitch: u8 },
    /// moves and turns a player
    UpdatePositionOrientation { player_id: i8, x_change: i16, y_change: i16, z_change: i16, yaw: u8, pitch: u8 },
    /// moves a player
    UpdatePosition { player_id: i8, x_change: i16, y_change: i16, z_change: i16 },
    /// turns a player
    UpdateOrientation { player_id: i8, yaw: u8, pitch: u8 },
    /// sent when a player leaves the level
    DespawnPlayer { player_id: i8 },
    /// a chat message
    Message { player_id: i8, message: String },
    /// tells a client why it is being disconnected
    DisconnectPlayer { disconnect_reason: String },
    /// tells a client that its user type changed
    UpdateUserType { user_type: PlayerType },
    /// announces the server's name and number of extensions
    ExtInfo { extension_count: i16 },
    /// announces one extension of the server
    ExtEntry { ext_name: String, version: i32 },
    /// announces the server's custom block support level
    CustomBlockSupportLevel,
    /// sets a player's held block
    HoldThis { block: u8, prevent_change: bool },
    /// sets the weather
    EnvWeatherType { weather_type: WeatherType },
    /// sets a block's slot in the inventory
    SetInventoryOrder { order: u8, block: u8 },
    /// sets a player's spawn point without moving them
    SetSpawnPoint { spawn_x: i16, spawn_y: i16, spawn_z: i16, spawn_yaw: u8, spawn_pitch: u8 },
    /// teleports an entity
    ExtEntityTeleport { entity_id: i8, teleport_behavior: TeleportBehavior, x: i16, y: i16, z: i16, yaw: u8, pitch: u8 },
}

/// The id byte of each packet.
pub open spec fn packet_id(p: ServerPacket) -> u8 {
    match p {
        ServerPacket::ServerIdentification { .. } => 0x00,
        ServerPacket::Ping => 0x01,
        ServerPacket::LevelInitialize => 0x02,
        ServerPacket::LevelDataChunk { .. } => 0x03,
        ServerPacket::LevelFinalize { .. } => 0x04,
        ServerPacket::SetBlock { .. } => 0x06,
        ServerPacket::SpawnPlayer { .. } => 0x07,
        ServerPacket::SetPositionOrientation { .. } => 0x08,
        ServerPacket::UpdatePositionOrientation { .. } => 0x09,
        ServerPacket::UpdatePosition { .. } => 0x0a,
        ServerPacket::UpdateOrientation { .. } => 0x0b,
        ServerPacket::DespawnPlayer { .. } => 0x0c,
        ServerPacket::Message { .. } => 0x0d,
        ServerPacket::DisconnectPlayer { .. } => 0x0e,
        ServerPacket::UpdateUserType { .. } => 0x0f,
        ServerPacket::ExtInfo { .. } => 0x10,
        ServerPacket::ExtEntry { .. } => 0x11,
        ServerPacket::CustomBlockSupportLevel => 0x13,
        ServerPacket::HoldThis { .. } => 0x14,
        ServerPacket::EnvWeatherType { .. } => 0x1f,
        ServerPacket::SetInventoryOrder { .. } => 0x2c,
        ServerPacket::SetSpawnPoint { .. } => 0x2e,
        ServerPacket::ExtEntityTeleport { .. } => 0x36,
    }
}

/// The body of each packet on the wire, without its id byte.
pub open spec fn packet_body(p: ServerPacket) -> Seq<u8> {
    match p {
        ServerPacket::ServerIdentification { protocol_version, server_name, server_motd, user_type } => seq![protocol_version] + string_field(server_name@) + string_field(server_motd@) + seq![player_type_byte(user_type)],
        ServerPacket::Ping => Seq::empty(),
        ServerPacket::LevelInitialize => Seq::empty(),
        ServerPacket::LevelDataChunk { chunk_length, chunk_data, percent_complete } => be16(chunk_length as u16) + array_field(chunk_data@) + seq![percent_complete],
        ServerPacket::LevelFinalize { x_size, y_size, z_size } => be16(x_size as u16) + be16(y_size as u16) + be16(z_size as u16),
        ServerPacket::SetBlock { x, y, z, block_type } => be16(x as u16) + be16(y as u16) + be16(z as u16) + seq![block_type],
        ServerPacket::SpawnPlayer { player_id, player_name, x, y, z, yaw, pitch } => seq![player_id as u8] + string_field(player_name@) + be16(x as u16) + be16(y as u16) + be16(z as u16) + seq![yaw] + seq![pitch],
        ServerPacket::SetPositionOrientation { player_id, x, y, z, yaw, pitch } => seq![player_id as u8] + be16(x as u16) + be16(y as u16) + be16(z as u16) + seq![yaw] + seq![pitch],
        ServerPacket::UpdatePositionOrientation { player_id, x_change, y_change, z_change, yaw, pitch } => seq![player_id as u8] + be16(x_change as u16) + be16(y_change as u16) + be16(z_change as u16) + seq![yaw] + seq![pitch],
        ServerPacket::UpdatePosition { player_id, x_change, y_change, z_change } => seq![player_id as u8] + be16(x_change as u16) + be16(y_change as u16) + be16(z_change as u16),
        ServerPacket::UpdateOrientation { player_id, yaw, pitch } => seq![player_id as u8] + seq![yaw] + seq![pitch],
        ServerPacket::DespawnPlayer { player_id } => seq![player_id as u8],
        ServerPacket::Message { player_id, message } => seq![player_id as u8] + string_field(message@),
        ServerPacket::DisconnectPlayer { disconnect_reason } => string_field(disconnect_reason@),
        ServerPacket::UpdateUserType { user_type } => seq![player_type_byte(user_type)],
        ServerPacket::ExtInfo { extension_count } => string_field(SERVER_NAME@) + be16(extension_count as u16),
        ServerPacket::ExtEntry { ext_name, version } => string_field(ext_name@) + be32(version as u32),
        ServerPacket::CustomBlockSupportLevel => seq![CUSTOM_BLOCKS_SUPPORT_LEVEL],
        ServerPacket::HoldThis { block, prevent_change } => seq![block] + seq![if prevent_change { 1u8 } else { 0u8 }],
        ServerPacket::EnvWeatherType { weather_type } => seq![weather_byte(weather_type)],
        ServerPacket::SetInventoryOrder { order, block } => seq![order] + seq![block],
        ServerPacket::SetSpawnPoint { spawn_x, spawn_y, spawn_z, spawn_yaw, spawn_pitch } => be16(spawn_x as u16) + be16(spawn_y as u16) + be16(spawn_z as u16) + seq![spawn_yaw] + seq![spawn_pitch],
        ServerPacket::ExtEntityTeleport { entity_id, teleport_behavior, x, y, z, yaw, pitch } => seq![entity_id as u8] + seq![teleport_behavior.bits] + be16(x as u16) + be16(y as u16) + be16(z as u16) + seq![yaw] + seq![pitch],
    }
}

/// A whole frame: the id byte, then the body.
pub open spec fn packet_frame(p: ServerPacket) -> Seq<u8> {
    seq![packet_id(p)] + packet_body(p)
}

/// Two packets of one kind with equal fields, strings and arrays compared by content.
pub open spec fn same_packet(a: ServerPacket, b: ServerPacket) -> bool {
    match (a, b) {
        (ServerPacket::ServerIdentification { protocol_version: protocol_version, server_name: server_name, server_motd: server_motd, user_type: user_type }, ServerPacket::ServerIdentification { protocol_version: protocol_version2, server_name: server_name2, server_motd: server_motd2, user_type: user_type2 }) => protocol_version == protocol_version2 && server_name@ == server_name2@ && server_motd@ == server_motd2@ && user_type == user_type2,
        (ServerPacket::Ping, ServerPacket::Ping) => true,
        (ServerPacket::LevelInitialize, ServerPacket::LevelInitialize) => true,
        (ServerPacket::LevelDataChunk { chunk_length: chunk_length, chunk_data: chunk_data, percent_complete: percent_complete }, ServerPacket::LevelDataChunk { chunk_length: chunk_length2, chunk_data: chunk_data2, percent_complete: percent_complete2 }) => chunk_length == chunk_length2 && chunk_data@ == chunk_data2@ && percent_complete == percent_complete2,
        (ServerPacket::LevelFinalize { x_size: x_size, y_size: y_size, z_size: z_size }, ServerPacket::LevelFinalize { x_size: x_size2, y_size: y_size2, z_size: z_size2 }) => x_size == x_size2 && y_size == y_size2 && z_size == z_size2,
        (ServerPacket::SetBlock { x: x, y: y, z: z, block_type: block_type }, ServerPacket::SetBlock { x: x2, y: y2, z: z2, block_type: block_type2 }) => x == x2 && y == y2 && z == z2 && block_type == block_type2,
        (ServerPacket::SpawnPlayer { player_id: player_id, player_name: player_name, x: x, y: y, z: z, yaw: yaw, pitch: pitch }, ServerPacket::SpawnPlayer { player_id: player_id2, player_name: player_name2, x: x2, y: y2, z: z2, yaw: yaw2, pitch: pitch2 }) => player_id == player_id2 && player_name@ == player_name2@ && x == x2 && y == y2 && z == z2 && yaw == yaw2 && pitch == pitch2,
        (ServerPacket::SetPositionOrientation { player_id: player_id, x: x, y: y, z: z, yaw: yaw, pitch: pitch }, ServerPacket::SetPositionOrientation { player_id: player_id2, x: x2, y: y2, z: z2, yaw: yaw2, pitch: pitch2 }) => player_id == player_id2 && x == x2 && y == y2 && z == z2 && yaw == yaw2 && pitch == pitch2,
        (ServerPacket::UpdatePositionOrientation { player_id: player_id, x_change: x_change, y_change: y_change, z_change: z_change, yaw: yaw, pitch: pitch }, ServerPacket::UpdatePositionOrientation { player_id: player_id2, x_change: x_change2, y_change: y_change2, z_change: z_change2, yaw: yaw2, pitch: pitch2 }) => player_id == player_id2 && x_change == x_change2 && y_change == y_change2 && z_change == z_change2 && yaw == yaw2 && pitch == pitch2,
        (ServerPacket::UpdatePosition { player_id: player_id, x_change: x_change, y_change: y_change, z_change: z_change }, ServerPacket::UpdatePosition { player_id: player_id2, x_change: x_change2, y_change: y_change2, z_change: z_change2 }) => player_id == player_id2 && x_change == x_change2 && y_change == y_change2 && z_change == z_change2,
        (ServerPacket::UpdateOrientation { player_id: player_id, yaw: yaw, pitch: pitch }, ServerPacket::UpdateOrientation { player_id: player_id2, yaw: yaw2, pitch: pitch2 }) => player_id == player_id2 && yaw == yaw2 && pitch == pitch2,
        (ServerPacket::DespawnPlayer { player_id: player_id }, ServerPacket::DespawnPlayer { player_id: player_id2 }) => player_id == player_id2,
        (ServerPacket::Message { player_id: player_id, message: message }, ServerPacket::Message { player_id: player_id2, message: message2 }) => player_id == player_id2 && message@ == message2@,
        (ServerPacket::DisconnectPlayer { disconnect_reason: disconnect_reason }, ServerPacket::DisconnectPlayer { disconnect_reason: disconnect_reason2 }) => disconnect_reason@ == disconnect_reason2@,
        (ServerPacket::UpdateUserType { user_type: user_type }, ServerPacket::UpdateUserType { user_type: user_type2 }) => user_type == user_type2,
        (ServerPacket::ExtInfo { extension_count: extension_count }, ServerPacket::ExtInfo { extension_count: extension_count2 }) => extension_count == extension_count2,
        (ServerPacket::ExtEntry { ext_name: ext_name, version: version }, ServerPacket::ExtEntry { ext_name: ext_name2, version: version2 }) => ext_name@ == ext_name2@ && version == version2,
        (ServerPacket::CustomBlockSupportLevel, ServerPacket::CustomBlockSupportLevel) => true,
        (ServerPacket::HoldThis { block: block, prevent_change: prevent_change }, ServerPacket::HoldThis { block: block2, prevent_change: prevent_change2 }) => block == block2 && prevent_change == prevent_change2,
        (ServerPacket::EnvWeatherType { weather_type: weather_type }, ServerPacket::EnvWeatherType { weather_type: weather_type2 }) => weather_type == weather_type2,
        (ServerPacket::SetInventoryOrder { order: order, block: block }, ServerPacket::SetInventoryOrder { order: order2, block: block2 }) => order == order2 && block == block2,
        (ServerPacket::SetSpawnPoint { spawn_x: spawn_x, spawn_y: spawn_y, spawn_z: spawn_z, spawn_yaw: spawn_yaw, spawn_pitch: spawn_pitch }, ServerPacket::SetSpawnPoint { spawn_x: spawn_x2, spawn_y: spawn_y2, spawn_z: spawn_z2, spawn_yaw: spawn_yaw2, spawn_pitch: spawn_pitch2 }) => spawn_x == spawn_x2 && spawn_y == spawn_y2 && spawn_z == spawn_z2 && spawn_yaw == spawn_yaw2 && spawn_pitch == spawn_pitch2,
        (ServerPacket::ExtEntityTeleport { entity_id: entity_id, teleport_behavior: teleport_behavior, x: x, y: y, z: z, yaw: yaw, pitch: pitch }, ServerPacket::ExtEntityTeleport { entity_id: entity_id2, teleport_behavior: teleport_behavior2, x: x2, y: y2, z: z2, yaw: yaw2, pitch: pitch2 }) => entity_id == entity_id2 && teleport_behavior == teleport_behavior2 && x == x2 && y == y2 && z == z2 && yaw == yaw2 && pitch == pitch2,
        _ => false,
    }
}

/// The player id a packet carries, if its kind carries one.
pub open spec fn packet_player_id(p: ServerPacket) -> Option<i8> {
    match p {
        ServerPacket::SpawnPlayer { player_id, .. } => Some(player_id),
        ServerPacket::SetPositionOrientation { player_id, .. } => Some(player_id),
        ServerPacket::UpdatePositionOrientation { player_id, .. } => Some(player_id),
        ServerPacket::UpdatePosition { player_id, .. } => Some(player_id),
        ServerPacket::UpdateOrientation { player_id, .. } => Some(player_id),
        ServerPacket::DespawnPlayer { player_id, .. } => Some(player_id),
        ServerPacket::Message { player_id, .. } => Some(player_id),
        ServerPacket::ExtEntityTeleport { entity_id, .. } => Some(entity_id),
        _ => None,
    }
}

/// The packet with its player id replaced, for the kinds that carry one.
pub open spec fn with_player_id(p: ServerPacket, id: i8) -> ServerPacket {
    match p {
        ServerPacket::SpawnPlayer { player_id, player_name, x, y, z, yaw, pitch } => ServerPacket::SpawnPlayer { player_id: id, player_name, x, y, z, yaw, pitch },
        ServerPacket::SetPositionOrientation { player_id, x, y, z, yaw, pitch } => ServerPacket::SetPositionOrientation { player_id: id, x, y, z, yaw, pitch },
        ServerPacket::UpdatePositionOrientation { player_id, x_change, y_change, z_change, yaw, pitch } => ServerPacket::UpdatePositionOrientation { player_id: id, x_change, y_change, z_change, yaw, pitch },
        ServerPacket::UpdatePosition { player_id, x_change, y_change, z_change } => ServerPacket::UpdatePosition { player_id: id, x_change, y_change, z_change },
        ServerPacket::UpdateOrientation { player_id, yaw, pitch } => ServerPacket::UpdateOrientation { player_id: id, yaw, pitch },
        ServerPacket::DespawnPlayer { player_id } => ServerPacket::DespawnPlayer { player_id: id },
        ServerPacket::Message { player_id, message } => ServerPacket::Message { player_id: id, message },
        ServerPacket::ExtEntityTeleport { entity_id, teleport_behavior, x, y, z, yaw, pitch } => ServerPacket::ExtEntityTeleport { entity_id: id, teleport_behavior, x, y, z, yaw, pitch },
        _ => p,
    }
}

/// The kinds a player sees even when they carry the player's own id.
pub open spec fn echoes(p: ServerPacket) -> bool {
    p is SetBlock || p is SpawnPlayer || p is Message
}

impl ServerPacket {
    /// Gets the packet's id.
    pub fn get_id(&self) -> (r: u8)
        ensures
            r == packet_id(*self),
    {
        match self {
            ServerPacket::ServerIdentification { .. } => 0x00,
            ServerPacket::Ping => 0x01,
            ServerPacket::LevelInitialize => 0x02,
            ServerPacket::LevelDataChunk { .. } => 0x03,
            ServerPacket::LevelFinalize { .. } => 0x04,
            ServerPacket::SetBlock { .. } => 0x06,
            ServerPacket::SpawnPlayer { .. } => 0x07,
            ServerPacket::SetPositionOrientation { .. } => 0x08,
            ServerPacket::UpdatePositionOrientation { .. } => 0x09,
            ServerPacket::UpdatePosition { .. } => 0x0a,
            ServerPacket::UpdateOrientation { .. } => 0x0b,
            ServerPacket::DespawnPlayer { .. } => 0x0c,
            ServerPacket::Message { .. } => 0x0d,
            ServerPacket::DisconnectPlayer { .. } => 0x0e,
            ServerPacket::UpdateUserType { .. } => 0x0f,
            ServerPacket::ExtInfo { .. } => 0x10,
            ServerPacket::ExtEntry { .. } => 0x11,
            ServerPacket::CustomBlockSupportLevel => 0x13,
            ServerPacket::HoldThis { .. } => 0x14,
            ServerPacket::EnvWeatherType { .. } => 0x1f,
            ServerPacket::SetInventoryOrder { .. } => 0x2c,
            ServerPacket::SetSpawnPoint { .. } => 0x2e,
            ServerPacket::ExtEntityTeleport { .. } => 0x36,
        }
    }

    /// Writes the packet's body.
    pub fn write(&self, writer: PacketWriter) -> (r: PacketWriter)
        ensures
            r@ == writer@ + packet_body(*self),
    {
        let r = match self {
            ServerPacket::ServerIdentification { protocol_version, server_name, server_motd, user_type } => writer.write_u8(*protocol_version).write_string(server_name.as_str()).write_string(server_motd.as_str()).write_u8(user_type.to_byte()),
            ServerPacket::Ping => writer,
            ServerPacket::LevelInitialize => writer,
            ServerPacket::LevelDataChunk { chunk_length, chunk_data, percent_complete } => writer.write_i16(*chunk_length).write_array(chunk_data.as_slice()).write_u8(*percent_complete),
            ServerPacket::LevelFinalize { x_size, y_size, z_size } => writer.write_i16(*x_size).write_i16(*y_size).write_i16(*z_size),
            ServerPacket::SetBlock { x, y, z, block_type } => writer.write_i16(*x).write_i16(*y).write_i16(*z).write_u8(*block_type),
            ServerPacket::SpawnPlayer { player_id, player_name, x, y, z, yaw, pitch } => writer.write_i8(*player_id).write_string(player_name.as_str()).write_i16(*x).write_i16(*y).write_i16(*z).write_u8(*yaw).write_u8(*pitch),
            ServerPacket::SetPositionOrientation { player_id, x, y, z, yaw, pitch } => writer.write_i8(*player_id).write_i16(*x).write_i16(*y).write_i16(*z).write_u8(*yaw).write_u8(*pitch),
            ServerPacket::UpdatePositionOrientation { player_id, x_change, y_change, z_change, yaw, pitch } => writer.write_i8(*player_id).write_i16(*x_change).write_i16(*y_change).write_i16(*z_change).write_u8(*yaw).write_u8(*pitch),
            ServerPacket::UpdatePosition { player_id, x_change, y_change, z_change } => writer.write_i8(*player_id).write_i16(*x_change).write_i16(*y_change).write_i16(*z_change),
            ServerPacket::UpdateOrientation { player_id, yaw, pitch } => writer.write_i8(*player_id).write_u8(*yaw).write_u8(*pitch),
            ServerPacket::DespawnPlayer { player_id } => writer.write_i8(*player_id),
            ServerPacket::Message { player_id, message } => writer.write_i8(*player_id).write_string(message.as_str()),
            ServerPacket::DisconnectPlayer { disconnect_reason } => writer.write_string(disconnect_reason.as_str()),
            ServerPacket::UpdateUserType { user_type } => writer.write_u8(user_type.to_byte()),
            ServerPacket::ExtInfo { extension_count } => writer.write_string(SERVER_NAME).write_i16(*extension_count),
            ServerPacket::ExtEntry { ext_name, version } => writer.write_string(ext_name.as_str()).write_i32(*version),
            ServerPacket::CustomBlockSupportLevel => writer.write_u8(CUSTOM_BLOCKS_SUPPORT_LEVEL),
            ServerPacket::HoldThis { block, prevent_change } => writer.write_u8(*block).write_bool(*prevent_change),
            ServerPacket::EnvWeatherType { weather_type } => writer.write_u8(weather_type.to_byte()),
            ServerPacket::SetInventoryOrder { order, block } => writer.write_u8(*order).write_u8(*block),
            ServerPacket::SetSpawnPoint { spawn_x, spawn_y, spawn_z, spawn_yaw, spawn_pitch } => writer.write_i16(*spawn_x).write_i16(*spawn_y).write_i16(*spawn_z).write_u8(*spawn_yaw).write_u8(*spawn_pitch),
            ServerPacket::ExtEntityTeleport { entity_id, teleport_behavior, x, y, z, yaw, pitch } => writer.write_i8(*entity_id).write_u8(teleport_behavior.bits).write_i16(*x).write_i16(*y).write_i16(*z).write_u8(*yaw).write_u8(*pitch),
        };
        proof {
            reveal_strlit("classics");
            assert(r@ =~= writer@ + packet_body(*self));
        }
        r
    }

    /// The whole frame of the packet: its id, then its body.
    pub fn to_bytes(&self) -> (r: Vec<u8>)
        ensures
            r@ == packet_frame(*self),
    {
        let w = self.write(PacketWriter::new().write_u8(self.get_id()));
        let r = w.into_raw_packet();
        assert(r@ =~= packet_frame(*self));
        r
    }

    /// A copy of the packet.
    pub fn duplicate(&self) -> (r: ServerPacket)
        ensures
            same_packet(r, *self),
            packet_body(r) == packet_body(*self),
            packet_id(r) == packet_id(*self),
            packet_player_id(r) == packet_player_id(*self),
            echoes(r) == echoes(*self),
    {
        let r = match self {
            ServerPacket::ServerIdentification { protocol_version, server_name, server_motd, user_type } => ServerPacket::ServerIdentification { protocol_version: *protocol_version, server_name: server_name.clone(), server_motd: server_motd.clone(), user_type: *user_type },
            ServerPacket::Ping => ServerPacket::Ping,
            ServerPacket::LevelInitialize => ServerPacket::LevelInitialize,
            ServerPacket::LevelDataChunk { chunk_length, chunk_data, percent_complete } => {
                let d = chunk_data.clone();
                assert(d@ =~= chunk_data@);
                ServerPacket::LevelDataChunk { chunk_length: *chunk_length, chunk_data: d, percent_complete: *percent_complete }
            },
            ServerPacket::LevelFinalize { x_size, y_size, z_size } => ServerPacket::LevelFinalize { x_size: *x_size, y_size: *y_size, z_size: *z_size },
            ServerPacket::SetBlock { x, y, z, block_type } => ServerPacket::SetBlock { x: *x, y: *y, z: *z, block_type: *block_type },
            ServerPacket::SpawnPlayer { player_id, player_name, x, y, z, yaw, pitch } => ServerPacket::SpawnPlayer { player_id: *player_id, player_name: player_name.clone(), x: *x, y: *y, z: *z, yaw: *yaw, pitch: *pitch },
            ServerPacket::SetPositionOrientation { player_id, x, y, z, yaw, pitch } => ServerPacket::SetPositionOrientation { player_id: *player_id, x: *x, y: *y, z: *z, yaw: *yaw, pitch: *pitch },
            ServerPacket::UpdatePositionOrientation { player_id, x_change, y_change, z_change, yaw, pitch } => ServerPacket::UpdatePositionOrientation { player_id: *player_id, x_change: *x_change, y_change: *y_change, z_change: *z_change, yaw: *yaw, pitch: *pitch },
            ServerPacket::UpdatePosition { player_id, x_change, y_change, z_change } => ServerPacket::UpdatePosition { player_id: *player_id, x_change: *x_change, y_change: *y_change, z_change: *z_change },
            ServerPacket::UpdateOrientation { player_id, yaw, pitch } => ServerPacket::UpdateOrientation { player_id: *player_id, yaw: *yaw, pitch: *pitch },
            ServerPacket::DespawnPlayer { player_id } => ServerPacket::DespawnPlayer { player_id: *player_id },
            ServerPacket::Message { player_id, message } => ServerPacket::Message { player_id: *player_id, message: message.clone() },
            ServerPacket::DisconnectPlayer { disconnect_reason } => ServerPacket::DisconnectPlayer { disconnect_reason: disconnect_reason.clone() },
            ServerPacket::UpdateUserType { user_type } => ServerPacket::UpdateUserType { user_type: *user_type },
            ServerPacket::ExtInfo { extension_count } => ServerPacket::ExtInfo { extension_count: *extension_count },
            ServerPacket::ExtEntry { ext_name, version } => ServerPacket::ExtEntry { ext_name: ext_name.clone(), version: *version },
            ServerPacket::CustomBlockSupportLevel => ServerPacket::CustomBlockSupportLevel,
            ServerPacket::HoldThis { block, prevent_change } => ServerPacket::HoldThis { block: *block, prevent_change: *prevent_change },
            ServerPacket::EnvWeatherType { weather_type } => ServerPacket::EnvWeatherType { weather_type: *weather_type },
            ServerPacket::SetInventoryOrder { order, block } => ServerPacket::SetInventoryOrder { order: *order, block: *block },
            ServerPacket::SetSpawnPoint { spawn_x, spawn_y, spawn_z, spawn_yaw, spawn_pitch } => ServerPacket::SetSpawnPoint { spawn_x: *spawn_x, spawn_y: *spawn_y, spawn_z: *spawn_z, spawn_yaw: *spawn_yaw, spawn_pitch: *spawn_pitch },
            ServerPacket::ExtEntityTeleport { entity_id, teleport_behavior, x, y, z, yaw, pitch } => ServerPacket::ExtEntityTeleport { entity_id: *entity_id, teleport_behavior: *teleport_behavior, x: *x, y: *y, z: *z, yaw: *yaw, pitch: *pitch },
        };
        r
    }

    /// Gets the player id contained in the packet, if any.
    pub fn get_player_id(&self) -> (r: Option<i8>)
        ensures
            r == packet_player_id(*self),
    {
        match self {
            ServerPacket::SpawnPlayer { player_id, .. } => Some(*player_id),
            ServerPacket::SetPositionOrientation { player_id, .. } => Some(*player_id),
            ServerPacket::UpdatePositionOrientation { player_id, .. } => Some(*player_id),
            ServerPacket::UpdatePosition { player_id, .. } => Some(*player_id),
            ServerPacket::UpdateOrientation { player_id, .. } => Some(*player_id),
            ServerPacket::DespawnPlayer { player_id, .. } => Some(*player_id),
            ServerPacket::Message { player_id, .. } => Some(*player_id),
            ServerPacket::ExtEntityTeleport { entity_id, .. } => Some(*entity_id),
            _ => None,
        }
    }

    /// Sets the player id in the packet, if its kind carries one.
    pub fn set_player_id(&mut self, new_player_id: i8)
        ensures
            *final(self) == with_player_id(*old(self), new_player_id),
    {
        match self {
            ServerPacket::SpawnPlayer { player_id, .. } => {
                *player_id = new_player_id;
            },
            ServerPacket::SetPositionOrientation { player_id, .. } => {
                *player_id = new_player_id;
            },
            ServerPacket::UpdatePositionOrientation { player_id, .. } => {
                *player_id = new_player_id;
            },
            ServerPacket::UpdatePosition { player_id, .. } => {
                *player_id = new_player_id;
            },
            ServerPacket::UpdateOrientation { player_id, .. } => {
                *player_id = new_player_id;
            },
            ServerPacket::DespawnPlayer { player_id, .. } => {
                *player_id = new_player_id;
            },
            ServerPacket::Message { player_id, .. } => {
                *player_id = new_player_id;
            },
            ServerPacket::ExtEntityTeleport { entity_id, .. } => {
                *entity_id = new_player_id;
            },
            _ => {},
        }
    }

    /// Whether this packet echoes back to the player it concerns.
    pub fn should_echo(&self) -> (r: bool)
        ensures
            r == echoes(*self),
    {
        match self {
            ServerPacket::SetBlock { .. } | ServerPacket::SpawnPlayer { .. } | ServerPacket::Message { .. } => true,
            _ => false,
        }
    }
}

/// What a player with id `own` receives for a packet from its queue: packets about the player
/// itself are dropped, except `SetBlock`, `SpawnPlayer` and `Message`, which are sent with the id
/// rewritten to -1; all other packets pass unchanged.
pub open spec fn echo_rule(own: i8, p: ServerPacket) -> Option<ServerPacket> {
    if packet_player_id(p) == Some(own) {
        if echoes(p) {
            Some(with_player_id(p, -1i8))
        } else {
            None
        }
    } else {
        Some(p)
    }
}

/// Applies the echo rule to a packet leaving the queue of player `own_id`.
pub fn prepare_outgoing(packet: ServerPacket, own_id: i8) -> (r: Option<ServerPacket>)
    ensures
        r == echo_rule(own_id, packet),
{
    let mut packet = packet;
    match packet.get_player_id() {
        Some(id) => {
            if id == own_id {
                if packet.should_echo() {
                    packet.set_player_id(-1);
                    Some(packet)
                } else {
                    None
                }
            } else {
                Some(packet)
            }
        },
        None => Some(packet),
    }
}

/// Pushes a copy of each packet, in order, onto every queue.
pub fn spread_packets(queues: &mut Vec<Vec<ServerPacket>>, packets: &Vec<ServerPacket>)
    ensures
        final(queues)@.len() == old(queues)@.len(),
        forall|q: int| 0 <= q < final(queues)@.len() ==> {
            &&& (#[trigger] final(queues)@[q])@.len() == old(queues)@[q]@.len() + packets@.len()
            &&& final(queues)@[q]@.take(old(queues)@[q]@.len() as int) == old(queues)@[q]@
            &&& forall|i: int| 0 <= i < packets@.len() ==> same_packet(
                #[trigger] final(queues)@[q]@[old(queues)@[q]@.len() + i], packets@[i])
        },
{
    let ghost start = queues@;
    let mut q: usize = 0;
    while q < queues.len()
        invariant
            q <= queues@.len(),
            queues@.len() == start.len(),
            forall|r: int| q <= r < queues@.len() ==> queues@[r] == start[r],
            forall|r: int| 0 <= r < q ==> {
                &&& (#[trigger] queues@[r])@.len() == start[r]@.len() + packets@.len()
                &&& queues@[r]@.take(start[r]@.len() as int) == start[r]@
                &&& forall|i: int| 0 <= i < packets@.len() ==> same_packet(
                    #[trigger] queues@[r]@[start[r]@.len() + i], packets@[i])
            },
        decreases queues@.len() - q,
    {
        let mut queue: Vec<ServerPacket> = Vec::new();
        queues.set_and_swap(q, &mut queue);
        let ghost first = queue@;
        let mut i: usize = 0;
        while i < packets.len()
            invariant
                i <= packets@.len(),
                first == start[q as int]@,
                queue@.len() == first.len() + i,
                queue@.take(first.len() as int) == first,
                forall|k: int| 0 <= k < i ==> same_packet(#[trigger] queue@[first.len() + k], packets@[k]),
            decreases packets@.len() - i,
        {
            let ghost before = queue@;
            queue.push(packets[i].duplicate());
            assert(queue@.take(first.len() as int) =~= before.take(first.len() as int));
            i = i + 1;
        }
        queues.set(q, queue);
        q = q + 1;
    }
}

} // verus!
