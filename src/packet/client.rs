use vstd::prelude::*;

use crate::packet::STRING_LENGTH;

verus! {

/// The characters of Latin-1 bytes, one for each byte.
pub open spec fn latin1(b: Seq<u8>) -> Seq<char> {
    b.map_values(|c: u8| c as char)
}

/// Whether a byte is a whitespace character in Latin-1.
pub open spec fn is_space(c: u8) -> bool {
    (0x09 <= c <= 0x0d) || c == 0x20 || c == 0x85 || c == 0xa0
}

/// `b` without its trailing whitespace.
pub open spec fn trim_end(b: Seq<u8>) -> Seq<u8>
    decreases b.len(),
{
    if b.len() > 0 && is_space(b.last()) {
        trim_end(b.drop_last())
    } else {
        b
    }
}

/// The byte at `o`.
pub open spec fn u8_at(b: Seq<u8>, o: int) -> u8 {
    b[o]
}

/// The big-endian 16-bit value at `o`.
pub open spec fn i16_at(b: Seq<u8>, o: int) -> i16 {
    ((b[o] as int * 256 + b[o + 1] as int) as u16) as i16
}

/// The big-endian 32-bit value at `o`.
pub open spec fn i32_at(b: Seq<u8>, o: int) -> i32 {
    ((b[o] as int * 0x100_0000 + b[o + 1] as int * 0x1_0000 + b[o + 2] as int * 256 + b[o + 3] as int) as u32) as i32
}

/// The protocol string at `o`: 64 Latin-1 bytes without their trailing whitespace.
pub open spec fn string_at(b: Seq<u8>, o: int) -> Seq<char> {
    latin1(trim_end(b.subrange(o, o + STRING_LENGTH as int)))
}

/// Relies on `FromIterator<char>` for `String`: collecting the chars gives a string of exactly
/// those chars.
#[verifier::external_body]
fn latin1_string(b: &[u8]) -> (r: String)
    ensures
        r@ == latin1(b@),
{
    b.iter().map(|c| *c as char).collect()
}

fn read_u8(b: &[u8], o: usize) -> (r: u8)
    requires
        o < b@.len(),
    ensures
        r == u8_at(b@, o as int),
{
    b[o]
}

fn read_i8(b: &[u8], o: usize) -> (r: i8)
    requires
        o < b@.len(),
    ensures
        r == b@[o as int] as i8,
{
    b[o] as i8
}

fn read_i16(b: &[u8], o: usize) -> (r: i16)
    requires
        o + 2 <= b@.len(),
    ensures
        r == i16_at(b@, o as int),
{
    let v: u16 = (b[o] as u16) * 256 + (b[o + 1] as u16);
    v as i16
}

fn read_i32(b: &[u8], o: usize) -> (r: i32)
    requires
        o + 4 <= b@.len(),
    ensures
        r == i32_at(b@, o as int),
{
    let v: u32 = (b[o] as u32) * 0x100_0000 + (b[o + 1] as u32) * 0x1_0000 + (b[o + 2] as u32) * 256 + (b[o + 3] as u32);
    v as i32
}

fn is_space_byte(c: u8) -> (r: bool)
    ensures
        r == is_space(c),
{
    (0x09 <= c && c <= 0x0d) || c == 0x20 || c == 0x85 || c == 0xa0
}

fn read_string(b: &[u8], o: usize) -> (r: String)
    requires
        o + STRING_LENGTH <= b@.len(),
    ensures
        r@ == string_at(b@, o as int),
{
    let n = b.len();
    let mut end: usize = STRING_LENGTH;
    while end > 0 && is_space_byte(b[o + end - 1])
        invariant
            end <= STRING_LENGTH,
            n == b@.len(),
            o + STRING_LENGTH <= n,
            trim_end(b@.subrange(o as int, o + STRING_LENGTH as int)) == trim_end(b@.subrange(o as int, o + end)),
        decreases end,
    {
        assert(b@.subrange(o as int, o + end).drop_last() =~= b@.subrange(o as int, o + end - 1));
        end = end - 1;
    }
    let mut out: Vec<u8> = Vec::new();
    let mut i: usize = 0;
    while i < end
        invariant
            i <= end,
            end <= STRING_LENGTH,
            n == b@.len(),
            o + STRING_LENGTH <= n,
            out@ == b@.subrange(o as int, o + i),
        decreases end - i,
    {
        out.push(b[o + i]);
        assert(out@ =~= b@.subrange(o as int, o + i + 1));
        i = i + 1;
    }
    assert(trim_end(b@.subrange(o as int, o + end)) == b@.subrange(o as int, o + end));
    latin1_string(out.as_slice())
}

/// Packets of the extension protocol sent by clients.
#[derive(Debug)]
pub enum ExtendedClientPacket {
    /// the client's name and the number of extensions it supports
    ExtInfo { app_name: String, extension_count: i16 },
    /// one extension the client supports, with its version
    ExtEntry { ext_name: String, version: i32 },
    /// the level of custom blocks the client supports
    CustomBlockSupportLevel { support_level: u8 },
}

/// A packet sent by a client. Positions are fixed-point, in 1/32 of a block.
#[derive(Debug)]
pub enum ClientPacket {
    /// a client identifying itself to the server
    PlayerIdentification { protocol_version: u8, username: String, verification_key: String, magic_number: u8 },
    /// a client changing a block; mode 0 destroys, 1 creates
    SetBlock { x: i16, y: i16, z: i16, mode: u8, block_type: u8 },
    /// the client's position and orientation
    PositionOrientation { player_id_or_held_block: i8, x: i16, y: i16, z: i16, yaw: u8, pitch: u8 },
    /// a chat message
    Message { player_id: i8, message: String },
    /// a packet of the extension protocol
    Extended(ExtendedClientPacket),
}

/// The size of the body of each known client packet, without its id byte.
pub open spec fn client_size(id: u8) -> Option<nat> {
    if id == 0x00 {
        Some(130)
    } else if id == 0x05 {
        Some(8)
    } else if id == 0x08 {
        Some(9)
    } else if id == 0x0d {
        Some(65)
    } else {
        extended_size(id)
    }
}

/// The size of the body of each known extension packet, without its id byte.
pub open spec fn extended_size(id: u8) -> Option<nat> {
    if id == 0x10 {
        Some(66)
    } else if id == 0x11 {
        Some(68)
    } else if id == 0x13 {
        Some(1)
    } else {
        None
    }
}

/// Whether `p` is what the body `b` of an extension packet with id `id` holds.
pub open spec fn decodes_extended(id: u8, b: Seq<u8>, p: ExtendedClientPacket) -> bool {
    match p {
        ExtendedClientPacket::ExtInfo { app_name, extension_count } =>
            id == 0x10 && app_name@ == string_at(b, 0) && extension_count == i16_at(b, 64),
        ExtendedClientPacket::ExtEntry { ext_name, version } =>
            id == 0x11 && ext_name@ == string_at(b, 0) && version == i32_at(b, 64),
        ExtendedClientPacket::CustomBlockSupportLevel { support_level } =>
            id == 0x13 && support_level == u8_at(b, 0),
    }
}

/// Whether `p` is what the body `b` of a client packet with id `id` holds.
pub open spec fn decodes(id: u8, b: Seq<u8>, p: ClientPacket) -> bool {
    match p {
        ClientPacket::PlayerIdentification { protocol_version, username, verification_key, magic_number } =>
            id == 0x00 && protocol_version == u8_at(b, 0) && username@ == string_at(b, 1)
                && verification_key@ == string_at(b, 65) && magic_number == u8_at(b, 129),
        ClientPacket::SetBlock { x, y, z, mode, block_type } =>
            id == 0x05 && x == i16_at(b, 0) && y == i16_at(b, 2) && z == i16_at(b, 4)
                && mode == u8_at(b, 6) && block_type == u8_at(b, 7),
        ClientPacket::PositionOrientation { player_id_or_held_block, x, y, z, yaw, pitch } =>
            id == 0x08 && player_id_or_held_block == b[0] as i8 && x == i16_at(b, 1) && y == i16_at(b, 3)
                && z == i16_at(b, 5) && yaw == u8_at(b, 7) && pitch == u8_at(b, 8),
        ClientPacket::Message { player_id, message } =>
            id == 0x0d && player_id == b[0] as i8 && message@ == string_at(b, 1),
        ClientPacket::Extended(e) => decodes_extended(id, b, e),
    }
}

impl ExtendedClientPacket {
    /// Gets the size of an extension packet's body from its id.
    pub fn get_size_from_id(id: u8) -> (r: Option<usize>)
        ensures
            r matches Some(n) ==> extended_size(id) == Some(n as nat),
            r is None ==> extended_size(id) is None,
    {
        if id == 0x10 {
            Some(STRING_LENGTH + 2)
        } else if id == 0x11 {
            Some(STRING_LENGTH + 4)
        } else if id == 0x13 {
            Some(1)
        } else {
            None
        }
    }

    /// Reads an extension packet's body; `None` for an unknown id or a short buffer.
    pub fn read(id: u8, buf: &[u8]) -> (r: Option<ExtendedClientPacket>)
        ensures
            r is Some <==> (extended_size(id) matches Some(n) && buf@.len() >= n),
            r matches Some(p) ==> decodes_extended(id, buf@, p),
    {
        let n = match ExtendedClientPacket::get_size_from_id(id) {
            Some(n) => n,
            None => return None,
        };
        if buf.len() < n {
            return None;
        }
        if id == 0x10 {
            Some(ExtendedClientPacket::ExtInfo { app_name: read_string(buf, 0), extension_count: read_i16(buf, 64) })
        } else if id == 0x11 {
            Some(ExtendedClientPacket::ExtEntry { ext_name: read_string(buf, 0), version: read_i32(buf, 64) })
        } else {
            Some(ExtendedClientPacket::CustomBlockSupportLevel { support_level: read_u8(buf, 0) })
        }
    }
}

impl ClientPacket {
    /// Gets the size of a packet's body from its id, without the id byte.
    pub fn get_size_from_id(id: u8) -> (r: Option<usize>)
        ensures
            r matches Some(n) ==> client_size(id) == Some(n as nat),
            r is None ==> client_size(id) is None,
    {
        if id == 0x00 {
            Some(1 + STRING_LENGTH + STRING_LENGTH + 1)
        } else if id == 0x05 {
            Some(2 + 2 + 2 + 1 + 1)
        } else if id == 0x08 {
            Some(1 + 2 + 2 + 2 + 1 + 1)
        } else if id == 0x0d {
            Some(1 + STRING_LENGTH)
        } else {
            ExtendedClientPacket::get_size_from_id(id)
        }
    }

    /// Reads a packet's body; `None` for an unknown id or a buffer shorter than the id's size.
    pub fn read(id: u8, buf: &[u8]) -> (r: Option<ClientPacket>)
        ensures
            r is Some <==> (client_size(id) matches Some(n) && buf@.len() >= n),
            r matches Some(p) ==> decodes(id, buf@, p),
    {
        let n = match ClientPacket::get_size_from_id(id) {
            Some(n) => n,
            None => return None,
        };
        if buf.len() < n {
            return None;
        }
        if id == 0x00 {
            Some(ClientPacket::PlayerIdentification {
                protocol_version: read_u8(buf, 0),
                username: read_string(buf, 1),
                verification_key: read_string(buf, 65),
                magic_number: read_u8(buf, 129),
            })
        } else if id == 0x05 {
            Some(ClientPacket::SetBlock {
                x: read_i16(buf, 0),
                y: read_i16(buf, 2),
                z: read_i16(buf, 4),
                mode: read_u8(buf, 6),
                block_type: read_u8(buf, 7),
            })
        } else if id == 0x08 {
            Some(ClientPacket::PositionOrientation {
                player_id_or_held_block: read_i8(buf, 0),
                x: read_i16(buf, 1),
                y: read_i16(buf, 3),
                z: read_i16(buf, 5),
                yaw: read_u8(buf, 7),
                pitch: read_u8(buf, 8),
            })
        } else if id == 0x0d {
            Some(ClientPacket::Message { player_id: read_i8(buf, 0), message: read_string(buf, 1) })
        } else {
            match ExtendedClientPacket::read(id, buf) {
                Some(e) => Some(ClientPacket::Extended(e)),
                None => None,
            }
        }
    }
}

} // verus!
