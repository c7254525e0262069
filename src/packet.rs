use vstd::prelude::*;
use vstd::utf8::encode_utf8;

pub mod client;
pub mod server;

verus! {

/// Length of classic strings.
pub const STRING_LENGTH: usize = 64;
/// Length of classic level chunk arrays.
pub const ARRAY_LENGTH: usize = 1024;
/// Units in one block of a fixed-point coordinate.
pub const F16_UNITS: i16 = 32;
/// The magic number telling that the client supports extensions.
pub const EXTENSION_MAGIC_NUMBER: u8 = 0x42;
/// The protocol version of classic clients.
pub const PROTOCOL_VERSION: u8 = 0x07;

/// The protocol extensions known to the server.
#[derive(Debug, Clone, Copy, PartialEq, Eq, Structural)]
pub enum Extension {
    ClickDistance,
    CustomBlocks,
    HeldBlock,
    EmoteFix,
    TextHotKey,
    ExtPlayerList,
    EnvColors,
    SelectionCuboid,
    BlockPermissions,
    ChangeModel,
    EnvMapAppearance,
    EnvWeatherType,
    HackControl,
    MessageTypes,
    PlayerClick,
    LongerMessages,
    FullCP437,
    BlockDefinitions,
    BlockDefinitionsExt,
    BulkBlockUpdate,
    TextColors,
    EnvMapAspect,
    EntityProperty,
    ExtEntityPositions,
    TwoWayPing,
    InventoryOrder,
    InstantMOTD,
    ExtendedBlocks,
    FastMap,
    ExtendedTextures,
    SetHotbar,
    SetSpawnpoint,
    VelocityControl,
    CustomParticles,
    CustomModelsV2,
    ExtEntityTeleport,
}

/// The bit of an extension in an `ExtBitmask`.
pub open spec fn ext_pos(e: Extension) -> u64 {
    match e {
        Extension::ClickDistance => 0,
        Extension::CustomBlocks => 1,
        Extension::HeldBlock => 2,
        Extension::EmoteFix => 3,
        Extension::TextHotKey => 4,
        Extension::ExtPlayerList => 5,
        Extension::EnvColors => 6,
        Extension::SelectionCuboid => 7,
        Extension::BlockPermissions => 8,
        Extension::ChangeModel => 9,
        Extension::EnvMapAppearance => 10,
        Extension::EnvWeatherType => 11,
        Extension::HackControl => 12,
        Extension::MessageTypes => 13,
        Extension::PlayerClick => 14,
        Extension::LongerMessages => 15,
        Extension::FullCP437 => 16,
        Extension::BlockDefinitions => 17,
        Extension::BlockDefinitionsExt => 18,
        Extension::BulkBlockUpdate => 19,
        Extension::TextColors => 20,
        Extension::EnvMapAspect => 21,
        Extension::EntityProperty => 22,
        Extension::ExtEntityPositions => 23,
        Extension::TwoWayPing => 24,
        Extension::InventoryOrder => 25,
        Extension::InstantMOTD => 26,
        Extension::ExtendedBlocks => 27,
        Extension::FastMap => 28,
        Extension::ExtendedTextures => 29,
        Extension::SetHotbar => 30,
        Extension::SetSpawnpoint => 31,
        Extension::VelocityControl => 32,
        Extension::CustomParticles => 33,
        Extension::CustomModelsV2 => 34,
        Extension::ExtEntityTeleport => 35,
    }
}

/// Every known extension, in the order of their bits.
pub open spec fn all_extensions() -> Seq<Extension> {
    seq![Extension::ClickDistance, Extension::CustomBlocks, Extension::HeldBlock, Extension::EmoteFix, Extension::TextHotKey, Extension::ExtPlayerList, Extension::EnvColors, Extension::SelectionCuboid, Extension::BlockPermissions, Extension::ChangeModel, Extension::EnvMapAppearance, Extension::EnvWeatherType, Extension::HackControl, Extension::MessageTypes, Extension::PlayerClick, Extension::LongerMessages, Extension::FullCP437, Extension::BlockDefinitions, Extension::BlockDefinitionsExt, Extension::BulkBlockUpdate, Extension::TextColors, Extension::EnvMapAspect, Extension::EntityProperty, Extension::ExtEntityPositions, Extension::TwoWayPing, Extension::InventoryOrder, Extension::InstantMOTD, Extension::ExtendedBlocks, Extension::FastMap, Extension::ExtendedTextures, Extension::SetHotbar, Extension::SetSpawnpoint, Extension::VelocityControl, Extension::CustomParticles, Extension::CustomModelsV2, Extension::ExtEntityTeleport]
}

/// Whether the server supports an extension.
pub open spec fn ext_supported(e: Extension) -> bool {
    match e {
        Extension::CustomBlocks => true,
        Extension::HeldBlock => true,
        Extension::EmoteFix => true,
        Extension::EnvWeatherType => true,
        Extension::FullCP437 => true,
        _ => false,
    }
}

/// The name under which a supported extension is announced.
pub open spec fn ext_name(e: Extension) -> Seq<char> {
    match e {
        Extension::CustomBlocks => "CustomBlocks"@,
        Extension::HeldBlock => "HeldBlock"@,
        Extension::EmoteFix => "EmoteFix"@,
        Extension::EnvWeatherType => "EnvWeatherType"@,
        Extension::FullCP437 => "FullCP437"@,
        _ => Seq::empty(),
    }
}

impl Extension {
    /// The bit of this extension in an `ExtBitmask`.
    pub fn pos(&self) -> (r: u64)
        ensures
            r == ext_pos(*self),
            r < 36,
    {
        match self {
            Extension::ClickDistance => 0,
            Extension::CustomBlocks => 1,
            Extension::HeldBlock => 2,
            Extension::EmoteFix => 3,
            Extension::TextHotKey => 4,
            Extension::ExtPlayerList => 5,
            Extension::EnvColors => 6,
            Extension::SelectionCuboid => 7,
            Extension::BlockPermissions => 8,
            Extension::ChangeModel => 9,
            Extension::EnvMapAppearance => 10,
            Extension::EnvWeatherType => 11,
            Extension::HackControl => 12,
            Extension::MessageTypes => 13,
            Extension::PlayerClick => 14,
            Extension::LongerMessages => 15,
            Extension::FullCP437 => 16,
            Extension::BlockDefinitions => 17,
            Extension::BlockDefinitionsExt => 18,
            Extension::BulkBlockUpdate => 19,
            Extension::TextColors => 20,
            Extension::EnvMapAspect => 21,
            Extension::EntityProperty => 22,
            Extension::ExtEntityPositions => 23,
            Extension::TwoWayPing => 24,
            Extension::InventoryOrder => 25,
            Extension::InstantMOTD => 26,
            Extension::ExtendedBlocks => 27,
            Extension::FastMap => 28,
            Extension::ExtendedTextures => 29,
            Extension::SetHotbar => 30,
            Extension::SetSpawnpoint => 31,
            Extension::VelocityControl => 32,
            Extension::CustomParticles => 33,
            Extension::CustomModelsV2 => 34,
            Extension::ExtEntityTeleport => 35,
        }
    }

    /// The name of a supported extension.
    pub fn name(&self) -> (r: Option<&'static str>)
        ensures
            ext_supported(*self) <==> r is Some,
            r matches Some(n) ==> n@ == ext_name(*self),
    {
        proof {
            reveal_strlit("CustomBlocks");
            reveal_strlit("HeldBlock");
            reveal_strlit("EmoteFix");
            reveal_strlit("EnvWeatherType");
            reveal_strlit("FullCP437");
        }
        match self {
            Extension::CustomBlocks => Some("CustomBlocks"),
            Extension::HeldBlock => Some("HeldBlock"),
            Extension::EmoteFix => Some("EmoteFix"),
            Extension::EnvWeatherType => Some("EnvWeatherType"),
            Extension::FullCP437 => Some("FullCP437"),
            _ => None,
        }
    }
}

proof fn lemma_pos_injective(e: Extension, f: Extension)
    ensures
        ext_pos(e) < 36,
        ext_pos(f) < 36,
        ext_pos(e) == ext_pos(f) ==> e == f,
{
}

/// Whether bit `k` of `bits` is set.
pub open spec fn has_bit(bits: u64, k: u64) -> bool {
    (bits >> k) & 1u64 == 1u64
}

proof fn lemma_set_bit(b: u64, k: u64, j: u64)
    requires
        k < 64,
        j < 64,
    ensures
        has_bit(b | (1u64 << k), j) == (has_bit(b, j) || j == k),
{
    assert(((b | (1u64 << k)) >> j) & 1u64 == 1u64 <==> (((b >> j) & 1u64 == 1u64) || j == k)) by (bit_vector)
        requires k < 64, j < 64;
}

proof fn lemma_no_bits(j: u64)
    requires
        j < 64,
    ensures
        !has_bit(0, j),
{
    assert((0u64 >> j) & 1u64 != 1u64) by (bit_vector) requires j < 64;
}

/// A set of extensions, one bit each.
#[derive(Debug, Clone, Copy, PartialEq, Eq, Structural)]
pub struct ExtBitmask {
    pub bits: u64,
}

impl ExtBitmask {
    /// Whether the set holds an extension.
    pub open spec fn has(self, e: Extension) -> bool {
        has_bit(self.bits, ext_pos(e))
    }

    /// The empty set.
    pub fn none() -> (r: ExtBitmask)
        ensures
            forall|e: Extension| !r.has(e),
    {
        proof {
            assert forall|e: Extension| !has_bit(0, ext_pos(e)) by {
                lemma_pos_injective(e, e);
                lemma_no_bits(ext_pos(e));
            }
        }
        ExtBitmask { bits: 0 }
    }

    /// Whether the set holds an extension.
    pub fn contains(&self, e: Extension) -> (r: bool)
        ensures
            r == self.has(e),
    {
        let k = e.pos();
        (self.bits >> k) & 1u64 == 1u64
    }

    /// The set with one more extension.
    pub fn with(self, e: Extension) -> (r: ExtBitmask)
        ensures
            forall|f: Extension| r.has(f) == (self.has(f) || f == e),
    {
        let k = e.pos();
        let r = ExtBitmask { bits: self.bits | (1u64 << k) };
        proof {
            assert forall|f: Extension| r.has(f) == (self.has(f) || f == e) by {
                lemma_pos_injective(e, f);
                lemma_set_bit(self.bits, k, ext_pos(f));
            }
        }
        r
    }
}

/// Information about a protocol extension.
#[derive(Debug)]
pub struct ExtInfo {
    /// the extension's name
    pub ext_name: String,
    /// the extension's version
    pub version: i32,
    /// the bitmask for the extension
    pub bitmask: ExtBitmask,
}

impl ExtInfo {
    /// Creates new extension info.
    pub fn new(ext_name: String, version: i32, bitmask: ExtBitmask) -> (r: ExtInfo)
        ensures
            r.ext_name@ == ext_name@,
            r.version == version,
            r.bitmask == bitmask,
    {
        ExtInfo { ext_name, version, bitmask }
    }
}

/// The supported extensions that a set holds, in the order of their bits.
pub open spec fn contained_supported(mask: ExtBitmask, es: Seq<Extension>) -> Seq<Extension>
    decreases es.len(),
{
    if es.len() == 0 {
        Seq::empty()
    } else {
        let rest = contained_supported(mask, es.drop_last());
        if mask.has(es.last()) && ext_supported(es.last()) {
            rest.push(es.last())
        } else {
            rest
        }
    }
}

/// Whether `info` announces extension `e` at version 1.
pub open spec fn describes(info: ExtInfo, e: Extension) -> bool {
    &&& info.ext_name@ == ext_name(e)
    &&& info.version == 1
    &&& forall|f: Extension| info.bitmask.has(f) <==> f == e
}

fn all_extensions_vec() -> (r: Vec<Extension>)
    ensures
        r@ == all_extensions(),
{
    let v = vec![Extension::ClickDistance, Extension::CustomBlocks, Extension::HeldBlock, Extension::EmoteFix, Extension::TextHotKey, Extension::ExtPlayerList, Extension::EnvColors, Extension::SelectionCuboid, Extension::BlockPermissions, Extension::ChangeModel, Extension::EnvMapAppearance, Extension::EnvWeatherType, Extension::HackControl, Extension::MessageTypes, Extension::PlayerClick, Extension::LongerMessages, Extension::FullCP437, Extension::BlockDefinitions, Extension::BlockDefinitionsExt, Extension::BulkBlockUpdate, Extension::TextColors, Extension::EnvMapAspect, Extension::EntityProperty, Extension::ExtEntityPositions, Extension::TwoWayPing, Extension::InventoryOrder, Extension::InstantMOTD, Extension::ExtendedBlocks, Extension::FastMap, Extension::ExtendedTextures, Extension::SetHotbar, Extension::SetSpawnpoint, Extension::VelocityControl, Extension::CustomParticles, Extension::CustomModelsV2, Extension::ExtEntityTeleport];
    assert(v@ =~= all_extensions());
    v
}

impl ExtBitmask {
    /// Information about one extension, if the server supports it.
    pub fn info(e: Extension) -> (r: Option<ExtInfo>)
        ensures
            ext_supported(e) <==> r is Some,
            r matches Some(info) ==> describes(info, e),
    {
        match e.name() {
            Some(n) => {
                let m = ExtBitmask::none().with(e);
                Some(ExtInfo::new(String::from_str(n), 1, m))
            },
            None => None,
        }
    }

    /// Information about every supported extension in the set, in the order of their bits.
    pub fn all_contained_info(self) -> (r: Vec<ExtInfo>)
        ensures
            r@.len() == contained_supported(self, all_extensions()).len(),
            forall|i: int| 0 <= i < r@.len() ==> describes(r@[i], contained_supported(self, all_extensions())[i]),
    {
        let all = all_extensions_vec();
        let mut out: Vec<ExtInfo> = Vec::new();
        let mut i: usize = 0;
        while i < all.len()
            invariant
                i <= all@.len(),
                all@ == all_extensions(),
                out@.len() == contained_supported(self, all@.take(i as int)).len(),
                forall|k: int| 0 <= k < out@.len() ==> describes(out@[k], contained_supported(self, all@.take(i as int))[k]),
            decreases all@.len() - i,
        {
            let e = all[i];
            assert(all@.take(i + 1).drop_last() =~= all@.take(i as int));
            if self.contains(e) {
                match ExtBitmask::info(e) {
                    Some(info) => out.push(info),
                    None => {},
                }
            }
            i = i + 1;
        }
        assert(all@.take(all@.len() as int) =~= all@);
        out
    }

    /// Every extension the server supports.
    pub fn supported() -> (r: ExtBitmask)
        ensures
            forall|e: Extension| r.has(e) <==> ext_supported(e),
    {
        ExtBitmask::none()
            .with(Extension::CustomBlocks)
            .with(Extension::HeldBlock)
            .with(Extension::EmoteFix)
            .with(Extension::EnvWeatherType)
            .with(Extension::FullCP437)
    }
}

/// Two bytes, big-endian.
pub open spec fn be16(v: u16) -> Seq<u8> {
    seq![(v / 256) as u8, (v % 256) as u8]
}

/// Four bytes, big-endian.
pub open spec fn be32(v: u32) -> Seq<u8> {
    seq![(v / 0x100_0000) as u8, ((v / 0x1_0000) % 256) as u8, ((v / 256) % 256) as u8, (v % 256) as u8]
}

/// Exactly `len` bytes: the first bytes of `b`, then `pad` for the rest.
pub open spec fn padded(b: Seq<u8>, len: nat, pad: u8) -> Seq<u8> {
    Seq::new(len, |i: int| if i < b.len() { b[i] } else { pad })
}

/// A protocol string: its UTF-8 bytes in exactly 64 bytes, right-padded with spaces.
pub open spec fn string_field(s: Seq<char>) -> Seq<u8> {
    padded(encode_utf8(s), STRING_LENGTH as nat, 0x20)
}

/// A protocol byte array: exactly 1024 bytes, right-padded with zeros.
pub open spec fn array_field(b: Seq<u8>) -> Seq<u8> {
    padded(b, ARRAY_LENGTH as nat, 0)
}

/// Helper for writing a packet.
#[derive(Debug)]
pub struct PacketWriter {
    raw_packet: Vec<u8>,
}

impl View for PacketWriter {
    type V = Seq<u8>;

    closed spec fn view(&self) -> Seq<u8> {
        self.raw_packet@
    }
}

impl PacketWriter {
    /// A writer holding no bytes.
    pub fn new() -> (r: PacketWriter)
        ensures
            r@ == Seq::<u8>::empty(),
    {
        PacketWriter { raw_packet: Vec::new() }
    }

    /// Gets the bytes written so far.
    pub fn into_raw_packet(self) -> (r: Vec<u8>)
        ensures
            r@ == self@,
    {
        self.raw_packet
    }

    /// Writes a u8.
    pub fn write_u8(self, b: u8) -> (r: PacketWriter)
        ensures
            r@ == self@.push(b),
    {
        let mut raw = self.raw_packet;
        raw.push(b);
        PacketWriter { raw_packet: raw }
    }

    /// Writes an i8.
    pub fn write_i8(self, b: i8) -> (r: PacketWriter)
        ensures
            r@ == self@.push(b as u8),
    {
        self.write_u8(b as u8)
    }

    /// Writes a bool as 1 or 0.
    pub fn write_bool(self, b: bool) -> (r: PacketWriter)
        ensures
            r@ == self@.push(if b { 1u8 } else { 0u8 }),
    {
        self.write_u8(if b { 1 } else { 0 })
    }

    /// Writes a u16, big-endian.
    pub fn write_u16(self, sh: u16) -> (r: PacketWriter)
        ensures
            r@ == self@ + be16(sh),
    {
        let r = self.write_u8((sh / 256) as u8).write_u8((sh % 256) as u8);
        assert(r@ =~= self@ + be16(sh));
        r
    }

    /// Writes an i16, big-endian.
    pub fn write_i16(self, sh: i16) -> (r: PacketWriter)
        ensures
            r@ == self@ + be16(sh as u16),
    {
        self.write_u16(sh as u16)
    }

    /// Writes an i32, big-endian.
    pub fn write_i32(self, i: i32) -> (r: PacketWriter)
        ensures
            r@ == self@ + be32(i as u32),
    {
        let v = i as u32;
        let r = self.write_u8((v / 0x100_0000) as u8)
            .write_u8(((v / 0x1_0000) % 256) as u8)
            .write_u8(((v / 256) % 256) as u8)
            .write_u8((v % 256) as u8);
        assert(r@ =~= self@ + be32(v));
        r
    }

    /// Writes `len` bytes: those of `bytes`, then zeros.
    pub fn write_array_of_length(self, bytes: &[u8], len: usize) -> (r: PacketWriter)
        ensures
            r@ == self@ + padded(bytes@, len as nat, 0),
    {
        self.write_padded(bytes, len, 0)
    }

    fn write_padded(self, bytes: &[u8], len: usize, pad: u8) -> (r: PacketWriter)
        ensures
            r@ == self@ + padded(bytes@, len as nat, pad),
    {
        let mut s = self;
        let mut i: usize = 0;
        while i < len
            invariant
                i <= len,
                s@ == self@ + padded(bytes@, i as nat, pad),
            decreases len - i,
        {
            let b = if i < bytes.len() { bytes[i] } else { pad };
            s = s.write_u8(b);
            assert(self@ + padded(bytes@, (i + 1) as nat, pad) =~= (self@ + padded(bytes@, i as nat, pad)).push(b));
            i = i + 1;
        }
        s
    }

    /// Writes a protocol string: 64 bytes, right-padded with spaces.
    pub fn write_string(self, str: &str) -> (r: PacketWriter)
        ensures
            r@ == self@ + string_field(str@),
    {
        let b = str.as_bytes();
        self.write_padded(b, STRING_LENGTH, 0x20)
    }

    /// Writes a protocol byte array: 1024 bytes, right-padded with zeros.
    pub fn write_array(self, bytes: &[u8]) -> (r: PacketWriter)
        ensures
            r@ == self@ + array_field(bytes@),
    {
        self.write_array_of_length(bytes, ARRAY_LENGTH)
    }
}

} // verus!
