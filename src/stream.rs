use vstd::prelude::*;

use std::io::Write;

use crate::block::{classic_block, classic_view, MAX_CLASSIC_ID};
use crate::level::Level;
use crate::packet::server::ServerPacket;
use crate::packet::{be32, ExtBitmask, Extension, ARRAY_LENGTH};

verus! {

/// The outcome of compressing some bytes into a gzip stream at the best compression level with
/// an empty header: the stream, or `None` where the encoder reports an error.
pub uninterp spec fn gzip_best(data: Seq<u8>) -> Option<Seq<u8>>;

/// Relies on `flate2::write::GzEncoder` with `Compression::best()` writing into a `Vec`: the
/// finished stream is the gzip encoding of the bytes written, with mtime 0 and OS byte 255 in its
/// header, so it depends on those bytes alone, and so does whether it fails.
#[verifier::external_body]
fn gzip(data: &[u8]) -> (r: Option<Vec<u8>>)
    ensures
        r is Some <==> gzip_best(data@) is Some,
        r matches Some(v) ==> gzip_best(data@) == Some(v@),
{
    let mut e = flate2::write::GzEncoder::new(Vec::new(), flate2::Compression::best());
    match e.write_all(data) {
        Ok(()) => e.finish().ok(),
        Err(_) => None,
    }
}

/// The block ids as a client sees them: as they are with custom blocks, else each custom id
/// replaced by its fallback.
pub open spec fn visible_blocks(blocks: Seq<u8>, custom: bool) -> Seq<u8> {
    if custom {
        blocks
    } else {
        blocks.map_values(|b: u8| classic_view(b))
    }
}

/// The level data before compression: the volume as four big-endian bytes, then the blocks.
pub open spec fn level_payload(blocks: Seq<u8>, custom: bool) -> Seq<u8> {
    be32(blocks.len() as u32) + visible_blocks(blocks, custom)
}

/// The number of 1024-byte chunks of `n` bytes.
pub open spec fn chunk_count(n: nat) -> nat {
    ((n + ARRAY_LENGTH - 1) / (ARRAY_LENGTH as int)) as nat
}

/// The end of chunk `k` of `n` bytes.
pub open spec fn chunk_end(n: nat, k: int) -> int {
    if (k + 1) * ARRAY_LENGTH <= n {
        (k + 1) * ARRAY_LENGTH
    } else {
        n as int
    }
}

/// The packet carrying chunk `k` of the compressed data `g`, with the share of `g` sent once it
/// has arrived.
pub open spec fn chunk_packet_ok(p: ServerPacket, g: Seq<u8>, k: int) -> bool {
    let start = k * ARRAY_LENGTH;
    let end = chunk_end(g.len(), k);
    match p {
        ServerPacket::LevelDataChunk { chunk_length, chunk_data, percent_complete } => {
            &&& chunk_length as int == end - start
            &&& chunk_data@ == g.subrange(start, end)
            &&& percent_complete == (end * 100 / (g.len() as int)) as u8
        },
        _ => false,
    }
}

/// Whether `r` is the level stream for a level of dimensions `dims` whose compressed data is `g`:
/// `LevelInitialize`, one `LevelDataChunk` per 1024 bytes of `g`, then `LevelFinalize`.
pub open spec fn level_stream_ok(r: Seq<ServerPacket>, dims: (usize, usize, usize), g: Seq<u8>) -> bool {
    &&& r.len() == chunk_count(g.len()) + 2
    &&& r[0] is LevelInitialize
    &&& forall|k: int| 0 <= k < chunk_count(g.len()) ==> chunk_packet_ok(#[trigger] r[k + 1], g, k)
    &&& r.last() == (ServerPacket::LevelFinalize {
        x_size: dims.0 as i16,
        y_size: dims.1 as i16,
        z_size: dims.2 as i16,
    })
}

/// Whether the client sees custom blocks: it negotiated them and supports level 1 or more.
pub open spec fn sees_custom(ext: ExtBitmask, support_level: u8) -> bool {
    ext.has(Extension::CustomBlocks) && support_level >= 1
}

/// The level data before compression, with custom blocks replaced unless `custom`.
pub fn level_payload_bytes(level: &Level, custom: bool) -> (r: Vec<u8>)
    requires
        level.wf(),
    ensures
        r@ == level_payload(level.blocks@, custom),
{
    let n = level.blocks.len();
    let v = n as u32;
    let mut data: Vec<u8> = Vec::new();
    data.push((v / 0x100_0000) as u8);
    data.push(((v / 0x1_0000) % 256) as u8);
    data.push(((v / 256) % 256) as u8);
    data.push((v % 256) as u8);
    assert(data@ =~= be32(v));
    let mut i: usize = 0;
    while i < n
        invariant
            i <= n,
            n == level.blocks@.len(),
            v == n as u32,
            data@ == be32(v) + visible_blocks(level.blocks@, custom).take(i as int),
        decreases n - i,
    {
        let b = level.blocks[i];
        let shown = if custom || b <= MAX_CLASSIC_ID { b } else { classic_block(b) };
        data.push(shown);
        assert(visible_blocks(level.blocks@, custom).take(i + 1) =~= visible_blocks(level.blocks@, custom).take(i as int).push(shown));
        i = i + 1;
    }
    assert(visible_blocks(level.blocks@, custom).take(n as int) =~= visible_blocks(level.blocks@, custom));
    data
}

/// Splits compressed level data into the level stream: `LevelInitialize`, one `LevelDataChunk`
/// per 1024 bytes (the last one shorter, zero-padded on the wire) with the percentage sent once
/// it has arrived, then `LevelFinalize` with the dimensions.
pub fn chunk_packets(level: &Level, g: &Vec<u8>) -> (r: Vec<ServerPacket>)
    ensures
        level_stream_ok(r@, level.dims(), g@),
{
    let n = g.len();
    let mut packets: Vec<ServerPacket> = Vec::new();
    packets.push(ServerPacket::LevelInitialize);
    let mut start: usize = 0;
    let mut k: usize = 0;
    while start < n
        invariant
            n == g@.len(),
            start <= n,
            start < n ==> start == k * ARRAY_LENGTH,
            k <= chunk_count(n as nat),
            start < n ==> k < chunk_count(n as nat),
            start >= n ==> k == chunk_count(n as nat),
            packets@.len() == k + 1,
            packets@[0] is LevelInitialize,
            forall|j: int| 0 <= j < k ==> chunk_packet_ok(#[trigger] packets@[j + 1], g@, j),
        decreases n - start,
    {
        let end = if n - start >= ARRAY_LENGTH { start + ARRAY_LENGTH } else { n };
        let mut chunk: Vec<u8> = Vec::new();
        let mut i: usize = start;
        while i < end
            invariant
                start <= i <= end,
                end <= n,
                n == g@.len(),
                chunk@ == g@.subrange(start as int, i as int),
            decreases end - i,
        {
            chunk.push(g[i]);
            assert(chunk@ =~= g@.subrange(start as int, i + 1));
            i = i + 1;
        }
        let percent = ((end as u128) * 100 / (n as u128)) as u8;
        let ghost before = packets@;
        packets.push(ServerPacket::LevelDataChunk {
            chunk_length: (end - start) as i16,
            chunk_data: chunk,
            percent_complete: percent,
        });
        proof {
            assert(end as int == chunk_end(n as nat, k as int));
            assert(chunk_packet_ok(packets@[k + 1], g@, k as int));
            assert forall|j: int| 0 <= j < k + 1 implies chunk_packet_ok(#[trigger] packets@[j + 1], g@, j) by {
                if j < k {
                    assert(packets@[j + 1] == before[j + 1]);
                }
            }
            assert((k + 1) * ARRAY_LENGTH < n ==> k + 1 < chunk_count(n as nat)) by (nonlinear_arith)
                requires (k as int) * ARRAY_LENGTH < n;
            assert(n <= (k + 1) * ARRAY_LENGTH ==> k + 1 == chunk_count(n as nat)) by (nonlinear_arith)
                requires (k as int) * ARRAY_LENGTH < n;
        }
        start = end;
        k = k + 1;
    }
    packets.push(ServerPacket::LevelFinalize {
        x_size: #[verifier::truncate] (level.x_size as i16),
        y_size: #[verifier::truncate] (level.y_size as i16),
        z_size: #[verifier::truncate] (level.z_size as i16),
    });
    packets
}

/// Builds the packets that stream the level to a client: the payload (custom blocks replaced for
/// clients that do not see them) is gzip-compressed and split into chunks. `None` only if
/// compression fails.
pub fn build_level_packets(level: &Level, extensions: ExtBitmask, custom_blocks_support_level: u8) -> (r: Option<Vec<ServerPacket>>)
    requires
        level.wf(),
    ensures
        r is Some <==> gzip_best(level_payload(level.blocks@, sees_custom(extensions, custom_blocks_support_level))) is Some,
        r matches Some(ps) ==> level_stream_ok(ps@, level.dims(),
            gzip_best(level_payload(level.blocks@, sees_custom(extensions, custom_blocks_support_level)))->Some_0),
{
    let custom = extensions.contains(Extension::CustomBlocks) && custom_blocks_support_level >= 1;
    let data = level_payload_bytes(level, custom);
    match gzip(data.as_slice()) {
        Some(g) => Some(chunk_packets(level, &g)),
        None => None,
    }
}

} // verus!
