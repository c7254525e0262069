use vstd::prelude::*;

use rand::rngs::ThreadRng;

use crate::level::{only_blocks_changed, Level};
use crate::rng::below;

verus! {

/// A layer of a flat level: a block and how many rows of it.
#[derive(Debug, Clone, Copy, PartialEq, Eq, Structural)]
pub struct FlatLayer {
    /// the block of the layer
    pub block: u8,
    /// the number of rows
    pub depth: usize,
}

/// The presets of flat levels.
#[derive(Debug)]
pub enum FlatPreset {
    /// mostly stone, then three rows of dirt, then a row of grass
    StoneAndGrass,
    /// the layers given, from the bottom up
    Custom { layers: Vec<FlatLayer> },
}

/// How a new level is generated.
#[derive(Debug)]
pub enum LevelGeneration {
    /// nothing but air
    Empty,
    /// random classic blocks up to the given height
    FullRandom { height: usize },
    /// a flat level
    Flat(FlatPreset),
}

/// The height covered by the first `l` layers.
pub open spec fn prefix_depth(layers: Seq<FlatLayer>, l: int) -> int
    decreases l,
{
    if l <= 0 { 0 } else { prefix_depth(layers, l - 1) + layers[l - 1].depth }
}

/// The block of the layer covering row `y`, looking from layer `l` up.
pub open spec fn layer_from(layers: Seq<FlatLayer>, l: int, y: int) -> Option<u8>
    decreases layers.len() - l,
{
    if l < 0 || l >= layers.len() {
        None
    } else if y < prefix_depth(layers, l + 1) {
        Some(layers[l].block)
    } else {
        layer_from(layers, l + 1, y)
    }
}

/// The block of the layer covering row `y` of a flat level, counting from the bottom.
pub open spec fn layer_at(layers: Seq<FlatLayer>, y: int) -> Option<u8> {
    layer_from(layers, 0, y)
}

proof fn lemma_prefix_monotone(layers: Seq<FlatLayer>, a: int, b: int)
    requires
        0 <= a <= b <= layers.len(),
    ensures
        prefix_depth(layers, a) <= prefix_depth(layers, b),
    decreases b - a,
{
    if a < b {
        lemma_prefix_monotone(layers, a, b - 1);
    }
}

proof fn lemma_layer_from(layers: Seq<FlatLayer>, j: int, l: int, y: int)
    requires
        0 <= j <= l,
        prefix_depth(layers, l) <= y,
        l <= layers.len(),
    ensures
        l < layers.len() && y < prefix_depth(layers, l + 1) ==> layer_from(layers, j, y) == Some(layers[l].block),
        l == layers.len() ==> layer_from(layers, j, y) is None,
    decreases l - j,
{
    if j < l {
        lemma_prefix_monotone(layers, j + 1, l);
        lemma_layer_from(layers, j + 1, l, y);
    }
}

/// Fills row `y` of the level with one block.
fn fill_row(level: &mut Level, y: usize, block: u8)
    requires
        old(level).wf(),
        y < old(level).y_size,
    ensures
        final(level).wf(),
        final(level).dims() == old(level).dims(),
        only_blocks_changed(old(level), final(level)),
        forall|x: usize, z: usize| x < final(level).x_size && z < final(level).z_size
            ==> #[trigger] final(level).block_at(x, y, z) == block,
        forall|i: int| 0 <= i < old(level).blocks@.len() && old(level).spec_coordinates(i).1 != y
            ==> final(level).blocks@[i] == old(level).blocks@[i],
{
    let ghost start = *level;
    let mut x: usize = 0;
    while x < level.x_size
        invariant
            level.wf(),
            start.wf(),
            level.dims() == start.dims(),
            only_blocks_changed(&start, level),
            y < level.y_size,
            x <= level.x_size,
            forall|a: usize, c: usize| a < x && c < level.z_size ==> #[trigger] level.block_at(a, y, c) == block,
            forall|i: int| 0 <= i < start.blocks@.len() && start.spec_coordinates(i).1 != y
                ==> level.blocks@[i] == start.blocks@[i],
        decreases level.x_size - x,
    {
        let mut z: usize = 0;
        while z < level.z_size
            invariant
                level.wf(),
                start.wf(),
                level.dims() == start.dims(),
                only_blocks_changed(&start, level),
                y < level.y_size,
                x < level.x_size,
                z <= level.z_size,
                forall|a: usize, c: usize| a < x && c < level.z_size ==> #[trigger] level.block_at(a, y, c) == block,
                forall|c: usize| c < z ==> #[trigger] level.block_at(x, y, c) == block,
                forall|i: int| 0 <= i < start.blocks@.len() && start.spec_coordinates(i).1 != y
                    ==> level.blocks@[i] == start.blocks@[i],
            decreases level.z_size - z,
        {
            proof { level.lemma_index_round_trip(x, y, z); }
            let ghost before = *level;
            level.set_block(x, y, z, block);
            proof {
                let k = before.spec_index(x, y, z);
                assert forall|a: usize, c: usize| a < x && c < level.z_size implies #[trigger] level.block_at(a, y, c) == block by {
                    before.lemma_index_round_trip(a, y, c);
                    assert(before.block_at(a, y, c) == block);
                    if before.spec_index(a, y, c) == k {
                        assert(before.spec_coordinates(k) == (a, y, c));
                    }
                    assert(level.block_at(a, y, c) == level.blocks@[before.spec_index(a, y, c)]);
                }
                assert forall|c: usize| c < z + 1 implies #[trigger] level.block_at(x, y, c) == block by {
                    before.lemma_index_round_trip(x, y, c);
                    if c < z {
                        assert(before.block_at(x, y, c) == block);
                        if before.spec_index(x, y, c) == k {
                            assert(before.spec_coordinates(k) == (x, y, c));
                        }
                    }
                    assert(level.block_at(x, y, c) == level.blocks@[before.spec_index(x, y, c)]);
                }
                assert forall|i: int| 0 <= i < start.blocks@.len() && start.spec_coordinates(i).1 != y
                    implies level.blocks@[i] == start.blocks@[i] by {
                    assert(start.x_size == before.x_size && start.z_size == before.z_size);
                    if i == k {
                        assert(before.spec_coordinates(k) == (x, y, z));
                        assert(start.spec_coordinates(i) == before.spec_coordinates(i));
                    } else {
                        assert(level.blocks@ == before.blocks@.update(k, block));
                        assert(before.blocks@.len() == start.blocks@.len());
                        assert(level.blocks@[i] == before.blocks@[i]);
                        assert(before.blocks@[i] == start.blocks@[i]);
                    }
                }
            }
            z = z + 1;
        }
        x = x + 1;
    }
}

/// The layers of the stone-and-grass preset for a level of height `h`: stone up to four rows below
/// half the height, three rows of dirt, then a row of grass.
pub open spec fn stone_and_grass(h: usize) -> Seq<FlatLayer> {
    seq![
        FlatLayer { block: 0x01, depth: if h / 2 >= 4 { (h / 2 - 4) as usize } else { 0usize } },
        FlatLayer { block: 0x03, depth: 3 },
        FlatLayer { block: 0x02, depth: 1 },
    ]
}

/// Whether every row of the level below `top` holds its layer's block, and every other cell
/// holds what it held in `start`.
pub open spec fn layered(level: &Level, start: &Level, layers: Seq<FlatLayer>, top: int) -> bool {
    forall|x: usize, y: usize, z: usize| x < level.x_size && y < level.y_size && z < level.z_size ==>
        #[trigger] level.block_at(x, y, z) == if y < top && layer_at(layers, y as int) is Some {
            layer_at(layers, y as int)->Some_0
        } else {
            start.block_at(x, y, z)
        }
}

/// Lays flat layers from the bottom up: each row covered by a layer holds the layer's block;
/// rows above the last layer are left as they were, and layers above the top are dropped.
pub fn lay_layers(level: &mut Level, layers: &Vec<FlatLayer>)
    requires
        old(level).wf(),
    ensures
        final(level).wf(),
        final(level).dims() == old(level).dims(),
        only_blocks_changed(old(level), final(level)),
        layered(final(level), old(level), layers@, final(level).y_size as int),
{
    let ghost start = *level;
    let mut y: usize = 0;
    let mut l: usize = 0;
    while l < layers.len()
        invariant
            level.wf(),
            start.wf(),
            start == *old(level),
            level.dims() == start.dims(),
            only_blocks_changed(&start, level),
            l <= layers@.len(),
            y == prefix_depth(layers@, l as int),
            y <= level.y_size,
            layered(level, &start, layers@, y as int),
        decreases layers@.len() - l,
    {
        let layer = layers[l];
        let mut d: usize = 0;
        while d < layer.depth
            invariant
                level.wf(),
                start.wf(),
                start == *old(level),
                level.dims() == start.dims(),
                only_blocks_changed(&start, level),
                l < layers@.len(),
                layer == layers@[l as int],
                d <= layer.depth,
                y == prefix_depth(layers@, l as int) + d,
                y <= level.y_size,
                layered(level, &start, layers@, y as int),
            decreases layer.depth - d,
        {
            if y >= level.y_size {
                proof {
                    assert forall|x: usize, r: usize, z: usize| x < level.x_size && r < level.y_size && z < level.z_size implies
                        #[trigger] level.block_at(x, r, z) == if r < level.y_size && layer_at(layers@, r as int) is Some {
                            layer_at(layers@, r as int)->Some_0
                        } else {
                            start.block_at(x, r, z)
                        } by {
                        assert(level.block_at(x, r, z) == if r < y && layer_at(layers@, r as int) is Some {
                            layer_at(layers@, r as int)->Some_0
                        } else {
                            start.block_at(x, r, z)
                        });
                    }
                }
                return;
            }
            let ghost before = *level;
            fill_row(level, y, layer.block);
            proof {
                assert forall|x: usize, r: usize, z: usize| x < level.x_size && r < level.y_size && z < level.z_size implies
                    #[trigger] level.block_at(x, r, z) == if r < y + 1 && layer_at(layers@, r as int) is Some {
                        layer_at(layers@, r as int)->Some_0
                    } else {
                        start.block_at(x, r, z)
                    } by {
                    before.lemma_index_round_trip(x, r, z);
                    assert(before.block_at(x, r, z) == if r < y && layer_at(layers@, r as int) is Some {
                        layer_at(layers@, r as int)->Some_0
                    } else {
                        start.block_at(x, r, z)
                    });
                    if r == y {
                        lemma_layer_from(layers@, 0, l as int, r as int);
                    } else {
                        assert(before.spec_coordinates(before.spec_index(x, r, z)).1 != y);
                        assert(level.blocks@[before.spec_index(x, r, z)] == before.blocks@[before.spec_index(x, r, z)]);
                    }
                }
            }
            y = y + 1;
            d = d + 1;
        }
        l = l + 1;
    }
    proof {
        assert forall|x: usize, r: usize, z: usize| x < level.x_size && r < level.y_size && z < level.z_size implies
            #[trigger] level.block_at(x, r, z) == if r < level.y_size && layer_at(layers@, r as int) is Some {
                layer_at(layers@, r as int)->Some_0
            } else {
                start.block_at(x, r, z)
            } by {
            assert(level.block_at(x, r, z) == if r < y && layer_at(layers@, r as int) is Some {
                layer_at(layers@, r as int)->Some_0
            } else {
                start.block_at(x, r, z)
            });
            if r >= y {
                lemma_layer_from(layers@, 0, layers@.len() as int, r as int);
            }
        }
    }
}

impl LevelGeneration {
    /// Generates terrain into a level.
    pub fn generate(&self, level: &mut Level, rng: &mut ThreadRng)
        requires
            old(level).wf(),
        ensures
            final(level).wf(),
            final(level).dims() == old(level).dims(),
            only_blocks_changed(old(level), final(level)),
            *self is Empty ==> final(level).blocks@ == old(level).blocks@,
            *self matches LevelGeneration::Flat(FlatPreset::Custom { layers })
                ==> layered(final(level), old(level), layers@, final(level).y_size as int),
            *self matches LevelGeneration::Flat(FlatPreset::StoneAndGrass)
                ==> layered(final(level), old(level), stone_and_grass(old(level).y_size), final(level).y_size as int),
    {
        match self {
            LevelGeneration::Empty => {},
            LevelGeneration::FullRandom { height } => {
                let top = if *height < level.y_size { *height } else { level.y_size };
                let mut y: usize = 0;
                while y < top
                    invariant
                        level.wf(),
                        level.dims() == old(level).dims(),
                        only_blocks_changed(old(level), level),
                        top <= level.y_size,
                    decreases top - y,
                {
                    let mut x: usize = 0;
                    while x < level.x_size
                        invariant
                            level.wf(),
                            level.dims() == old(level).dims(),
                            only_blocks_changed(old(level), level),
                            y < level.y_size,
                        decreases level.x_size - x,
                    {
                        let mut z: usize = 0;
                        while z < level.z_size
                            invariant
                                level.wf(),
                                level.dims() == old(level).dims(),
                                only_blocks_changed(old(level), level),
                                y < level.y_size,
                                x < level.x_size,
                            decreases level.z_size - z,
                        {
                            let b = below(rng, 49) as u8;
                            level.set_block(x, y, z, b);
                            z = z + 1;
                        }
                        x = x + 1;
                    }
                    y = y + 1;
                }
            },
            LevelGeneration::Flat(FlatPreset::StoneAndGrass) => {
                let half = level.y_size / 2;
                let stone = if half >= 4 { half - 4 } else { 0 };
                let layers = vec![
                    FlatLayer { block: 0x01, depth: stone },
                    FlatLayer { block: 0x03, depth: 3 },
                    FlatLayer { block: 0x02, depth: 1 },
                ];
                assert(layers@ =~= stone_and_grass(level.y_size));
                lay_layers(level, &layers);
            },
            LevelGeneration::Flat(FlatPreset::Custom { layers }) => {
                lay_layers(level, layers);
            },
        }
    }
}

} // verus!
