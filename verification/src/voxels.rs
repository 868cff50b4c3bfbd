use crate::coordmap::{lemma_pairs_domain, lemma_pairs_index, lemma_pairs_push, lemma_pairs_update,
    pairs_to_map, unique_keys};
use crate::ivec::{euclid_div_rem_32, IVec3};
use vstd::arithmetic::div_mod::{lemma_fundamental_div_mod, lemma_fundamental_div_mod_converse,
    lemma_mod_bound};
use vstd::prelude::*;

verus! {

/// Voxels per chunk edge.
pub const CHUNK_SIDE: usize = 32;

/// Voxels per chunk layer.
pub const CHUNK_AREA: usize = CHUNK_SIDE * CHUNK_SIDE;

/// Voxels per chunk.
pub const CHUNK_VOLUME: usize = CHUNK_AREA * CHUNK_SIDE;

/// One voxel: a plain four-byte record. `id == 0` denotes empty space.
#[derive(Clone, Copy, PartialEq, Eq, Structural, Debug)]
pub struct Block {
    pub id: u8,
    pub properties: u8,
    pub light0: u8,
    pub light1: u8,
}

/// The all-zero block: empty space, no properties, no light.
pub open spec fn block_zero() -> Block {
    Block { id: 0, properties: 0, light0: 0, light1: 0 }
}

/// The block a given id denotes, with no properties and no light.
pub open spec fn block_from_id(id: u8) -> Block {
    Block { id, properties: 0, light0: 0, light1: 0 }
}

impl Block {
    pub fn from_id(id: u8) -> (r: Block)
        ensures
            r == block_from_id(id),
    {
        Block { id, properties: 0, light0: 0, light1: 0 }
    }
}

impl Default for Block {
    fn default() -> (r: Block)
        ensures
            r == block_zero(),
    {
        Block { id: 0, properties: 0, light0: 0, light1: 0 }
    }
}

/// The four bytes of a block, in device order: a block record is byte-exact
/// for device transfer.
pub fn block_to_bytes(b: &Block) -> (r: Vec<u8>)
    ensures
        r@ == seq![b.id, b.properties, b.light0, b.light1],
{
    let mut r: Vec<u8> = Vec::new();
    r.push(b.id);
    r.push(b.properties);
    r.push(b.light0);
    r.push(b.light1);
    proof {
        assert(r@ =~= seq![b.id, b.properties, b.light0, b.light1]);
    }
    r
}

/// A block from its four bytes; the inverse of `block_to_bytes`.
pub fn block_from_bytes(bytes: &Vec<u8>) -> (r: Block)
    requires
        bytes@.len() == 4,
    ensures
        r == (Block {
            id: bytes@[0],
            properties: bytes@[1],
            light0: bytes@[2],
            light1: bytes@[3],
        }),
{
    Block { id: bytes[0], properties: bytes[1], light0: bytes[2], light1: bytes[3] }
}

/// The mathematical content of a chunk: its voxels in index order, the
/// mutation counter, and the render-invalidation flag.
#[verifier::ext_equal]
pub ghost struct ChunkModel {
    pub blocks: Seq<Block>,
    pub version: int,
    pub dirty: bool,
}

impl ChunkModel {
    pub open spec fn wf(self) -> bool {
        &&& self.blocks.len() == CHUNK_VOLUME
        &&& 0 <= self.version <= u64::MAX
    }
}

/// The model of a freshly created chunk: all voxels zero.
pub open spec fn empty_chunk_model() -> ChunkModel {
    ChunkModel {
        blocks: Seq::new(CHUNK_VOLUME as nat, |i: int| block_zero()),
        version: 0,
        dirty: false,
    }
}

/// Index of a within-chunk coordinate in the flat voxel array
/// (x-major, then y, then z).
pub open spec fn xyz2idx_spec(v: IVec3) -> int {
    v.x * (CHUNK_AREA as int) + v.y * (CHUNK_SIDE as int) + v.z
}

/// Within-chunk coordinate of a flat index.
pub open spec fn idx2xyz_spec(i: int) -> IVec3 {
    IVec3 {
        x: (i / (CHUNK_AREA as int)) as i32,
        y: ((i / (CHUNK_SIDE as int)) % (CHUNK_SIDE as int)) as i32,
        z: (i % (CHUNK_SIDE as int)) as i32,
    }
}

/// True when every component lies within a chunk's edge.
pub open spec fn inner_in_bounds(v: IVec3) -> bool {
    &&& 0 <= v.x < CHUNK_SIDE
    &&& 0 <= v.y < CHUNK_SIDE
    &&& 0 <= v.z < CHUNK_SIDE
}

/// A fixed-size dense voxel grid, the unit of storage and streaming.
/// Owns its blocks; carries a counter that increases on every mutation,
/// and a flag set when the rendered copy went stale.
#[derive(Debug)]
pub struct Chunk {
    blocks: Vec<Block>,
    pub version: u64,
    pub dirty_render: bool,
}

impl View for Chunk {
    type V = ChunkModel;

    closed spec fn view(&self) -> ChunkModel {
        ChunkModel {
            blocks: self.blocks@,
            version: self.version as int,
            dirty: self.dirty_render,
        }
    }
}

impl Chunk {
    pub open spec fn wf(self) -> bool {
        self@.wf()
    }

    /// A chunk of all-zero blocks.
    pub fn empty() -> (r: Chunk)
        ensures
            r@ == empty_chunk_model(),
            r.wf(),
    {
        let mut blocks: Vec<Block> = Vec::new();
        let mut i: usize = 0;
        while i < CHUNK_VOLUME
            invariant
                i <= CHUNK_VOLUME,
                blocks@.len() == i,
                forall|j: int| 0 <= j < i ==> blocks@[j] == block_zero(),
            decreases CHUNK_VOLUME - i,
        {
            blocks.push(Block::from_id(0));
            i = i + 1;
        }
        let r = Chunk { blocks, version: 0, dirty_render: false };
        proof {
            assert(r@.blocks =~= empty_chunk_model().blocks);
            assert(r@ =~= empty_chunk_model());
        }
        r
    }

    /// A chunk whose every block has the given id.
    pub fn filled(id: u8) -> (r: Chunk)
        ensures
            r@.blocks == Seq::new(CHUNK_VOLUME as nat, |i: int| block_from_id(id)),
            r@.version == 0,
            r@.dirty == false,
            r.wf(),
    {
        let mut blocks: Vec<Block> = Vec::new();
        let mut i: usize = 0;
        while i < CHUNK_VOLUME
            invariant
                i <= CHUNK_VOLUME,
                blocks@.len() == i,
                forall|j: int| 0 <= j < i ==> blocks@[j] == block_from_id(id),
            decreases CHUNK_VOLUME - i,
        {
            blocks.push(Block::from_id(id));
            i = i + 1;
        }
        let r = Chunk { blocks, version: 0, dirty_render: false };
        proof {
            assert(r@.blocks =~= Seq::new(CHUNK_VOLUME as nat, |i: int| block_from_id(id)));
        }
        r
    }

    /// The mutation counter.
    pub fn version(&self) -> (r: u64)
        ensures
            r as int == self@.version,
    {
        self.version
    }

    /// A read-only view of the whole voxel array.
    pub fn get_ref(&self) -> (r: &Vec<Block>)
        ensures
            r@ == self@.blocks,
    {
        &self.blocks
    }

    /// Exclusive access to the whole voxel array.  Handing out exclusive
    /// access counts as a mutation: the version is incremented up front, so
    /// version equality keeps implying unchanged contents.
    pub fn get_mut(&mut self) -> (r: &mut Vec<Block>)
        requires
            old(self)@.version < u64::MAX,
        ensures
            (*r)@ == old(self)@.blocks,
            (*final(r))@ == final(self)@.blocks,
            final(self)@.version == old(self)@.version + 1,
            final(self)@.dirty == old(self)@.dirty,
    {
        self.version = self.version + 1;
        &mut self.blocks
    }

    /// Flat index of a within-chunk coordinate.
    pub fn xyz2idx(xyz: IVec3) -> (r: usize)
        requires
            inner_in_bounds(xyz),
        ensures
            r == xyz2idx_spec(xyz),
            r < CHUNK_VOLUME,
    {
        (xyz.x as usize) * CHUNK_AREA + (xyz.y as usize) * CHUNK_SIDE + (xyz.z as usize)
    }

    /// Within-chunk coordinate of a flat index; the inverse of `xyz2idx`.
    pub fn idx2xyz(index: usize) -> (r: IVec3)
        requires
            index < CHUNK_VOLUME,
        ensures
            r == idx2xyz_spec(index as int),
            inner_in_bounds(r),
            xyz2idx_spec(r) == index,
    {
        let layer: usize = index / CHUNK_SIDE;
        let r = IVec3 {
            x: (layer / CHUNK_SIDE) as i32,
            y: (layer % CHUNK_SIDE) as i32,
            z: (index % CHUNK_SIDE) as i32,
        };
        proof {
            let i = index as int;
            let side = CHUNK_SIDE as int;
            lemma_fundamental_div_mod(i, side);
            lemma_fundamental_div_mod(i / side, side);
            assert((i / side) / side == i / (CHUNK_AREA as int)) by {
                lemma_fundamental_div_mod_converse(
                    i,
                    CHUNK_AREA as int,
                    (i / side) / side,
                    side * ((i / side) % side) + i % side,
                );
            };
        }
        r
    }

    /// All within-chunk coordinates, in flat index order.
    pub fn iter() -> (r: Vec<IVec3>)
        ensures
            r@.len() == CHUNK_VOLUME,
            forall|i: int| 0 <= i < CHUNK_VOLUME ==> r@[i] == idx2xyz_spec(i),
    {
        let mut r: Vec<IVec3> = Vec::new();
        let mut i: usize = 0;
        while i < CHUNK_VOLUME
            invariant
                i <= CHUNK_VOLUME,
                r@.len() == i,
                forall|j: int| 0 <= j < i ==> r@[j] == idx2xyz_spec(j),
            decreases CHUNK_VOLUME - i,
        {
            r.push(Chunk::idx2xyz(i));
            i = i + 1;
        }
        r
    }

    /// The block at a within-chunk coordinate.
    pub fn read_block(&self, xyz: IVec3) -> (r: Block)
        requires
            self.wf(),
            inner_in_bounds(xyz),
        ensures
            r == self@.blocks[xyz2idx_spec(xyz)],
    {
        self.blocks[Chunk::xyz2idx(xyz)]
    }

    /// Overwrites the block at a within-chunk coordinate and increments the
    /// version counter; the dirty flag is left as it was.
    pub fn set_block(&mut self, xyz: IVec3, block: Block)
        requires
            old(self).wf(),
            old(self)@.version < u64::MAX,
            inner_in_bounds(xyz),
        ensures
            final(self).wf(),
            final(self)@.blocks == old(self)@.blocks.update(xyz2idx_spec(xyz), block),
            final(self)@.version == old(self)@.version + 1,
            final(self)@.dirty == old(self)@.dirty,
    {
        let idx = Chunk::xyz2idx(xyz);
        self.blocks.set(idx, block);
        self.version = self.version + 1;
    }
}

/// The chunk-aligned coordinate a position falls into, per axis
/// `CHUNK_SIDE * (a / CHUNK_SIDE)` with Euclidean division.
pub open spec fn chunk_axis(a: int) -> int {
    (CHUNK_SIDE as int) * (a / (CHUNK_SIDE as int))
}

/// The coordinate within the chunk, per axis the Euclidean remainder.
pub open spec fn inner_axis(a: int) -> int {
    a % (CHUNK_SIDE as int)
}

pub open spec fn chunk_coord(pos: IVec3) -> IVec3 {
    IVec3 {
        x: chunk_axis(pos.x as int) as i32,
        y: chunk_axis(pos.y as int) as i32,
        z: chunk_axis(pos.z as int) as i32,
    }
}

pub open spec fn inner_coord(pos: IVec3) -> IVec3 {
    IVec3 {
        x: inner_axis(pos.x as int) as i32,
        y: inner_axis(pos.y as int) as i32,
        z: inner_axis(pos.z as int) as i32,
    }
}

/// True when every component is a multiple of the chunk side.
pub open spec fn chunk_aligned(c: IVec3) -> bool {
    &&& inner_axis(c.x as int) == 0
    &&& inner_axis(c.y as int) == 0
    &&& inner_axis(c.z as int) == 0
}

/// Well-formedness of a world model: every stored chunk is well-formed and
/// sits at a chunk-aligned coordinate.
pub open spec fn world_wf(m: Map<IVec3, ChunkModel>) -> bool {
    forall|c: IVec3| #[trigger] m.contains_key(c) ==> m[c].wf() && chunk_aligned(c)
}

/// What reading a voxel from the world returns: the block stored in the
/// containing chunk, or the zero block where no chunk exists.
pub open spec fn world_read(m: Map<IVec3, ChunkModel>, pos: IVec3) -> Block {
    let cp = chunk_coord(pos);
    if m.contains_key(cp) {
        m[cp].blocks[xyz2idx_spec(inner_coord(pos))]
    } else {
        block_zero()
    }
}

/// What writing a voxel does to the world: the containing chunk (created
/// all-zero when absent) gets the block stored, its version incremented and
/// its dirty flag set.
pub open spec fn world_write(m: Map<IVec3, ChunkModel>, pos: IVec3, b: Block) -> Map<
    IVec3,
    ChunkModel,
> {
    let cp = chunk_coord(pos);
    let oldc = if m.contains_key(cp) {
        m[cp]
    } else {
        empty_chunk_model()
    };
    m.insert(
        cp,
        ChunkModel {
            blocks: oldc.blocks.update(xyz2idx_spec(inner_coord(pos)), b),
            version: oldc.version + 1,
            dirty: true,
        },
    )
}

/// The sparse voxel world: the canonical backing store, a map from
/// chunk-aligned coordinates to chunks.  Chunks are created lazily on the
/// first write to an absent coordinate.
#[derive(Debug)]
pub struct Universe {
    chunks: Vec<(IVec3, Chunk)>,
}

impl View for Universe {
    type V = Map<IVec3, ChunkModel>;

    closed spec fn view(&self) -> Map<IVec3, ChunkModel> {
        pairs_to_map(self.entries())
    }
}

impl Universe {
    /// The stored pairs, with each chunk abstracted to its model.
    pub closed spec fn entries(self) -> Seq<(IVec3, ChunkModel)> {
        self.chunks@.map_values(|p: (IVec3, Chunk)| (p.0, p.1@))
    }

    pub open spec fn wf(self) -> bool {
        &&& unique_keys(self.entries())
        &&& forall|i: int|
            0 <= i < self.entries().len() ==> (#[trigger] self.entries()[i]).1.wf()
                && chunk_aligned(self.entries()[i].0)
    }

    /// A well-formed world's model is well-formed.
    pub proof fn lemma_view_wf(self)
        requires
            self.wf(),
        ensures
            world_wf(self@),
    {
        assert forall|c: IVec3| #[trigger] self@.contains_key(c) implies self@[c].wf()
            && chunk_aligned(c) by {
            lemma_pairs_domain(self.entries(), c);
            let i = choose|i: int| 0 <= i < self.entries().len() && self.entries()[i].0 == c;
            lemma_pairs_index(self.entries(), i);
        }
    }

    /// An empty world.
    pub fn new() -> (u: Universe)
        ensures
            u.wf(),
            u@ == Map::<IVec3, ChunkModel>::empty(),
    {
        let u = Universe { chunks: Vec::new() };
        proof {
            assert(u.entries() =~= Seq::<(IVec3, ChunkModel)>::empty());
        }
        u
    }

    /// Splits a world position into the chunk-aligned coordinate of the
    /// containing chunk and the coordinate within it, using Euclidean
    /// division and remainder so negative positions resolve correctly.
    pub fn pos_to_chunk_and_inner(&self, pos: &IVec3) -> (r: (IVec3, IVec3))
        ensures
            r.0 == chunk_coord(*pos),
            r.1 == inner_coord(*pos),
            chunk_aligned(r.0),
            inner_in_bounds(r.1),
            r.0.x as int + r.1.x as int == pos.x as int,
            r.0.y as int + r.1.y as int == pos.y as int,
            r.0.z as int + r.1.z as int == pos.z as int,
    {
        let (qx, rx) = euclid_div_rem_32(pos.x);
        let (qy, ry) = euclid_div_rem_32(pos.y);
        let (qz, rz) = euclid_div_rem_32(pos.z);
        let cp = IVec3 { x: qx * 32, y: qy * 32, z: qz * 32 };
        let ip = IVec3 { x: rx, y: ry, z: rz };
        proof {
            lemma_fundamental_div_mod_converse(cp.x as int, 32, qx as int, 0);
            lemma_fundamental_div_mod_converse(cp.y as int, 32, qy as int, 0);
            lemma_fundamental_div_mod_converse(cp.z as int, 32, qz as int, 0);
        }
        (cp, ip)
    }

    /// Index of the pair holding a chunk coordinate, if any.
    fn find_chunk(&self, cp: IVec3) -> (r: Option<usize>)
        ensures
            match r {
                Some(i) => i < self.chunks@.len() && self.chunks@[i as int].0 == cp,
                None => forall|j: int| 0 <= j < self.chunks@.len() ==> self.chunks@[j].0 != cp,
            },
    {
        let mut i: usize = 0;
        while i < self.chunks.len()
            invariant
                i <= self.chunks@.len(),
                forall|j: int| 0 <= j < i ==> self.chunks@[j].0 != cp,
            decreases self.chunks@.len() - i,
        {
            if self.chunks[i].0 == cp {
                return Some(i);
            }
            i = i + 1;
        }
        None
    }

    /// Whether a chunk exists at a chunk-aligned coordinate.
    pub fn contains_chunk(&self, coord: &IVec3) -> (r: bool)
        ensures
            r == self@.contains_key(*coord),
    {
        let found = self.find_chunk(*coord);
        proof {
            lemma_pairs_domain(self.entries(), *coord);
        }
        match found {
            Some(i) => {
                proof {
                    assert(self.entries()[i as int].0 == *coord);
                }
                true
            },
            None => false,
        }
    }

    /// The chunk at a chunk-aligned coordinate, if any.
    pub fn get_chunk(&self, coord: &IVec3) -> (r: Option<&Chunk>)
        requires
            self.wf(),
        ensures
            self@.contains_key(*coord) <==> r is Some,
            r matches Some(ch) ==> ch@ == self@[*coord],
    {
        proof {
            lemma_pairs_domain(self.entries(), *coord);
        }
        match self.find_chunk(*coord) {
            Some(i) => {
                proof {
                    assert(self.entries()[i as int].0 == *coord);
                    lemma_pairs_index(self.entries(), i as int);
                }
                Some(&self.chunks[i].1)
            },
            None => None,
        }
    }

    /// The version of the chunk at a chunk-aligned coordinate, or `None`
    /// where no chunk exists.
    pub fn chunk_version(&self, coord: &IVec3) -> (r: Option<u64>)
        requires
            self.wf(),
        ensures
            self@.contains_key(*coord) ==> r == Some(self@[*coord].version as u64),
            !self@.contains_key(*coord) ==> r is None,
    {
        match self.get_chunk(coord) {
            Some(ch) => Some(ch.version),
            None => None,
        }
    }

    /// Stores a chunk at a chunk-aligned coordinate, replacing any occupant.
    pub fn insert_chunk(&mut self, coord: IVec3, chunk: Chunk)
        requires
            old(self).wf(),
            chunk.wf(),
            chunk_aligned(coord),
        ensures
            final(self).wf(),
            final(self)@ == old(self)@.insert(coord, chunk@),
    {
        let ghost e_old = self.entries();
        match self.find_chunk(coord) {
            Some(i) => {
                self.chunks.set(i, (coord, chunk));
                proof {
                    assert(self.entries() =~= e_old.update(i as int, (coord, chunk@)));
                    lemma_pairs_update(e_old, i as int, chunk@);
                }
            },
            None => {
                self.chunks.push((coord, chunk));
                proof {
                    assert(self.entries() =~= e_old.push((coord, chunk@)));
                    lemma_pairs_push(e_old, (coord, chunk@));
                    assert forall|i: int, j: int|
                        0 <= i < j < self.entries().len() implies self.entries()[i].0
                        != self.entries()[j].0 by {
                        if j == self.entries().len() - 1 {
                            assert(e_old[i].0 != coord);
                        }
                    }
                }
            },
        }
    }

    /// Reads the block at a world position, or `None` where the containing
    /// chunk is absent.
    pub fn read_chunk_block(&self, pos: &IVec3) -> (r: Option<Block>)
        requires
            self.wf(),
        ensures
            self@.contains_key(chunk_coord(*pos)) ==> r == Some(world_read(self@, *pos)),
            !self@.contains_key(chunk_coord(*pos)) ==> r is None,
    {
        let (cp, ip) = self.pos_to_chunk_and_inner(pos);
        proof {
            self.lemma_view_wf();
        }
        match self.get_chunk(&cp) {
            Some(ch) => Some(ch.read_block(ip)),
            None => None,
        }
    }

    /// Reads the block at a world position; absent chunks read as the zero
    /// block.  Never fails and never changes the world.
    pub fn read_block(&self, pos: &IVec3) -> (r: Block)
        requires
            self.wf(),
        ensures
            r == world_read(self@, *pos),
    {
        match self.read_chunk_block(pos) {
            Some(b) => b,
            None => Block::from_id(0),
        }
    }

    /// Writes the block at a world position, creating the containing chunk
    /// when absent; increments the chunk's version and marks it dirty.
    pub fn set_chunk_block(&mut self, pos: &IVec3, block: Block)
        requires
            old(self).wf(),
            old(self)@.contains_key(chunk_coord(*pos)) ==> old(self)@[chunk_coord(
                *pos,
            )].version < u64::MAX,
        ensures
            final(self).wf(),
            final(self)@ == world_write(old(self)@, *pos, block),
    {
        let ghost e_old = self.entries();
        let (cp, ip) = self.pos_to_chunk_and_inner(pos);
        proof {
            lemma_pairs_domain(e_old, cp);
        }
        match self.find_chunk(cp) {
            Some(i) => {
                proof {
                    lemma_pairs_index(e_old, i as int);
                }
                let mut pair: (IVec3, Chunk) = (
                    cp,
                    Chunk { blocks: Vec::new(), version: 0, dirty_render: false },
                );
                self.chunks.set_and_swap(i, &mut pair);
                pair.1.set_block(ip, block);
                pair.1.dirty_render = true;
                self.chunks.set_and_swap(i, &mut pair);
                proof {
                    let newmodel = self.chunks@[i as int].1@;
                    assert(self.entries() =~= e_old.update(i as int, (cp, newmodel)));
                    lemma_pairs_update(e_old, i as int, newmodel);
                    assert(self@ =~= world_write(old(self)@, *pos, block));
                }
            },
            None => {
                let mut chunk = Chunk::empty();
                chunk.set_block(ip, block);
                chunk.dirty_render = true;
                self.chunks.push((cp, chunk));
                proof {
                    let newmodel = self.chunks@[self.chunks@.len() - 1].1@;
                    assert(self.entries() =~= e_old.push((cp, newmodel)));
                    lemma_pairs_push(e_old, (cp, newmodel));
                    assert forall|i: int, j: int|
                        0 <= i < j < self.entries().len() implies self.entries()[i].0
                        != self.entries()[j].0 by {
                        if j == self.entries().len() - 1 {
                            assert(e_old[i].0 != cp);
                        }
                    }
                    assert(newmodel.blocks =~= empty_chunk_model().blocks.update(
                        xyz2idx_spec(inner_coord(*pos)),
                        block,
                    ));
                    assert(self@ =~= world_write(old(self)@, *pos, block));
                }
            },
        }
    }

    /// Writes the block at a world position; the name under which the
    /// backing store exposes mutation to simulation logic.
    pub fn write_block(&mut self, pos: &IVec3, block: Block)
        requires
            old(self).wf(),
            old(self)@.contains_key(chunk_coord(*pos)) ==> old(self)@[chunk_coord(
                *pos,
            )].version < u64::MAX,
        ensures
            final(self).wf(),
            final(self)@ == world_write(old(self)@, *pos, block),
    {
        self.set_chunk_block(pos, block);
    }
}

/// Squared distance of a within-chunk coordinate from the chunk's center.
pub open spec fn sphere_dist2(v: IVec3) -> int {
    let h = (CHUNK_SIDE as int) / 2;
    (v.x as int - h) * (v.x as int - h) + (v.y as int - h) * (v.y as int - h) + (v.z as int - h) * (
    v.z as int - h)
}

/// The sphere-carving rule: blocks within radius 16 of the chunk center get
/// their x coordinate as id, all others are zero.
pub open spec fn sphere_block(v: IVec3) -> Block {
    if sphere_dist2(v) < 256 {
        block_from_id(v.x as u8)
    } else {
        block_zero()
    }
}

/// The chunk the sphere-carving procedure produces.
pub open spec fn sphere_chunk_model() -> ChunkModel {
    ChunkModel {
        blocks: Seq::new(CHUNK_VOLUME as nat, |i: int| sphere_block(idx2xyz_spec(i))),
        version: 0,
        dirty: false,
    }
}

/// A world with one chunk at the origin, filled by carving a sphere around
/// the chunk's center.
pub fn simple_universe() -> (u: Universe)
    ensures
        u.wf(),
        u@ == Map::<IVec3, ChunkModel>::empty().insert(
            IVec3 { x: 0, y: 0, z: 0 },
            sphere_chunk_model(),
        ),
{
    let mut blocks: Vec<Block> = Vec::new();
    let mut i: usize = 0;
    while i < CHUNK_VOLUME
        invariant
            i <= CHUNK_VOLUME,
            blocks@.len() == i,
            forall|j: int| 0 <= j < i ==> blocks@[j] == sphere_block(idx2xyz_spec(j)),
        decreases CHUNK_VOLUME - i,
    {
        let xyz = Chunk::idx2xyz(i);
        let dx = xyz.x - 16;
        let dy = xyz.y - 16;
        let dz = xyz.z - 16;
        proof {
            assert(dx as int * dx as int <= 256 && dy as int * dy as int <= 256 && dz as int
                * dz as int <= 256 && dx as int * dx as int >= 0 && dy as int * dy as int >= 0
                && dz as int * dz as int >= 0) by (nonlinear_arith)
                requires
                    -16 <= dx as int <= 16,
                    -16 <= dy as int <= 16,
                    -16 <= dz as int <= 16,
            ;
        }
        let d2 = dx * dx + dy * dy + dz * dz;
        if d2 < 16 * 16 {
            blocks.push(Block::from_id(xyz.x as u8));
        } else {
            blocks.push(Block::from_id(0));
        }
        i = i + 1;
    }
    let chunk = Chunk { blocks, version: 0, dirty_render: false };
    let ghost cm = chunk@;
    let mut u = Universe::new();
    u.insert_chunk(IVec3::new(0, 0, 0), chunk);
    proof {
        assert(cm.blocks =~= sphere_chunk_model().blocks);
        assert(cm =~= sphere_chunk_model());
    }
    u
}

/// Law: a write followed by a read of the same position returns the block
/// just written, for every position and block.
pub proof fn lemma_world_round_trip(m: Map<IVec3, ChunkModel>, pos: IVec3, b: Block)
    requires
        world_wf(m),
    ensures
        world_read(world_write(m, pos, b), pos) == b,
{
    let cp = chunk_coord(pos);
    let idx = xyz2idx_spec(inner_coord(pos));
    lemma_mod_bound(pos.x as int, CHUNK_SIDE as int);
    lemma_mod_bound(pos.y as int, CHUNK_SIDE as int);
    lemma_mod_bound(pos.z as int, CHUNK_SIDE as int);
    assert(0 <= idx < CHUNK_VOLUME);
}

/// Law: every write strictly increases the version of the chunk it touches;
/// a chunk created by the write starts at version one.
pub proof fn lemma_version_monotonic(m: Map<IVec3, ChunkModel>, pos: IVec3, b: Block)
    ensures
        m.contains_key(chunk_coord(pos)) ==> world_write(m, pos, b)[chunk_coord(pos)].version == m[
            chunk_coord(pos)
        ].version + 1,
        !m.contains_key(chunk_coord(pos)) ==> world_write(m, pos, b)[chunk_coord(pos)].version
            == 1,
{
}

} // verus!

