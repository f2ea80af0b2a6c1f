//! Positions, dimensions and the block grid of a chunk.
use vstd::prelude::*;
use vstd::arithmetic::div_mod::*;
use vstd::arithmetic::mul::*;
use crate::face::{face_at, faces, spec_faces, Face};

verus! {

/// Identifier of a block type. `0` conventionally means air.
pub type BlockId = u16;

/// Three unsigned coordinates.
#[derive(Clone, Copy, Debug, PartialEq, Eq, Structural, Hash)]
pub struct UVec3 {
    pub x: u32,
    pub y: u32,
    pub z: u32,
}

/// Two signed coordinates.
#[derive(Clone, Copy, Debug, PartialEq, Eq, Structural, Hash)]
pub struct IVec2 {
    pub x: i32,
    pub y: i32,
}

/// Dimensions of a chunk, (width, height, length).
pub type Dimensions = UVec3;

/// The position of a block in its chunk (x, y, z).
pub type BlockPos = UVec3;

/// Chunk coordinates, (x, z).
pub type ChunkCords = IVec2;

/// The index of a block in the flat cell array of its chunk.
pub type BlockIndex = usize;

impl UVec3 {
    pub fn new(x: u32, y: u32, z: u32) -> (r: Self)
        ensures
            r == (UVec3 { x, y, z }),
    {
        UVec3 { x, y, z }
    }

    /// Number of cells of a grid with these dimensions.
    pub open spec fn volume(self) -> nat {
        (self.x as nat) * (self.y as nat) * (self.z as nat)
    }
}

impl IVec2 {
    pub fn new(x: i32, y: i32) -> (r: Self)
        ensures
            r == (IVec2 { x, y }),
    {
        IVec2 { x, y }
    }
}

/// Whether `pos` names a cell of a grid with dimensions `dims`.
pub open spec fn spec_pos_in_bounds(pos: UVec3, dims: Dimensions) -> bool {
    pos.x < dims.x && pos.y < dims.y && pos.z < dims.z
}

/// The place of `pos` in the flat cell array: layers of `y`, rows of `z`, cells of `x`.
pub open spec fn linear_index(pos: UVec3, dims: Dimensions) -> int {
    pos.y * (dims.x * dims.z) + pos.z * dims.x + pos.x
}

/// The index of `pos`, where `pos` is inside `dims` and its index is a `usize`.
pub open spec fn spec_pos_to_index(pos: UVec3, dims: Dimensions) -> Option<BlockIndex> {
    if spec_pos_in_bounds(pos, dims) && linear_index(pos, dims) <= usize::MAX {
        Some(linear_index(pos, dims) as usize)
    } else {
        None
    }
}

/// The position whose index is `index`, where `index` is below the volume of `dims`.
pub open spec fn spec_index_to_pos(index: BlockIndex, dims: Dimensions) -> Option<BlockPos> {
    if index < dims.volume() {
        Some(
            UVec3 {
                x: (index as int % dims.x as int) as u32,
                y: (index as int / (dims.x * dims.z)) as u32,
                z: ((index as int / dims.x as int) % dims.z as int) as u32,
            },
        )
    } else {
        None
    }
}

/// The cell next to `pos` towards `face`, where that cell is inside `dims`.
pub open spec fn spec_neighbor_pos(pos: BlockPos, face: Face, dims: Dimensions) -> Option<
    BlockPos,
> {
    let (x, y, z): (int, int, int) = match face {
        Face::Top => (pos.x as int, pos.y + 1, pos.z as int),
        Face::Bottom => (pos.x as int, pos.y - 1, pos.z as int),
        Face::Right => (pos.x + 1, pos.y as int, pos.z as int),
        Face::Left => (pos.x - 1, pos.y as int, pos.z as int),
        Face::Back => (pos.x as int, pos.y as int, pos.z + 1),
        Face::Front => (pos.x as int, pos.y as int, pos.z - 1),
    };
    if 0 <= x < dims.x && 0 <= y < dims.y && 0 <= z < dims.z {
        Some(UVec3 { x: x as u32, y: y as u32, z: z as u32 })
    } else {
        None
    }
}

/// Whether `pos` has no neighbor inside `dims` towards `edge`.
pub open spec fn spec_on_edge(pos: BlockPos, edge: Face, dims: Dimensions) -> bool {
    spec_neighbor_pos(pos, edge, dims) is None
}

/// The cell that `pos` touches in the chunk that lies beyond `face`: the same cell on
/// the opposite border. Chunks have no vertical neighbors.
pub open spec fn spec_neighbor_across_chunk(pos: BlockPos, face: Face, dims: Dimensions) -> Option<
    BlockPos,
> {
    if spec_on_edge(pos, face, dims) && spec_pos_in_bounds(pos, dims) {
        match face {
            Face::Right => Some(UVec3 { x: 0, y: pos.y, z: pos.z }),
            Face::Left => Some(UVec3 { x: (dims.x - 1) as u32, y: pos.y, z: pos.z }),
            Face::Back => Some(UVec3 { x: pos.x, y: pos.y, z: 0 }),
            Face::Front => Some(UVec3 { x: pos.x, y: pos.y, z: (dims.z - 1) as u32 }),
            _ => None,
        }
    } else {
        None
    }
}

/// Inside the bounds the linear index stays below the volume.
pub proof fn lemma_linear_index_bound(pos: UVec3, dims: Dimensions)
    requires
        spec_pos_in_bounds(pos, dims),
    ensures
        0 <= linear_index(pos, dims) < dims.volume(),
{
    let x = pos.x as int;
    let y = pos.y as int;
    let z = pos.z as int;
    let w = dims.x as int;
    let h = dims.y as int;
    let l = dims.z as int;
    assert(y * (w * l) + z * w + x < h * (w * l)) by (nonlinear_arith)
        requires
            0 <= x < w,
            0 <= y < h,
            0 <= z < l,
    ;
    assert(0 <= y * (w * l) + z * w + x) by (nonlinear_arith)
        requires
            0 <= x < w,
            0 <= y < h,
            0 <= z < l,
    ;
    assert(h * (w * l) == w * h * l) by (nonlinear_arith);
}

/// Position and index determine each other.
pub proof fn lemma_pos_index_round_trip(pos: UVec3, index: BlockIndex, dims: Dimensions)
    ensures
        spec_pos_to_index(pos, dims) == Some(index) ==> spec_index_to_pos(index, dims) == Some(
            pos,
        ),
        spec_index_to_pos(index, dims) == Some(pos) ==> spec_pos_to_index(pos, dims) == Some(
            index,
        ),
        spec_index_to_pos(index, dims) is Some ==> spec_pos_in_bounds(
            spec_index_to_pos(index, dims).unwrap(),
            dims,
        ),
{
    let w = dims.x as int;
    let h = dims.y as int;
    let l = dims.z as int;
    if spec_pos_to_index(pos, dims) == Some(index) {
        lemma_linear_index_bound(pos, dims);
        let x = pos.x as int;
        let y = pos.y as int;
        let z = pos.z as int;
        let i = index as int;
        assert(w * l > 0) by (nonlinear_arith)
            requires
                w > 0,
                l > 0,
        ;
        assert(0 <= z * w + x < w * l) by (nonlinear_arith)
            requires
                0 <= x < w,
                0 <= z < l,
        ;
        lemma_fundamental_div_mod_converse(i, w * l, y, z * w + x);
        assert(i == (y * l + z) * w + x) by (nonlinear_arith)
            requires
                i == y * (w * l) + z * w + x,
        ;
        lemma_fundamental_div_mod_converse(i, w, y * l + z, x);
        lemma_fundamental_div_mod_converse(y * l + z, l, y, z);
    }
    if spec_index_to_pos(index, dims) is Some {
        let i = index as int;
        assert(w > 0 && h > 0 && l > 0) by (nonlinear_arith)
            requires
                0 <= i < w * h * l,
                w >= 0,
                h >= 0,
                l >= 0,
        ;
        assert(w * l > 0) by (nonlinear_arith)
            requires
                w > 0,
                l > 0,
        ;
        let q = i / w;
        lemma_fundamental_div_mod(i, w);
        lemma_mod_pos_bound(i, w);
        lemma_div_pos_is_pos(i, w);
        lemma_fundamental_div_mod(q, l);
        lemma_mod_pos_bound(q, l);
        lemma_div_denominator(i, w, l);
        let y = q / l;
        let z = q % l;
        let x = i % w;
        assert(y < h) by (nonlinear_arith)
            requires
                i < w * h * l,
                i == w * q + x,
                q == l * y + z,
                0 <= x,
                0 <= z,
                w > 0,
                l > 0,
        ;
        lemma_div_pos_is_pos(q, l);
        assert(i == y * (w * l) + z * w + x) by (nonlinear_arith)
            requires
                i == w * q + x,
                q == l * y + z,
        ;
        let p = spec_index_to_pos(index, dims).unwrap();
        assert(p.x == x && p.y == y && p.z == z);
        assert(linear_index(p, dims) == i);
        if spec_index_to_pos(index, dims) == Some(pos) {
            assert(spec_pos_to_index(pos, dims) == Some(index));
        }
    }
}

pub fn pos_in_bounds(block_pos: UVec3, dims: Dimensions) -> (r: bool)
    ensures
        r == spec_pos_in_bounds(block_pos, dims),
{
    !(block_pos.x >= dims.x || block_pos.y >= dims.y || block_pos.z >= dims.z)
}

/// The index of `block_pos` in the flat cell array, or `None` outside `dims`.
pub fn pos_to_index(block_pos: UVec3, dims: Dimensions) -> (r: Option<BlockIndex>)
    ensures
        r == spec_pos_to_index(block_pos, dims),
        r is Some ==> r.unwrap() < dims.volume(),
{
    if block_pos.x >= dims.x || block_pos.y >= dims.y || block_pos.z >= dims.z {
        None
    } else {
        proof {
            lemma_linear_index_bound(block_pos, dims);
            let w = dims.x as int;
            let h = dims.y as int;
            let l = dims.z as int;
            assert(w * l <= 0xffff_ffff * 0xffff_ffff) by (nonlinear_arith)
                requires
                    0 <= w <= 0xffff_ffff,
                    0 <= l <= 0xffff_ffff,
            ;
            assert(block_pos.y * (w * l) <= 0xffff_ffff * (0xffff_ffff * 0xffff_ffff))
                by (nonlinear_arith)
                requires
                    0 <= block_pos.y <= 0xffff_ffff,
                    0 <= w * l <= 0xffff_ffff * 0xffff_ffff,
            ;
            assert(block_pos.z * w <= 0xffff_ffff * 0xffff_ffff) by (nonlinear_arith)
                requires
                    0 <= block_pos.z <= 0xffff_ffff,
                    0 <= w <= 0xffff_ffff,
            ;
        }
        let layer: u128 = (dims.x as u128) * (dims.z as u128);
        let index: u128 = (block_pos.y as u128) * layer + (block_pos.z as u128) * (dims.x as u128)
            + (block_pos.x as u128);
        if index > usize::MAX as u128 {
            None
        } else {
            Some(index as usize)
        }
    }
}

/// The position of the cell at `block_index`, or `None` past the last cell of `dims`.
pub fn index_to_pos(block_index: BlockIndex, dims: Dimensions) -> (r: Option<BlockPos>)
    ensures
        r == spec_index_to_pos(block_index, dims),
        r is Some ==> spec_pos_to_index(r.unwrap(), dims) == Some(block_index),
{
    if dims.x == 0 || dims.y == 0 || dims.z == 0 {
        proof {
            let w = dims.x as int;
            let h = dims.y as int;
            let l = dims.z as int;
            assert(w * h * l == 0) by (nonlinear_arith)
                requires
                    w == 0 || h == 0 || l == 0,
            ;
        }
        return None;
    }
    let width: u128 = dims.x as u128;
    let length: u128 = dims.z as u128;
    let height: u128 = dims.y as u128;
    proof {
        assert(width * length <= 0xffff_ffff * 0xffff_ffff) by (nonlinear_arith)
            requires
                0 <= width <= 0xffff_ffff,
                0 <= length <= 0xffff_ffff,
        ;
        assert(width * length > 0) by (nonlinear_arith)
            requires
                width > 0,
                length > 0,
        ;
    }
    let layer: u128 = width * length;
    let index: u128 = block_index as u128;
    let h: u128 = index / layer;
    if h >= height {
        proof {
            let i = index as int;
            let la = layer as int;
            lemma_fundamental_div_mod(i, la);
            lemma_mod_pos_bound(i, la);
            assert(i >= (height as int) * la) by (nonlinear_arith)
                requires
                    i == la * (i / la) + i % la,
                    i % la >= 0,
                    i / la >= height as int,
                    la > 0,
            ;
            assert((height as int) * la == dims.x as int * dims.y as int * dims.z as int)
                by (nonlinear_arith)
                requires
                    la == dims.x as int * dims.z as int,
                    height as int == dims.y as int,
            ;
        }
        return None;
    }
    proof {
        let i = index as int;
        let la = layer as int;
        lemma_fundamental_div_mod(i, la);
        lemma_mod_pos_bound(i, la);
        assert(i < dims.x as int * dims.y as int * dims.z as int) by (nonlinear_arith)
            requires
                i == la * (i / la) + i % la,
                i % la < la,
                i / la < dims.y as int,
                la == dims.x as int * dims.z as int,
                la > 0,
        ;
        lemma_div_denominator(i, dims.x as int, dims.z as int);
        lemma_fundamental_div_mod(i, dims.x as int);
        lemma_mod_pos_bound(i, dims.x as int);
        lemma_mod_pos_bound(i / (dims.x as int), dims.z as int);
        lemma_div_pos_is_pos(i, dims.x as int);
    }
    let row: u128 = index / width;
    let l: u128 = row % length;
    let w: u128 = index % width;
    let pos = UVec3 { x: w as u32, y: h as u32, z: l as u32 };
    proof {
        lemma_pos_index_round_trip(pos, block_index, dims);
    }
    Some(pos)
}

/// The cell next to `block_pos` towards `face`, or `None` where the chunk ends there.
pub fn neighbor_pos(block_pos: BlockPos, face: Face, dims: Dimensions) -> (r: Option<BlockPos>)
    ensures
        r == spec_neighbor_pos(block_pos, face, dims),
        r is Some ==> spec_pos_in_bounds(r.unwrap(), dims),
{
    let mut p = block_pos;
    match face {
        Face::Top => {
            if p.y == u32::MAX {
                return None;
            }
            p.y = p.y + 1;
        },
        Face::Bottom => {
            if p.y == 0 {
                return None;
            }
            p.y = p.y - 1;
        },
        Face::Right => {
            if p.x == u32::MAX {
                return None;
            }
            p.x = p.x + 1;
        },
        Face::Left => {
            if p.x == 0 {
                return None;
            }
            p.x = p.x - 1;
        },
        Face::Back => {
            if p.z == u32::MAX {
                return None;
            }
            p.z = p.z + 1;
        },
        Face::Front => {
            if p.z == 0 {
                return None;
            }
            p.z = p.z - 1;
        },
    }
    if pos_in_bounds(p, dims) {
        Some(p)
    } else {
        None
    }
}

/// Whether the chunk ends at `block_pos` towards `edge`.
pub fn is_block_pos_on_edge(block_pos: BlockPos, edge: Face, dims: Dimensions) -> (r: bool)
    ensures
        r == spec_on_edge(block_pos, edge, dims),
{
    neighbor_pos(block_pos, edge, dims).is_none()
}

/// The cell that `block_pos` touches in the chunk beyond `face`.
pub fn neighbor_across_chunk(block_pos: BlockPos, face: Face, dims: Dimensions) -> (r: Option<
    BlockPos,
>)
    ensures
        r == spec_neighbor_across_chunk(block_pos, face, dims),
        r is Some ==> spec_pos_in_bounds(r.unwrap(), dims) && !face.spec_is_vertical(),
{
    if is_block_pos_on_edge(block_pos, face, dims) && pos_in_bounds(block_pos, dims) {
        let mut p = block_pos;
        match face {
            Face::Right => {
                p.x = 0;
                Some(p)
            },
            Face::Left => {
                p.x = dims.x - 1;
                Some(p)
            },
            Face::Back => {
                p.z = 0;
                Some(p)
            },
            Face::Front => {
                p.z = dims.z - 1;
                Some(p)
            },
            _ => None,
        }
    } else {
        None
    }
}

/// The cells of `dims` with an index below `upto` where the chunk ends towards `edge`,
/// in the order of their indices.
pub open spec fn spec_blocks_on_edge(edge: Face, dims: Dimensions, upto: nat) -> Seq<BlockPos>
    decreases upto,
{
    if upto == 0 {
        Seq::empty()
    } else {
        let rest = spec_blocks_on_edge(edge, dims, (upto - 1) as nat);
        match spec_index_to_pos((upto - 1) as usize, dims) {
            Some(p) => if spec_on_edge(p, edge, dims) {
                rest.push(p)
            } else {
                rest
            },
            None => rest,
        }
    }
}

/// A cell is listed among the cells on an edge exactly if it is a cell of the grid,
/// has an index below the bound and lies on that edge.
pub proof fn lemma_blocks_on_edge_contains(edge: Face, dims: Dimensions, upto: nat, p: BlockPos)
    requires
        upto <= dims.volume() <= usize::MAX,
    ensures
        spec_blocks_on_edge(edge, dims, upto).contains(p) <==> (spec_pos_in_bounds(p, dims)
            && spec_on_edge(p, edge, dims) && linear_index(p, dims) < upto),
    decreases upto,
{
    if upto == 0 {
        if spec_pos_in_bounds(p, dims) {
            lemma_linear_index_bound(p, dims);
        }
    } else {
        let rest = spec_blocks_on_edge(edge, dims, (upto - 1) as nat);
        lemma_blocks_on_edge_contains(edge, dims, (upto - 1) as nat, p);
        let i = (upto - 1) as usize;
        let q = spec_index_to_pos(i, dims).unwrap();
        lemma_pos_index_round_trip(q, i, dims);
        if spec_pos_in_bounds(p, dims) {
            lemma_linear_index_bound(p, dims);
            lemma_pos_index_round_trip(p, linear_index(p, dims) as usize, dims);
        }
        if spec_on_edge(q, edge, dims) {
            assert(rest.push(q).last() == q);
            assert(forall|j: int| 0 <= j < rest.len() ==> rest.push(q)[j] == rest[j]);
            if rest.push(q).contains(p) {
                let j = choose|j: int| 0 <= j < rest.push(q).len() && rest.push(q)[j] == p;
                if j < rest.len() {
                    assert(rest[j] == p);
                }
            }
            if rest.contains(p) {
                let j = choose|j: int| 0 <= j < rest.len() && rest[j] == p;
                assert(rest.push(q)[j] == p);
            }
        }
    }
}

/// The cells of a grid of dimensions `dims` where the chunk ends towards `edge`.
pub fn iter_blocks_on_edge(edge: Face, dims: Dimensions) -> (r: Vec<BlockPos>)
    requires
        dims.volume() <= usize::MAX,
    ensures
        r@ == spec_blocks_on_edge(edge, dims, dims.volume()),
{
    let mut r: Vec<BlockPos> = Vec::new();
    let mut i: usize = 0;
    loop
        invariant
            dims.volume() <= usize::MAX,
            i <= dims.volume(),
            r@ == spec_blocks_on_edge(edge, dims, i as nat),
        ensures
            i == dims.volume(),
            r@ == spec_blocks_on_edge(edge, dims, i as nat),
        decreases dims.volume() - i,
    {
        match index_to_pos(i, dims) {
            Some(pos) => {
                if is_block_pos_on_edge(pos, edge, dims) {
                    r.push(pos);
                }
                i = i + 1;
            },
            None => {
                break ;
            },
        }
    }
    r
}

/// The six neighbors of a block, one for each face in the canonical order. Where the
/// chunk ends towards a face, the neighbor towards it is `None`.
pub type SurroundingBlocks<T> = [Option<T>; 6];

/// The neighbor that `blocks` records towards `face`.
pub fn surrounding_block<B: Copy>(blocks: &SurroundingBlocks<B>, face: Face) -> (r: Option<B>)
    ensures
        r == blocks@[face.index()],
{
    blocks[face.to_index()]
}

pub trait SurroundingBlocksCommon<B>: Sized {
    /// The neighbor records as a sequence, in the canonical order of the faces.
    spec fn neighbors(&self) -> Seq<Option<B>>;

    fn top(&self) -> (r: &Option<B>)
        ensures
            *r == self.neighbors()[0],
    ;

    fn bottom(&self) -> (r: &Option<B>)
        ensures
            *r == self.neighbors()[1],
    ;

    fn right(&self) -> (r: &Option<B>)
        ensures
            *r == self.neighbors()[2],
    ;

    fn left(&self) -> (r: &Option<B>)
        ensures
            *r == self.neighbors()[3],
    ;

    fn back(&self) -> (r: &Option<B>)
        ensures
            *r == self.neighbors()[4],
    ;

    fn front(&self) -> (r: &Option<B>)
        ensures
            *r == self.neighbors()[5],
    ;

    fn with_face(self, face: Face, block: B) -> (r: Self)
        ensures
            r.neighbors() == self.neighbors().update(face.index(), Some(block)),
    ;

    fn uniform(block: B) -> (r: Self)
        ensures
            r.neighbors() == Seq::new(6, |i: int| Some(block)),
    ;
}

impl<B: Copy> SurroundingBlocksCommon<B> for SurroundingBlocks<B> {
    open spec fn neighbors(&self) -> Seq<Option<B>> {
        self@
    }

    fn top(&self) -> (r: &Option<B>) {
        &self[0]
    }

    fn bottom(&self) -> (r: &Option<B>) {
        &self[1]
    }

    fn right(&self) -> (r: &Option<B>) {
        &self[2]
    }

    fn left(&self) -> (r: &Option<B>) {
        &self[3]
    }

    fn back(&self) -> (r: &Option<B>) {
        &self[4]
    }

    fn front(&self) -> (r: &Option<B>) {
        &self[5]
    }

    fn with_face(self, face: Face, block: B) -> (r: Self) {
        let mut r = self;
        r[face.to_index()] = Some(block);
        r
    }

    fn uniform(block: B) -> (r: Self) {
        let r = [Some(block), Some(block), Some(block), Some(block), Some(block), Some(block)];
        assert(r@ =~= Seq::new(6, |i: int| Some(block)));
        r
    }
}

/// The block grid of a chunk: `N` cells, layer by layer.
pub struct Grid<const N: usize> {
    pub dims: Dimensions,
    pub grid: [BlockId; N],
}

impl<const N: usize> Grid<N> {
    /// The cells in the order of their indices.
    pub open spec fn cells(&self) -> Seq<BlockId> {
        self.grid@
    }

    /// The grid has exactly as many cells as its dimensions ask for.
    pub open spec fn wf(&self) -> bool {
        self.dims.volume() == N
    }

    /// The block at `pos`, if `pos` names a cell.
    pub open spec fn spec_get_block(&self, pos: BlockPos) -> Option<BlockId> {
        match spec_pos_to_index(pos, self.dims) {
            Some(i) => if i < N {
                Some(self.cells()[i as int])
            } else {
                None
            },
            None => None,
        }
    }

    /// The block next to `pos` towards `face`, if the chunk does not end there.
    pub open spec fn spec_get_neighbor_of(&self, pos: BlockPos, face: Face) -> Option<BlockId> {
        match spec_neighbor_pos(pos, face, self.dims) {
            Some(p) => self.spec_get_block(p),
            None => None,
        }
    }

    /// The six neighbors of `pos` in the canonical order of the faces.
    pub open spec fn spec_get_neighbors(&self, pos: BlockPos) -> Seq<Option<BlockId>> {
        Seq::new(6, |i: int| self.spec_get_neighbor_of(pos, face_at(i)))
    }

    /// Whether the grid has exactly as many cells as its dimensions ask for.
    pub fn is_wf(&self) -> (r: bool)
        ensures
            r == self.wf(),
    {
        proof {
            let w = self.dims.x as int;
            let h = self.dims.y as int;
            let l = self.dims.z as int;
            assert(w * h <= 0xffff_ffff * 0xffff_ffff) by (nonlinear_arith)
                requires
                    0 <= w <= 0xffff_ffff,
                    0 <= h <= 0xffff_ffff,
            ;
            assert(w * h * l <= 0xffff_ffff * 0xffff_ffff * 0xffff_ffff) by (nonlinear_arith)
                requires
                    0 <= w * h <= 0xffff_ffff * 0xffff_ffff,
                    0 <= l <= 0xffff_ffff,
            ;
        }
        let volume: u128 = (self.dims.x as u128) * (self.dims.y as u128) * (self.dims.z as u128);
        volume == N as u128
    }

    pub fn new(grid: [BlockId; N], dims: Dimensions) -> (r: Self)
        ensures
            r.dims == dims,
            r.cells() == grid@,
            r.cells().len() == N,
    {
        Self { dims, grid }
    }

    pub fn len(&self) -> (r: usize)
        requires
            self.wf(),
        ensures
            r == N,
            r == self.dims.volume(),
    {
        N
    }

    /// The block at the cell with the given index.
    pub fn cell(&self, index: BlockIndex) -> (r: BlockId)
        requires
            index < N,
        ensures
            r == self.cells()[index as int],
    {
        self.grid[index]
    }

    pub fn get_block(&self, block_pos: BlockPos) -> (r: Option<BlockId>)
        ensures
            r == self.spec_get_block(block_pos),
            self.wf() ==> (r is Some <==> spec_pos_in_bounds(block_pos, self.dims)),
    {
        proof {
            if spec_pos_in_bounds(block_pos, self.dims) {
                lemma_linear_index_bound(block_pos, self.dims);
            }
        }
        match pos_to_index(block_pos, self.dims) {
            Some(i) => if i < N {
                Some(self.grid[i])
            } else {
                None
            },
            None => None,
        }
    }

    /// The cell at `block_pos`, to change the block in it.
    pub fn get_block_mut(&mut self, block_pos: BlockPos) -> (r: Option<&mut BlockId>)
        ensures
            final(self).dims == old(self).dims,
            match r {
                Some(cell) => {
                    &&& spec_pos_to_index(block_pos, old(self).dims) is Some
                    &&& spec_pos_to_index(block_pos, old(self).dims).unwrap() < N
                    &&& *cell == old(self).cells()[spec_pos_to_index(
                        block_pos,
                        old(self).dims,
                    ).unwrap() as int]
                    &&& final(self).cells() == old(self).cells().update(
                        spec_pos_to_index(block_pos, old(self).dims).unwrap() as int,
                        *final(cell),
                    )
                },
                None => old(self).spec_get_block(block_pos) is None && final(self).cells() == old(self).cells(),
            },
    {
        match pos_to_index(block_pos, self.dims) {
            Some(i) => if i < N {
                Some(&mut self.grid[i])
            } else {
                None
            },
            None => None,
        }
    }

    pub fn get_block_or(&self, block_pos: BlockPos, default: BlockId) -> (r: BlockId)
        ensures
            r == match self.spec_get_block(block_pos) {
                Some(b) => b,
                None => default,
            },
    {
        match self.get_block(block_pos) {
            Some(b) => b,
            None => default,
        }
    }

    pub fn get_neighbor_of(&self, block_pos: BlockPos, face: Face) -> (r: Option<BlockId>)
        ensures
            r == self.spec_get_neighbor_of(block_pos, face),
            self.wf() ==> (r is Some <==> !spec_on_edge(block_pos, face, self.dims)),
    {
        match neighbor_pos(block_pos, face, self.dims) {
            Some(p) => self.get_block(p),
            None => None,
        }
    }

    pub fn get_neighbor_of_or(&self, block_pos: BlockPos, face: Face, default: BlockId) -> (r:
        BlockId)
        ensures
            r == match self.spec_get_neighbor_of(block_pos, face) {
                Some(b) => b,
                None => default,
            },
    {
        match self.get_neighbor_of(block_pos, face) {
            Some(b) => b,
            None => default,
        }
    }

    pub fn get_neighbors(&self, block_pos: BlockPos) -> (r: SurroundingBlocks<BlockId>)
        ensures
            r@ == self.spec_get_neighbors(block_pos),
    {
        let r = [
            self.get_neighbor_of(block_pos, Face::Top),
            self.get_neighbor_of(block_pos, Face::Bottom),
            self.get_neighbor_of(block_pos, Face::Right),
            self.get_neighbor_of(block_pos, Face::Left),
            self.get_neighbor_of(block_pos, Face::Back),
            self.get_neighbor_of(block_pos, Face::Front),
        ];
        assert(r@ =~= self.spec_get_neighbors(block_pos));
        r
    }

    pub fn get_neighbors_or(&self, block_pos: BlockPos, default: BlockId) -> (r: [BlockId; 6])
        ensures
            r@ == Seq::new(
                6,
                |i: int|
                    match self.spec_get_neighbor_of(block_pos, face_at(i)) {
                        Some(b) => b,
                        None => default,
                    },
            ),
    {
        let r = [
            self.get_neighbor_of_or(block_pos, Face::Top, default),
            self.get_neighbor_of_or(block_pos, Face::Bottom, default),
            self.get_neighbor_of_or(block_pos, Face::Right, default),
            self.get_neighbor_of_or(block_pos, Face::Left, default),
            self.get_neighbor_of_or(block_pos, Face::Back, default),
            self.get_neighbor_of_or(block_pos, Face::Front, default),
        ];
        assert(r@ =~= Seq::new(
            6,
            |i: int|
                match self.spec_get_neighbor_of(block_pos, face_at(i)) {
                    Some(b) => b,
                    None => default,
                },
        ));
        r
    }

    pub fn enumerate_neighbors(&self, block_pos: BlockPos) -> (r: [(Face, Option<BlockId>); 6])
        ensures
            r@ == Seq::new(
                6,
                |i: int| (face_at(i), self.spec_get_neighbor_of(block_pos, face_at(i))),
            ),
    {
        let r = [
            (Face::Top, self.get_neighbor_of(block_pos, Face::Top)),
            (Face::Bottom, self.get_neighbor_of(block_pos, Face::Bottom)),
            (Face::Right, self.get_neighbor_of(block_pos, Face::Right)),
            (Face::Left, self.get_neighbor_of(block_pos, Face::Left)),
            (Face::Back, self.get_neighbor_of(block_pos, Face::Back)),
            (Face::Front, self.get_neighbor_of(block_pos, Face::Front)),
        ];
        assert(r@ =~= Seq::new(
            6,
            |i: int| (face_at(i), self.spec_get_neighbor_of(block_pos, face_at(i))),
        ));
        r
    }

    /// Every cell with its position, in the order of the indices.
    pub fn enumerate_blocks(&self) -> (r: Vec<(BlockPos, BlockId)>)
        requires
            self.wf(),
        ensures
            r@.len() == N,
            forall|i: int|
                0 <= i < N ==> (#[trigger] r@[i]) == (
                    spec_index_to_pos(i as usize, self.dims).unwrap(),
                    self.cells()[i],
                ),
    {
        let mut r: Vec<(BlockPos, BlockId)> = Vec::new();
        let mut i: usize = 0;
        while i < N
            invariant
                self.wf(),
                i <= N,
                r@.len() == i,
                forall|j: int|
                    0 <= j < i ==> (#[trigger] r@[j]) == (
                        spec_index_to_pos(j as usize, self.dims).unwrap(),
                        self.cells()[j],
                    ),
            decreases N - i,
        {
            let pos = index_to_pos(i, self.dims).unwrap();
            r.push((pos, self.grid[i]));
            i = i + 1;
        }
        r
    }

    pub fn iter_blocks_on_edge(&self, edge: Face) -> (r: Vec<BlockPos>)
        requires
            self.wf(),
        ensures
            r@ == spec_blocks_on_edge(edge, self.dims, self.dims.volume()),
    {
        iter_blocks_on_edge(edge, self.dims)
    }

    /// The cells on an edge, each with its block.
    pub fn enumerate_blocks_on_edge(&self, edge: Face) -> (r: Vec<(BlockPos, BlockId)>)
        requires
            self.wf(),
        ensures
            r@.len() == spec_blocks_on_edge(edge, self.dims, self.dims.volume()).len(),
            forall|i: int|
                0 <= i < r@.len() ==> {
                    let p = spec_blocks_on_edge(edge, self.dims, self.dims.volume())[i];
                    (#[trigger] r@[i]) == (p, self.spec_get_block(p).unwrap())
                },
    {
        let positions = iter_blocks_on_edge(edge, self.dims);
        let mut r: Vec<(BlockPos, BlockId)> = Vec::new();
        let mut i: usize = 0;
        while i < positions.len()
            invariant
                self.wf(),
                i <= positions@.len(),
                positions@ == spec_blocks_on_edge(edge, self.dims, self.dims.volume()),
                r@.len() == i,
                forall|j: int|
                    0 <= j < i ==> (#[trigger] r@[j]) == (
                        positions@[j],
                        self.spec_get_block(positions@[j]).unwrap(),
                    ),
            decreases positions@.len() - i,
        {
            let pos = positions[i];
            proof {
                assert(positions@.contains(pos));
                lemma_blocks_on_edge_contains(edge, self.dims, self.dims.volume(), pos);
            }
            let block = self.get_block(pos).unwrap();
            r.push((pos, block));
            i = i + 1;
        }
        r
    }

    /// Puts `block` at `block_pos`; fails, and changes nothing, outside the grid.
    pub fn set_block(&mut self, block: BlockId, block_pos: BlockPos) -> (r: Result<(), ()>)
        ensures
            final(self).dims == old(self).dims,
            match spec_pos_to_index(block_pos, old(self).dims) {
                Some(i) => if i < N {
                    r is Ok && final(self).cells() == old(self).cells().update(i as int, block)
                } else {
                    r is Err && final(self).cells() == old(self).cells()
                },
                None => r is Err && final(self).cells() == old(self).cells(),
            },
    {
        match pos_to_index(block_pos, self.dims) {
            Some(block_index) => {
                if block_index < N {
                    self.grid[block_index] = block;
                    return Ok(());
                }
                Err(())
            },
            None => Err(()),
        }
    }
}

/// The cells that `block_pos` touches in the neighboring chunks, with the face through
/// which it touches each.
pub fn enumerate_neighbors_across_chunks(block_pos: BlockPos, dims: Dimensions) -> (r: Vec<
    (Face, BlockPos),
>)
    ensures
        r@ == spec_faces().filter_map(
            |face: Face|
                match spec_neighbor_across_chunk(block_pos, face, dims) {
                    Some(p) => Some((face, p)),
                    None => None,
                },
        ),
{
    let ghost f = |face: Face|
        match spec_neighbor_across_chunk(block_pos, face, dims) {
            Some(p) => Some((face, p)),
            None => None::<(Face, BlockPos)>,
        };
    let all = faces();
    let mut r: Vec<(Face, BlockPos)> = Vec::new();
    let mut i: usize = 0;
    proof {
        assert(spec_faces().take(0) =~= Seq::<Face>::empty());
    }
    while i < 6
        invariant
            i <= 6,
            all@ == spec_faces(),
            f == |face: Face|
                match spec_neighbor_across_chunk(block_pos, face, dims) {
                    Some(p) => Some((face, p)),
                    None => None::<(Face, BlockPos)>,
                },
            r@ == spec_faces().take(i as int).filter_map(f),
        decreases 6 - i,
    {
        let face = all[i];
        proof {
            spec_faces().lemma_filter_map_take_succ(f, i as int);
        }
        match neighbor_across_chunk(block_pos, face, dims) {
            Some(p) => {
                r.push((face, p));
            },
            None => {},
        }
        i = i + 1;
    }
    proof {
        assert(spec_faces().take(6) =~= spec_faces());
    }
    r
}

/// The position of a block in the world: its chunk and its place in it.
#[derive(Clone, Copy, Debug, PartialEq, Eq, Structural)]
pub struct BlockGlobalPos {
    pub pos: BlockPos,
    pub cords: ChunkCords,
    pub valid: bool,
}

impl BlockGlobalPos {
    pub fn new(block_pos: BlockPos, chunk_cords: ChunkCords) -> (r: Self)
        ensures
            r == (BlockGlobalPos { pos: block_pos, cords: chunk_cords, valid: true }),
    {
        Self { pos: block_pos, cords: chunk_cords, valid: true }
    }
}

/// The coordinates of the chunk that lies next to `chunk_cords` beyond `face`.
pub open spec fn spec_adj_chunk(chunk_cords: ChunkCords, face: Face) -> (int, int) {
    match face {
        Face::Top | Face::Bottom => (chunk_cords.x as int, chunk_cords.y as int),
        Face::Back => (chunk_cords.x as int, chunk_cords.y + 1),
        Face::Front => (chunk_cords.x as int, chunk_cords.y - 1),
        Face::Right => (chunk_cords.x + 1, chunk_cords.y as int),
        Face::Left => (chunk_cords.x - 1, chunk_cords.y as int),
    }
}

/// Whether the chunk next to `chunk_cords` beyond `face` has coordinates at all.
pub open spec fn spec_adj_chunk_exists(chunk_cords: ChunkCords, face: Face) -> bool {
    let (x, y) = spec_adj_chunk(chunk_cords, face);
    i32::MIN <= x <= i32::MAX && i32::MIN <= y <= i32::MAX
}

pub fn adj_chunk(chunk_cords: ChunkCords, face: Face) -> (r: ChunkCords)
    requires
        spec_adj_chunk_exists(chunk_cords, face),
    ensures
        (r.x as int, r.y as int) == spec_adj_chunk(chunk_cords, face),
{
    match face {
        Face::Top | Face::Bottom => chunk_cords,
        Face::Back => IVec2 { x: chunk_cords.x, y: chunk_cords.y + 1 },
        Face::Front => IVec2 { x: chunk_cords.x, y: chunk_cords.y - 1 },
        Face::Right => IVec2 { x: chunk_cords.x + 1, y: chunk_cords.y },
        Face::Left => IVec2 { x: chunk_cords.x - 1, y: chunk_cords.y },
    }
}

/// The distance between two chunks: the greater of the distances along the two axes.
pub open spec fn spec_chunk_distance(chunk1: ChunkCords, chunk2: ChunkCords) -> int {
    let dx = if chunk1.x >= chunk2.x {
        chunk1.x - chunk2.x
    } else {
        chunk2.x - chunk1.x
    };
    let dy = if chunk1.y >= chunk2.y {
        chunk1.y - chunk2.y
    } else {
        chunk2.y - chunk1.y
    };
    if dx >= dy {
        dx
    } else {
        dy
    }
}

pub fn chunk_distance(chunk1: ChunkCords, chunk2: ChunkCords) -> (r: i32)
    requires
        spec_chunk_distance(chunk1, chunk2) <= i32::MAX,
    ensures
        r == spec_chunk_distance(chunk1, chunk2),
{
    let dx: i64 = if chunk1.x >= chunk2.x {
        chunk1.x as i64 - chunk2.x as i64
    } else {
        chunk2.x as i64 - chunk1.x as i64
    };
    let dy: i64 = if chunk1.y >= chunk2.y {
        chunk1.y as i64 - chunk2.y as i64
    } else {
        chunk2.y as i64 - chunk1.y as i64
    };
    if dx >= dy {
        dx as i32
    } else {
        dy as i32
    }
}

/// The neighbor of a block in the world: in the same chunk where there is one, else
/// in the chunk beyond the face. Without either the position comes back marked
/// invalid.
pub open spec fn spec_global_neighbor(global_pos: BlockGlobalPos, face: Face, dims: Dimensions) -> (
    BlockPos,
    (int, int),
    bool,
) {
    match spec_neighbor_pos(global_pos.pos, face, dims) {
        Some(p) => (p, (global_pos.cords.x as int, global_pos.cords.y as int), dims.y > p.y),
        None => match spec_neighbor_across_chunk(global_pos.pos, face, dims) {
            Some(p) => (p, spec_adj_chunk(global_pos.cords, face), dims.y > p.y),
            None => (
                global_pos.pos,
                (global_pos.cords.x as int, global_pos.cords.y as int),
                false,
            ),
        },
    }
}

pub fn global_neighbor(global_pos: BlockGlobalPos, face: Face, dims: Dimensions) -> (r:
    BlockGlobalPos)
    requires
        spec_adj_chunk_exists(global_pos.cords, face),
    ensures
        (r.pos, (r.cords.x as int, r.cords.y as int), r.valid) == spec_global_neighbor(
            global_pos,
            face,
            dims,
        ),
{
    if let Some(neighbor) = neighbor_pos(global_pos.pos, face, dims) {
        return BlockGlobalPos {
            pos: neighbor,
            cords: global_pos.cords,
            valid: dims.y > neighbor.y,
        };
    } else if let Some(neighbor) = neighbor_across_chunk(global_pos.pos, face, dims) {
        return BlockGlobalPos {
            pos: neighbor,
            cords: adj_chunk(global_pos.cords, face),
            valid: dims.y > neighbor.y,
        };
    }
    let mut r = global_pos;
    r.valid = false;
    r
}

/// The six neighbors of a block in the world, each with the face towards it.
pub fn global_enumerate_neighboring_blocks(global_pos: BlockGlobalPos, dims: Dimensions) -> (r:
    Vec<(Face, BlockGlobalPos)>)
    requires
        forall|i: int| 0 <= i < 6 ==> spec_adj_chunk_exists(global_pos.cords, face_at(i)),
    ensures
        r@.len() == 6,
        forall|i: int|
            0 <= i < 6 ==> {
                let n = (#[trigger] r@[i]).1;
                &&& r@[i].0 == face_at(i)
                &&& (n.pos, (n.cords.x as int, n.cords.y as int), n.valid) == spec_global_neighbor(
                    global_pos,
                    face_at(i),
                    dims,
                )
            },
{
    let all = faces();
    let mut r: Vec<(Face, BlockGlobalPos)> = Vec::new();
    let mut i: usize = 0;
    while i < 6
        invariant
            i <= 6,
            all@ == spec_faces(),
            forall|j: int| 0 <= j < 6 ==> all@[j] == face_at(j),
            forall|j: int| 0 <= j < 6 ==> spec_adj_chunk_exists(global_pos.cords, face_at(j)),
            r@.len() == i,
            forall|j: int|
                0 <= j < i ==> {
                    let n = (#[trigger] r@[j]).1;
                    &&& r@[j].0 == face_at(j)
                    &&& (n.pos, (n.cords.x as int, n.cords.y as int), n.valid)
                        == spec_global_neighbor(global_pos, face_at(j), dims)
                },
        decreases 6 - i,
    {
        let face = all[i];
        assert(face == face_at(i as int));
        r.push((face, global_neighbor(global_pos, face, dims)));
        i = i + 1;
    }
    r
}

} // verus!
