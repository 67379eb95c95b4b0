//! The terrain's cell store, as the game lays it out: which map sections are
//! allocated, and where the cells of a section start.
//!
//! A position names a chunk and an offset in it. The chunk picks one of the
//! map's sections; a section is allocated when both its summary bit and its own
//! bit are set, and its cells start at the section's cell offset, four by four
//! by four.

use vstd::prelude::*;

verus! {

/// A chunk of the terrain grid.
#[derive(Clone, Copy, Debug, PartialEq, Eq, Structural)]
pub struct FChunkId {
    pub x: i16,
    pub y: i16,
    pub z: i16,
}

/// An offset inside a chunk.
#[derive(Clone, Copy, Debug, PartialEq, Eq, Structural)]
pub struct FChunkOffset {
    pub x: i16,
    pub y: i16,
    pub z: i16,
}

/// A chunk and an offset in it.
#[derive(Clone, Copy, Debug, PartialEq, Eq, Structural)]
pub struct FChunkIDAndOffset {
    pub chunk_id: FChunkId,
    pub offset: FChunkOffset,
}

/// The game's bit array of allocated sections: one summary bit per 64 sections,
/// and one bit per section.
#[derive(Debug)]
pub struct DeepBitArray {
    pub high_bits: Vec<u64>,
    pub bits: Vec<u64>,
}

/// A sparse array of the game: the number of slots allocated and the slots.
#[derive(Debug)]
pub struct DeepSparseArray<T> {
    pub num_alloced: i32,
    pub buffer: Vec<T>,
}

/// What the game keeps of a map section.
#[derive(Clone, Copy, Debug, PartialEq, Eq, Structural)]
pub struct FDeepSectionInfo {
    pub cell_offset: u32,
    pub has_no_triangles: u8,
    pub normal_zmin: u8,
    pub normal_zmax: u8,
}

/// The game's reserved virtual memory behind an expanding array.
#[derive(Clone, Copy, Debug, PartialEq, Eq, Structural)]
pub struct FSDVirtualMemAllocator {
    pub reserved: u64,
}

/// An array of the game that grows inside reserved virtual memory.
#[derive(Debug)]
pub struct DeepVirtExpandingArray<T> {
    pub start: Vec<T>,
    pub count: i32,
    pub allocated: i32,
    pub virtual_mem: FSDVirtualMemAllocator,
}

/// Three volumes of per-cell byte data.
#[derive(Clone, Copy, Debug, PartialEq, Eq, Structural)]
pub struct FPFByteData {
    pub volume1: u32,
    pub volume2: u32,
    pub volume3: u32,
}

/// Three volumes of per-cell bit data.
#[derive(Clone, Copy, Debug, PartialEq, Eq, Structural)]
pub struct FPFBitData {
    pub volume1: u32,
    pub volume2: u32,
    pub volume3: u32,
}

/// A corner of a terrain mesh's bounding box.
#[derive(Clone, Copy, Debug, PartialEq, Eq, Structural)]
pub struct FTerrainMeshVertex {
    pub x: u16,
    pub y: u16,
    pub z: u16,
}

/// The bounding box of a terrain mesh.
#[derive(Clone, Copy, Debug, PartialEq, Eq, Structural)]
pub struct FTerrainMeshBox {
    pub min: FTerrainMeshVertex,
    pub max: FTerrainMeshVertex,
}

/// A terrain cell.
#[derive(Clone, Copy, Debug, PartialEq, Eq, Structural)]
pub struct FDeepCellStored {
    pub sdf_volume: FPFByteData,
    pub solidity: u8,
    pub tmp_solidity: u8,
    pub mesh_bounding_box: FTerrainMeshBox,
    pub pf_solid_volume_from_objects: FPFBitData,
    pub pf_danger_volume_from_objects: FPFBitData,
    pub pf_block_volume_from_objects: FPFBitData,
}

/// The server's data of a terrain cell.
#[derive(Clone, Copy, Debug, PartialEq, Eq, Structural)]
pub struct FDeepCellStoredServer {
    pub danger_material_volume: FPFBitData,
    pub prevent_spawn_material_volume: FPFBitData,
    pub tmp_danger_material_volume: FPFBitData,
    pub tmp_prevent_spawn_material_volume: FPFBitData,
}

/// The connectivity data of a terrain cell.
#[derive(Clone, Copy, Debug, PartialEq, Eq, Structural)]
pub struct FDeepCellStoredConnectivity {}

/// The terrain store: sections, cells, and the bits of allocated sections.
#[derive(Debug)]
pub struct FCoreCSGWorld {
    pub section_infos: DeepSparseArray<FDeepSectionInfo>,
    pub cells: DeepVirtExpandingArray<FDeepCellStored>,
    pub cells_connectivity: DeepVirtExpandingArray<FDeepCellStoredConnectivity>,
    pub cells_pathfinder: DeepVirtExpandingArray<FDeepCellStoredServer>,
    pub sections_allocated: DeepBitArray,
    pub alloc_server_cells: bool,
}

/// The last section index of the map.
pub open spec fn max_section() -> usize {
    0x4fffff
}

/// The section of a chunk: its `z`, `y` and `x`, each moved into range,
/// in bits 16 and up, 8 and up, and 0 and up.
pub open spec fn section_index(c: FChunkIDAndOffset) -> usize {
    (((c.chunk_id.z + 0x40) as usize) << 0x10usize) | (((c.chunk_id.y + 0x80) as usize)
        << 0x8usize) | ((c.chunk_id.x + 0x80) as usize)
}

/// The section of a chunk of the map: `x` and `y` run from `-0x80` to `0x7f`
/// and `z` from `-0x40` to `0x3f`, and the sections are numbered `x` fastest,
/// then `y` in steps of `0x100`, then `z` in steps of `0x10000`.
pub proof fn lemma_section_of_chunk(c: FChunkIDAndOffset)
    requires
        -0x80 <= c.chunk_id.x < 0x80,
        -0x80 <= c.chunk_id.y < 0x80,
        -0x40 <= c.chunk_id.z < 0x40,
    ensures
        section_index(c) == (c.chunk_id.z + 0x40) * 0x10000 + (c.chunk_id.y + 0x80) * 0x100 + (
        c.chunk_id.x + 0x80),
{
    let a = (c.chunk_id.z + 0x40) as usize;
    let b = (c.chunk_id.y + 0x80) as usize;
    let d = (c.chunk_id.x + 0x80) as usize;
    assert(a < 0x80 && b < 0x100 && d < 0x100 ==> (a << 0x10usize) | (b << 0x8usize) | d == a
        * 0x10000 + b * 0x100 + d) by (bit_vector);
}

/// Neighbouring chunks of the map have neighbouring sections: one step along
/// `x` is the next section, one step along `y` is `0x100` sections on.
pub proof fn lemma_section_steps(c: FChunkIDAndOffset, e: FChunkIDAndOffset)
    requires
        -0x80 <= c.chunk_id.x < 0x80,
        -0x80 <= c.chunk_id.y < 0x80,
        -0x40 <= c.chunk_id.z < 0x40,
        -0x80 <= e.chunk_id.x < 0x80,
        -0x80 <= e.chunk_id.y < 0x80,
        -0x40 <= e.chunk_id.z < 0x40,
    ensures
        e.chunk_id.x == c.chunk_id.x + 1 && e.chunk_id.y == c.chunk_id.y && e.chunk_id.z
            == c.chunk_id.z ==> section_index(e) == section_index(c) + 1,
        e.chunk_id.x == c.chunk_id.x && e.chunk_id.y == c.chunk_id.y + 1 && e.chunk_id.z
            == c.chunk_id.z ==> section_index(e) == section_index(c) + 0x100,
{
    lemma_section_of_chunk(c);
    lemma_section_of_chunk(e);
}

/// Section `s` is allocated: its summary bit and its own bit are set.
pub open spec fn section_allocated(b: DeepBitArray, s: usize) -> bool {
    let h = s >> 6usize;
    &&& b.high_bits@[(h >> 6usize) as int] & (1u64 << (h & 0x3fusize)) != 0
    &&& b.bits@[(s >> 6usize) as int] & (1u64 << (s & 0x3fusize)) != 0
}

/// The index of the cell at `c`: the cell offset of its allocated section plus
/// the offset in the chunk, four by four by four; `None` when the section is
/// out of the map or not allocated.
pub open spec fn cell_index(w: FCoreCSGWorld, c: FChunkIDAndOffset) -> Option<usize> {
    let s = section_index(c);
    if s > max_section() || !section_allocated(w.sections_allocated, s) {
        None
    } else {
        Some(
            (w.section_infos.buffer@[s as int].cell_offset + (c.offset.z * 4 + c.offset.y) * 4
                + c.offset.x) as usize,
        )
    }
}

/// The cells of a chunk are numbered `x` fastest, then `y` in steps of four,
/// then `z` in steps of sixteen: one step along an axis inside the chunk moves
/// the cell index by that much.
pub proof fn lemma_cell_steps(w: FCoreCSGWorld, c: FChunkIDAndOffset, e: FChunkIDAndOffset)
    requires
        world_wf(w),
        e.chunk_id == c.chunk_id,
        0 <= c.offset.x < 4 && 0 <= c.offset.y < 4 && 0 <= c.offset.z < 4,
        0 <= e.offset.x < 4 && 0 <= e.offset.y < 4 && 0 <= e.offset.z < 4,
        cell_index(w, c) is Some,
    ensures
        cell_index(w, e) is Some,
        cell_index(w, e)->0 - cell_index(w, c)->0 == (e.offset.z - c.offset.z) * 16 + (e.offset.y
            - c.offset.y) * 4 + (e.offset.x - c.offset.x),
{
    let s = section_index(c);
    assert(section_index(e) == s);
}

/// The store as the game keeps it: both bit arrays at full size, and every
/// allocated section within the section infos, with room for its cells' indices.
pub open spec fn world_wf(w: FCoreCSGWorld) -> bool {
    &&& w.sections_allocated.high_bits@.len() == 0x500
    &&& w.sections_allocated.bits@.len() == 0x14000
    &&& forall|s: usize|
        s <= max_section() && #[trigger] section_allocated(w.sections_allocated, s) ==> s
            < w.section_infos.buffer@.len() && w.section_infos.buffer@[s as int].cell_offset
            + 0x10_0000 <= usize::MAX
}

/// A position that the cell lookup accepts: chunk coordinates that stay in
/// range once moved, and offsets that are not negative.
pub open spec fn position_ok(c: FChunkIDAndOffset) -> bool {
    &&& c.chunk_id.x <= 0x7fff - 0x80
    &&& c.chunk_id.y <= 0x7fff - 0x80
    &&& c.chunk_id.z <= 0x7fff - 0x40
    &&& c.offset.x >= 0
    &&& c.offset.y >= 0
    &&& c.offset.z >= 0
}

/// The index of the cell at `chunk_and_offset`, as [`cell_index`] gives it.
pub fn get_cell_index(this: &FCoreCSGWorld, chunk_and_offset: FChunkIDAndOffset) -> (r: Option<
    usize,
>)
    requires
        world_wf(*this),
        position_ok(chunk_and_offset),
    ensures
        r == cell_index(*this, chunk_and_offset),
{
    let c = chunk_and_offset;
    let section_index: usize = (((c.chunk_id.z + 0x40) as usize) << 0x10usize) | (((c.chunk_id.y
        + 0x80) as usize) << 0x8usize) | ((c.chunk_id.x + 0x80) as usize);
    if section_index > 0x4fffff {
        return None;
    }
    let high_index = section_index >> 6usize;
    proof {
        assert(section_index <= 0x4fffff ==> (section_index >> 6usize) >> 6usize < 0x500
            && section_index >> 6usize < 0x14000) by (bit_vector);
        assert((high_index & 0x3fusize) < 64 && (section_index & 0x3fusize) < 64) by (bit_vector);
    }
    let high = this.sections_allocated.high_bits[high_index >> 6usize];
    if 0 == high & (1u64 << (high_index & 0x3fusize)) {
        return None;
    }
    let low = this.sections_allocated.bits[section_index >> 6usize];
    if 0 == low & (1u64 << (section_index & 0x3fusize)) {
        return None;
    }
    assert(section_allocated(this.sections_allocated, section_index));
    let cell_offset = this.section_infos.buffer[section_index].cell_offset as usize;
    let index = cell_offset + (((c.offset.z as usize * 4) + c.offset.y as usize) * 4)
        + c.offset.x as usize;
    Some(index)
}

/// The cell at `chunk_and_offset`, when its section is allocated.
pub fn get_cell(this: &FCoreCSGWorld, chunk_and_offset: FChunkIDAndOffset) -> (r: Option<
    &FDeepCellStored,
>)
    requires
        world_wf(*this),
        position_ok(chunk_and_offset),
        cell_index(*this, chunk_and_offset) matches Some(i) ==> i < this.cells.start@.len(),
    ensures
        match cell_index(*this, chunk_and_offset) {
            Some(i) => r == Some(&this.cells.start@[i as int]),
            None => r is None,
        },
{
    match get_cell_index(this, chunk_and_offset) {
        Some(index) => Some(&this.cells.start[index]),
        None => None,
    }
}

/// The server data of the cell at `chunk_and_offset`, when its section is allocated.
pub fn get_cell_server(this: &FCoreCSGWorld, chunk_and_offset: FChunkIDAndOffset) -> (r: Option<
    &FDeepCellStoredServer,
>)
    requires
        world_wf(*this),
        position_ok(chunk_and_offset),
        cell_index(*this, chunk_and_offset) matches Some(i) ==> i
            < this.cells_pathfinder.start@.len(),
    ensures
        match cell_index(*this, chunk_and_offset) {
            Some(i) => r == Some(&this.cells_pathfinder.start@[i as int]),
            None => r is None,
        },
{
    match get_cell_index(this, chunk_and_offset) {
        Some(index) => Some(&this.cells_pathfinder.start[index]),
        None => None,
    }
}

} // verus!
