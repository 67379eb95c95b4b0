use mint::nav::{
    get_cell, get_cell_index, get_cell_server, DeepBitArray, DeepSparseArray,
    DeepVirtExpandingArray, FChunkIDAndOffset, FChunkId, FChunkOffset, FCoreCSGWorld,
    FDeepCellStored, FDeepCellStoredServer, FDeepSectionInfo, FPFBitData, FPFByteData,
    FSDVirtualMemAllocator, FTerrainMeshBox, FTerrainMeshVertex,
};

fn cell(solidity: u8) -> FDeepCellStored {
    let bits = FPFBitData { volume1: 0, volume2: 0, volume3: 0 };
    let v = FTerrainMeshVertex { x: 0, y: 0, z: 0 };
    FDeepCellStored {
        sdf_volume: FPFByteData { volume1: 0, volume2: 0, volume3: 0 },
        solidity,
        tmp_solidity: 0,
        mesh_bounding_box: FTerrainMeshBox { min: v, max: v },
        pf_solid_volume_from_objects: bits,
        pf_danger_volume_from_objects: bits,
        pf_block_volume_from_objects: bits,
    }
}

fn server_cell(volume1: u32) -> FDeepCellStoredServer {
    let bits = FPFBitData { volume1, volume2: 0, volume3: 0 };
    FDeepCellStoredServer {
        danger_material_volume: bits,
        prevent_spawn_material_volume: bits,
        tmp_danger_material_volume: bits,
        tmp_prevent_spawn_material_volume: bits,
    }
}

fn expanding<T>(start: Vec<T>) -> DeepVirtExpandingArray<T> {
    let n = start.len() as i32;
    DeepVirtExpandingArray { start, count: n, allocated: n, virtual_mem: FSDVirtualMemAllocator { reserved: 0 } }
}

/// A store whose section 0 (the chunk at the lowest corner) is allocated with
/// its cells from index 4.
fn world() -> FCoreCSGWorld {
    let mut high_bits = vec![0u64; 0x500];
    let mut bits = vec![0u64; 0x14000];
    high_bits[0] = 1;
    bits[0] = 1;
    FCoreCSGWorld {
        section_infos: DeepSparseArray {
            num_alloced: 1,
            buffer: vec![FDeepSectionInfo { cell_offset: 4, has_no_triangles: 0, normal_zmin: 0, normal_zmax: 0 }],
        },
        cells: expanding((0..80).map(|i| cell(i as u8)).collect()),
        cells_connectivity: expanding(vec![]),
        cells_pathfinder: expanding((0..80).map(server_cell).collect()),
        sections_allocated: DeepBitArray { high_bits, bits },
        alloc_server_cells: false,
    }
}

fn at(cx: i16, cy: i16, cz: i16, ox: i16, oy: i16, oz: i16) -> FChunkIDAndOffset {
    FChunkIDAndOffset {
        chunk_id: FChunkId { x: cx, y: cy, z: cz },
        offset: FChunkOffset { x: ox, y: oy, z: oz },
    }
}

#[test]
fn cell_index_of_an_allocated_section() {
    let w = world();
    assert_eq!(get_cell_index(&w, at(-0x80, -0x80, -0x40, 0, 0, 0)), Some(4));
    // offset (1, 2, 3): 4 + ((3 * 4) + 2) * 4 + 1
    assert_eq!(get_cell_index(&w, at(-0x80, -0x80, -0x40, 1, 2, 3)), Some(61));
    assert_eq!(get_cell(&w, at(-0x80, -0x80, -0x40, 1, 2, 3)).map(|c| c.solidity), Some(61));
    assert_eq!(get_cell_server(&w, at(-0x80, -0x80, -0x40, 1, 0, 0)).map(|c| c.danger_material_volume.volume1), Some(5));
}

#[test]
fn unallocated_or_outside_sections_have_no_cell() {
    let w = world();
    // the next section along x is not allocated
    assert_eq!(get_cell_index(&w, at(-0x7f, -0x80, -0x40, 0, 0, 0)), None);
    // beyond the last section of the map
    assert_eq!(get_cell_index(&w, at(0, 0, 0x40, 0, 0, 0)), None);
    // coordinates below the map's range
    assert_eq!(get_cell_index(&w, at(-0x81, -0x80, -0x40, 0, 0, 0)), None);
    assert!(get_cell(&w, at(0, 0, 0, 0, 0, 0)).is_none());
}

#[test]
fn summary_bit_gates_the_section_bit() {
    let mut w = world();
    w.sections_allocated.high_bits[0] = 0;
    assert_eq!(get_cell_index(&w, at(-0x80, -0x80, -0x40, 0, 0, 0)), None);
}
