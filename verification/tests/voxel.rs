use space_engine::voxel::{chunk_size_valid, floor_origin_axis, try_floor_origin_axis, Vec3i, VoxelChunk, VoxelMap};

#[test]
fn get_set_test() {
    let mut chunk = VoxelChunk::<i32>::new(Vec3i::new(0, 0, 0), Vec3i::new(10, 10, 10));
    assert_eq!(*chunk.get(5, 5, 5), 0);

    *chunk.get_mut(5, 5, 5) = 10;
    assert_eq!(*chunk.get(5, 5, 5), 10);
}

#[test]
fn fill_test() {
    let mut chunk = VoxelChunk::<i32>::new(Vec3i::new(0, 0, 0), Vec3i::new(10, 10, 10));
    assert_eq!(*chunk.get(5, 5, 5), 0);

    chunk.fill(&11);
    assert_eq!(*chunk.get(5, 5, 5), 11);
}

#[test]
fn get_origin() {
    let map = VoxelMap::<i32>::new(Vec3i::new(10, 10, 10));
    let origin = map.get_origin(&Vec3i::new(0, 11, -1));
    assert_eq!(origin.x, 0);
    assert_eq!(origin.y, 10);
    assert_eq!(origin.z, -10);
}

#[test]
fn get_chunk() {
    let map = VoxelMap::<i32>::new(Vec3i::new(10, 10, 10));
    assert!(map.get_chunk_by_voxel(&Vec3i::new(0, 0, 0)).is_none());
}

#[test]
fn get_set() {
    // (11.0, 10.0, -9.0) on a grid of voxel size 2.0 is voxel (6, 5, -5).
    let mut map = VoxelMap::<i32>::new(Vec3i::new(10, 10, 10));
    let pos = Vec3i::new(6, 5, -5);
    assert_eq!(map.get_cloned_by_voxel(&pos), 0);

    map.set_by_voxel(&pos, 11);
    assert_eq!(map.get_cloned_by_voxel(&pos), 11);
    let origin = map.get_origin(&pos);
    assert!(map.is_dirty(&origin));
}

#[test]
fn chunk_layout_is_x_fastest() {
    let mut chunk = VoxelChunk::<u8>::new(Vec3i::new(0, 0, 0), Vec3i::new(2, 3, 4));
    assert_eq!(chunk.data.len(), 24);
    *chunk.get_mut(1, 2, 3) = 7;
    assert_eq!(chunk.data[(3 * 3 + 2) * 2 + 1], 7);
    *chunk.get_mut(1, 0, 0) = 5;
    assert_eq!(chunk.data[1], 5);
    assert_eq!(*chunk.get(0, 0, 0), 0);
}

#[test]
fn empty_chunk_has_no_storage() {
    let chunk = VoxelChunk::<i32>::new(Vec3i::new(1, 2, 3), Vec3i::new(0, 4, 4));
    assert_eq!(chunk.data.len(), 0);
    assert_eq!(chunk.origin, Vec3i::new(1, 2, 3));
}

#[test]
fn floor_origin_rounds_down() {
    assert_eq!(floor_origin_axis(0, 10), 0);
    assert_eq!(floor_origin_axis(9, 10), 0);
    assert_eq!(floor_origin_axis(10, 10), 10);
    assert_eq!(floor_origin_axis(-1, 10), -10);
    assert_eq!(floor_origin_axis(-10, 10), -10);
    assert_eq!(floor_origin_axis(-11, 10), -20);
    assert_eq!(floor_origin_axis(7, 1), 7);
    assert_eq!(floor_origin_axis(-2147483648, 1), -2147483648);
    assert_eq!(floor_origin_axis(2147483647, 10), 2147483640);
}

#[test]
fn floor_origin_on_zero_and_negative_extents() {
    // floor(p / s) * s, as the float formula gives for small coordinates.
    for &(p, s) in &[(5, -10), (-5, -10), (0, -10), (10, -10), (-10, -10), (11, -10), (7, -1), (3, 0), (-3, 0)] {
        let expected = ((p as f32 / s as f32).floor() as i32).wrapping_mul(s);
        assert_eq!(floor_origin_axis(p, s), expected, "p = {}, s = {}", p, s);
    }
    assert_eq!(floor_origin_axis(5, -10), 10);
    assert_eq!(floor_origin_axis(-5, -10), 0);
    assert_eq!(floor_origin_axis(10, -10), 10);
    assert_eq!(floor_origin_axis(11, -10), 20);
    assert_eq!(floor_origin_axis(123, 0), 0);
    assert_eq!(try_floor_origin_axis(2147483647, -10), None);
    assert_eq!(try_floor_origin_axis(2147483640, -10), Some(2147483640));
    assert_eq!(try_floor_origin_axis(-2147483648, 10), None);
}

#[test]
fn origins_for_any_extent() {
    let map = VoxelMap::<i32>::new(Vec3i::new(0, -10, 4));
    assert_eq!(map.get_origin(&Vec3i::new(7, 5, -1)), Vec3i::new(0, 10, -4));
    assert_eq!(map.try_get_origin(&Vec3i::new(7, 2147483647, 0)), None);
    assert!(map.get_chunk_by_voxel(&Vec3i::new(7, 5, -1)).is_none());
    assert_eq!(map.get_cloned_by_voxel(&Vec3i::new(7, 5, -1)), 0);
}

#[test]
fn set_keeps_other_voxels_and_chunks() {
    let mut map = VoxelMap::<i32>::new(Vec3i::new(4, 4, 4));
    map.set_by_voxel(&Vec3i::new(1, 1, 1), 3);
    map.set_by_voxel(&Vec3i::new(2, 1, 1), 4);
    map.set_by_voxel(&Vec3i::new(-1, 0, 0), 5);
    assert_eq!(map.chunk_count(), 2);
    assert_eq!(map.get_cloned_by_voxel(&Vec3i::new(1, 1, 1)), 3);
    assert_eq!(map.get_cloned_by_voxel(&Vec3i::new(2, 1, 1)), 4);
    assert_eq!(map.get_cloned_by_voxel(&Vec3i::new(-1, 0, 0)), 5);
    assert_eq!(map.get_cloned_by_voxel(&Vec3i::new(0, 0, 0)), 0);
    assert_eq!(map.get_cloned_by_voxel(&Vec3i::new(-4, 3, 3)), 0);
    assert_eq!(map.get_cloned_by_voxel(&Vec3i::new(100, 0, 0)), 0);
    map.set_by_voxel(&Vec3i::new(1, 1, 1), 9);
    assert_eq!(map.get_cloned_by_voxel(&Vec3i::new(1, 1, 1)), 9);
    assert!(map.is_dirty(&Vec3i::new(0, 0, 0)));
    assert!(map.is_dirty(&Vec3i::new(-4, 0, 0)));
    assert!(!map.is_dirty(&Vec3i::new(4, 0, 0)));
    let chunk = map.get_chunk_by_voxel(&Vec3i::new(-2, 2, 2)).unwrap();
    assert_eq!(chunk.origin, Vec3i::new(-4, 0, 0));
    assert_eq!(chunk.size, Vec3i::new(4, 4, 4));
    assert_eq!(map.get_chunk_by_voxel(&Vec3i::new(3, 3, 3)).unwrap().origin, Vec3i::new(0, 0, 0));
    assert!(map.get_chunk_by_voxel(&Vec3i::new(4, 3, 3)).is_none());
    assert_eq!(map.chunk_count(), 2);
}

#[test]
fn unusable_chunk_size_reads_empty() {
    assert!(!chunk_size_valid(Vec3i::new(0, 10, 10)));
    assert!(!chunk_size_valid(Vec3i::new(-4, 4, 4)));
    assert!(!chunk_size_valid(Vec3i::new(2000, 2000, 2000)));
    assert!(chunk_size_valid(Vec3i::new(10, 10, 10)));
    let map = VoxelMap::<i32>::new(Vec3i::new(0, 10, 10));
    assert_eq!(map.get_chunk_size(), Vec3i::new(0, 10, 10));
    assert_eq!(map.chunk_count(), 0);
    assert!(map.get_chunk_by_voxel(&Vec3i::new(1, 2, 3)).is_none());
    assert_eq!(map.get_cloned_by_voxel(&Vec3i::new(1, 2, 3)), 0);
    assert!(!map.is_dirty(&Vec3i::new(0, 0, 0)));
}
