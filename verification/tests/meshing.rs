use block_mesh::VoxelVisibility;
use space_engine::gltf_index::{attribute_offsets, read_indices, IndexComponent};
use space_engine::mipmap::MipmapGenerator;
use space_engine::objected::{pad_chunk, VoxelVal};
use space_engine::voxel::{Vec3i, VoxelChunk};

#[test]
fn padding_surrounds_chunk_with_empty_border() {
    let mut chunk = VoxelChunk::<VoxelVal<usize>>::new(Vec3i::new(0, 0, 0), Vec3i::new(2, 1, 1));
    *chunk.get_mut(0, 0, 0) = VoxelVal::Voxel(10);
    *chunk.get_mut(1, 0, 0) = VoxelVal::Object(7);
    let padded = pad_chunk(&chunk);
    assert_eq!(padded.len(), 4 * 3 * 3);
    // interior cells sit one step in on every axis: (1,1,1) and (2,1,1)
    let at = |x: usize, y: usize, z: usize| (z * 3 + y) * 4 + x;
    assert_eq!(padded[at(1, 1, 1)], VoxelVal::Voxel(10));
    assert_eq!(padded[at(2, 1, 1)], VoxelVal::Object(7));
    let filled = padded.iter().filter(|v| **v != VoxelVal::Empty).count();
    assert_eq!(filled, 2);
}

#[test]
fn padding_an_empty_chunk() {
    let chunk = VoxelChunk::<VoxelVal<u8>>::new(Vec3i::new(0, 0, 0), Vec3i::new(0, 0, 0));
    let padded = pad_chunk(&chunk);
    assert_eq!(padded.len(), 8);
    assert!(padded.iter().all(|v| *v == VoxelVal::Empty));
}

#[test]
fn only_blocks_are_opaque() {
    assert_eq!(VoxelVal::<u8>::Empty.get_visibility(), VoxelVisibility::Empty);
    assert_eq!(VoxelVal::<u8>::Voxel(1).get_visibility(), VoxelVisibility::Opaque);
    assert_eq!(VoxelVal::<u8>::Object(3).get_visibility(), VoxelVisibility::Empty);
    assert!(VoxelVal::<u8>::Voxel(1).is_opaque());
    assert!(!VoxelVal::<u8>::Object(1).is_opaque());
    assert_eq!(VoxelVal::<u8>::default(), VoxelVal::Empty);
}

#[test]
fn indices_little_endian_u16_packed() {
    let buf = [0xffu8, 1, 0, 2, 0, 0x34, 0x12];
    let r = read_indices(&buf, 3, None, 1, 0, IndexComponent::U16);
    assert_eq!(r, vec![1, 2, 0x1234]);
    let r = read_indices(&buf, 2, Some(4), 0, 1, IndexComponent::U16);
    assert_eq!(r, vec![1, 0x1234]);
}

#[test]
fn indices_u32_with_stride_and_offsets() {
    let buf = [9u8, 9, 1, 0, 0, 0, 7, 7, 0x78, 0x56, 0x34, 0x12];
    let r = read_indices(&buf, 2, Some(6), 1, 1, IndexComponent::U32);
    assert_eq!(r, vec![1, 0x12345678]);
    assert!(read_indices(&buf, 0, None, 100, 100, IndexComponent::U32).is_empty());
}

#[test]
fn mip_chain_halves_down_to_one() {
    let sizes = MipmapGenerator::source_sizes(8, 3, 5);
    assert_eq!(sizes, vec![(8, 3), (4, 1), (2, 1), (1, 1)]);
    assert!(MipmapGenerator::source_sizes(8, 8, 0).is_empty());
    assert!(MipmapGenerator::source_sizes(8, 8, 1).is_empty());
    assert_eq!(MipmapGenerator::source_sizes(0, 5, 3), vec![(0, 5), (1, 2)]);
}

#[test]
fn attribute_components_by_element() {
    // three 2-component f32 elements, tightly packed after 8 + 4 bytes
    let offs = attribute_offsets(3, 2, None, 4, 8, 4);
    assert_eq!(offs, vec![12, 16, 20, 24, 28, 32]);
    // interleaved view: elements 32 bytes apart
    let offs = attribute_offsets(2, 3, Some(32), 4, 0, 0);
    assert_eq!(offs, vec![0, 4, 8, 32, 36, 40]);
    assert!(attribute_offsets(0, 3, None, 4, 0, 0).is_empty());
}
