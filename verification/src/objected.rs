use block_mesh::VoxelVisibility;
use vstd::prelude::*;
use crate::voxel::{linear_index, Vec3i, VoxelChunk};

verus! {

#[verifier::external_type_specification]
#[verifier::external_body]
pub struct ExVoxelVisibility(VoxelVisibility);

/// The position of a `block_mesh::VoxelVisibility` among its variants
/// (`Empty` 0, `Translucent` 1, `Opaque` 2).
pub uninterp spec fn visibility_code(v: VoxelVisibility) -> u8;

/// `block_mesh::VoxelVisibility::Empty`, the first variant.
#[verifier::external_body]
fn visibility_empty() -> (r: VoxelVisibility)
    ensures
        visibility_code(r) == 0,
{
    VoxelVisibility::Empty
}

/// `block_mesh::VoxelVisibility::Opaque`, the third variant.
#[verifier::external_body]
fn visibility_opaque() -> (r: VoxelVisibility)
    ensures
        visibility_code(r) == 2,
{
    VoxelVisibility::Opaque
}

/// What fills a voxel: nothing, a block of kind `VoxelID`, or part of an
/// object (by its entity's bits).
#[derive(Clone, Debug, PartialEq, Eq)]
pub enum VoxelVal<VoxelID> {
    Empty,
    Voxel(VoxelID),
    Object(u64),
}

/// `b` is a copy of `a`: same variant, block kinds cloned, entities equal.
pub open spec fn copied<V: Clone>(a: VoxelVal<V>, b: VoxelVal<V>) -> bool {
    match a {
        VoxelVal::Empty => b is Empty,
        VoxelVal::Voxel(x) => b matches VoxelVal::Voxel(y) && cloned(x, y),
        VoxelVal::Object(e) => b == VoxelVal::<V>::Object(e),
    }
}

impl<VoxelID> VoxelVal<VoxelID> {
    /// Only blocks are solid for meshing.
    pub open spec fn is_solid(&self) -> bool {
        self is Voxel
    }

    /// Whether the mesher treats the voxel as solid: blocks are, empty cells
    /// and objects are not.
    pub fn is_opaque(&self) -> (r: bool)
        ensures
            r == self.is_solid(),
    {
        match self {
            VoxelVal::Voxel(_) => true,
            _ => false,
        }
    }

    /// The mesher's visibility: opaque for blocks, empty otherwise.
    pub fn get_visibility(&self) -> (r: VoxelVisibility)
        ensures
            visibility_code(r) == (if self.is_solid() { 2u8 } else { 0u8 }),
    {
        if self.is_opaque() {
            visibility_opaque()
        } else {
            visibility_empty()
        }
    }
}

impl<VoxelID: Clone> VoxelVal<VoxelID> {
    /// A copy of the value, the block kind cloned.
    pub fn copy_val(&self) -> (r: Self)
        ensures
            copied(*self, r),
    {
        match self {
            VoxelVal::Empty => VoxelVal::Empty,
            VoxelVal::Voxel(v) => VoxelVal::Voxel(v.clone()),
            VoxelVal::Object(e) => VoxelVal::Object(*e),
        }
    }
}

impl<VoxelID> Default for VoxelVal<VoxelID> {
    fn default() -> (r: Self)
        ensures
            r is Empty,
    {
        VoxelVal::Empty
    }
}

/// Extent of the padded box: one cell of border on every side.
pub open spec fn padded_volume(size: Vec3i) -> int {
    (size.x + 2) * (size.y + 2) * (size.z + 2)
}

/// Where cell `k` of the padded box of a chunk of extent `size` takes its
/// value from: the chunk's cell one step in on every axis, or nothing on the
/// border.
pub open spec fn pad_source(size: Vec3i, k: int) -> Option<int> {
    let s0 = size.x + 2;
    let s1 = size.y + 2;
    let px = k % s0;
    let w = k / s0;
    let py = w % s1;
    let pz = w / s1;
    if 1 <= px <= size.x && 1 <= py <= size.y && 1 <= pz <= size.z {
        Some(linear_index(size, px - 1, py - 1, pz - 1))
    } else {
        None
    }
}

proof fn lemma_pad_coords(size: Vec3i, px: int, py: int, pz: int)
    requires
        size.x >= 0,
        size.y >= 0,
        0 <= px < size.x + 2,
        0 <= py < size.y + 2,
        0 <= pz,
    ensures
        ({
            let k = (pz * (size.y + 2) + py) * (size.x + 2) + px;
            &&& k % (size.x + 2) == px
            &&& k / (size.x + 2) == pz * (size.y + 2) + py
            &&& (k / (size.x + 2)) % (size.y + 2) == py
            &&& (k / (size.x + 2)) / (size.y + 2) == pz
        }),
{
    let s0 = size.x + 2;
    let s1 = size.y + 2;
    let w = pz * s1 + py;
    vstd::arithmetic::div_mod::lemma_fundamental_div_mod_converse(w * s0 + px, s0 as int, w, px);
    vstd::arithmetic::div_mod::lemma_fundamental_div_mod_converse(w, s1 as int, pz, py);
}

/// The chunk's voxels surrounded by one cell of empty border on every side,
/// in the same x-fastest layout, as the mesher expects them.
pub fn pad_chunk<V: Clone>(chunk: &VoxelChunk<VoxelVal<V>>) -> (r: Vec<VoxelVal<V>>)
    requires
        chunk.size.x >= 0,
        chunk.size.y >= 0,
        chunk.size.z >= 0,
        chunk.size.x * chunk.size.y * chunk.size.z <= chunk.data.len(),
        chunk.size.x * chunk.size.y * chunk.size.z <= i32::MAX + 1,
        (chunk.size.x + 2) * (chunk.size.y + 2) <= u32::MAX,
        padded_volume(chunk.size) <= u32::MAX,
    ensures
        r.len() == padded_volume(chunk.size),
        forall|k: int| 0 <= k < r.len() ==> match pad_source(chunk.size, k) {
            Some(j) => copied(chunk.data@[j], #[trigger] r@[k]),
            None => r@[k] is Empty,
        },
        forall|x: int, y: int, z: int|
            0 <= x < chunk.size.x && 0 <= y < chunk.size.y && 0 <= z < chunk.size.z ==> copied(
                chunk.data@[box_position(chunk.size.x as int, chunk.size.y as int, x, y, z)],
                r@[#[trigger] box_position(chunk.size.x + 2, chunk.size.y + 2, x + 1, y + 1, z + 1)],
            ),
        forall|px: int, py: int, pz: int|
            0 <= px < chunk.size.x + 2 && 0 <= py < chunk.size.y + 2 && 0 <= pz < chunk.size.z + 2 && (
            px == 0 || px == chunk.size.x + 1 || py == 0 || py == chunk.size.y + 1 || pz == 0 || pz
                == chunk.size.z + 1) ==> r@[#[trigger] box_position(chunk.size.x + 2, chunk.size.y + 2, px, py, pz)] is Empty,
{
    let size = chunk.size;
    let sx = size.x;
    let sy = size.y;
    let sz = size.z;
    let s0: usize = sx as usize + 2;
    let s1: usize = sy as usize + 2;
    let s2: usize = sz as usize + 2;
    let ghost total = padded_volume(size);
    let mut r: Vec<VoxelVal<V>> = Vec::new();
    let mut pz: usize = 0;
    proof {
        assert((pz * s1) * s0 == 0) by (nonlinear_arith)
            requires pz == 0;
    }
    while pz < s2
        invariant
            s0 == sx + 2,
            s1 == sy + 2,
            s2 == sz + 2,
            size == chunk.size,
            sx == size.x, sy == size.y, sz == size.z,
            sx >= 0, sy >= 0, sz >= 0,
            total == s0 * s1 * s2,
            total <= u32::MAX,
            sx * sy * sz <= chunk.data.len(),
            sx * sy * sz <= i32::MAX + 1,
            pz <= s2,
            r.len() == (pz * s1) * s0,
            forall|k: int| 0 <= k < r.len() ==> match pad_source(size, k) {
                Some(j) => copied(chunk.data@[j], #[trigger] r@[k]),
                None => r@[k] is Empty,
            },
        decreases s2 - pz,
    {
        let mut py: usize = 0;
        while py < s1
            invariant
                s0 == sx + 2,
                s1 == sy + 2,
                s2 == sz + 2,
                size == chunk.size,
                sx == size.x, sy == size.y, sz == size.z,
                sx >= 0, sy >= 0, sz >= 0,
                total == s0 * s1 * s2,
                total <= u32::MAX,
                sx * sy * sz <= chunk.data.len(),
                sx * sy * sz <= i32::MAX + 1,
                pz < s2,
                py <= s1,
                r.len() == (pz * s1 + py) * s0,
                forall|k: int| 0 <= k < r.len() ==> match pad_source(size, k) {
                    Some(j) => copied(chunk.data@[j], #[trigger] r@[k]),
                    None => r@[k] is Empty,
                },
            decreases s1 - py,
        {
            let mut px: usize = 0;
            proof {
                assert((pz * s1 + py) * s0 + 0 == (pz * s1 + py) * s0);
                assert((pz * s1 + py) * s0 + s0 <= total) by (nonlinear_arith)
                    requires pz < s2, py < s1, total == s0 * s1 * s2, s0 >= 0;
            }
            while px < s0
                invariant
                    s0 == sx + 2,
                    s1 == sy + 2,
                    s2 == sz + 2,
                    size == chunk.size,
                    sx == size.x, sy == size.y, sz == size.z,
                    sx >= 0, sy >= 0, sz >= 0,
                    total == s0 * s1 * s2,
                    total <= u32::MAX,
                    sx * sy * sz <= chunk.data.len(),
                    sx * sy * sz <= i32::MAX + 1,
                    pz < s2,
                    py < s1,
                    px <= s0,
                    (pz * s1 + py) * s0 + s0 <= total,
                    r.len() == (pz * s1 + py) * s0 + px,
                    forall|k: int| 0 <= k < r.len() ==> match pad_source(size, k) {
                        Some(j) => copied(chunk.data@[j], #[trigger] r@[k]),
                        None => r@[k] is Empty,
                    },
                decreases s0 - px,
            {
                let ghost k = r.len() as int;
                proof {
                    lemma_pad_coords(size, px as int, py as int, pz as int);
                }
                let interior = 1 <= px && px <= sx as usize && 1 <= py && py <= sy as usize && 1 <= pz
                    && pz <= sz as usize;
                let v = if interior {
                    let x = (px - 1) as i32;
                    let y = (py - 1) as i32;
                    let z = (pz - 1) as i32;
                    proof {
                        chunk.lemma_addressable(x, y, z);
                    }
                    chunk.get(x, y, z).copy_val()
                } else {
                    VoxelVal::Empty
                };
                let ghost before = r@;
                r.push(v);
                proof {
                    assert forall|k2: int| 0 <= k2 < r.len() implies match pad_source(size, k2) {
                        Some(j) => copied(chunk.data@[j], #[trigger] r@[k2]),
                        None => r@[k2] is Empty,
                    } by {
                        if k2 < k {
                            assert(r@[k2] == before[k2]);
                        }
                    }
                }
                px += 1;
            }
            proof {
                assert((pz * s1 + py) * s0 + s0 == (pz * s1 + (py + 1)) * s0) by (nonlinear_arith);
            }
            py += 1;
        }
        proof {
            assert((pz * s1 + s1) * s0 == ((pz + 1) * s1) * s0) by (nonlinear_arith);
        }
        pz += 1;
    }
    proof {
        assert((s2 * s1) * s0 == s0 * s1 * s2) by (nonlinear_arith);
        law_pad_shifts_cells_in(*chunk, r@);
    }
    r
}

/// Position of cell `(x, y, z)` in a box of extent `(sx, sy, sz)`, x fastest.
pub open spec fn box_position(sx: int, sy: int, x: int, y: int, z: int) -> int {
    (z * sy + y) * sx + x
}

/// Padding moves the chunk one cell in along every axis and mirrors none:
/// chunk cell `(x, y, z)` lands on padded cell `(x + 1, y + 1, z + 1)` of
/// the box of extent `(sx + 2, sy + 2, sz + 2)`, and every padded cell on
/// that box's border is empty.
pub proof fn law_pad_shifts_cells_in<V: Clone>(chunk: VoxelChunk<VoxelVal<V>>, r: Seq<VoxelVal<V>>)
    requires
        chunk.size.x >= 0,
        chunk.size.y >= 0,
        chunk.size.z >= 0,
        r.len() == padded_volume(chunk.size),
        forall|k: int| 0 <= k < r.len() ==> match pad_source(chunk.size, k) {
            Some(j) => copied(chunk.data@[j], #[trigger] r[k]),
            None => r[k] is Empty,
        },
    ensures
        forall|x: int, y: int, z: int|
            0 <= x < chunk.size.x && 0 <= y < chunk.size.y && 0 <= z < chunk.size.z ==> copied(
                chunk.data@[box_position(chunk.size.x as int, chunk.size.y as int, x, y, z)],
                r[#[trigger] box_position(chunk.size.x + 2, chunk.size.y + 2, x + 1, y + 1, z + 1)],
            ),
        forall|px: int, py: int, pz: int|
            0 <= px < chunk.size.x + 2 && 0 <= py < chunk.size.y + 2 && 0 <= pz < chunk.size.z + 2 && (
            px == 0 || px == chunk.size.x + 1 || py == 0 || py == chunk.size.y + 1 || pz == 0 || pz
                == chunk.size.z + 1) ==> r[#[trigger] box_position(chunk.size.x + 2, chunk.size.y + 2, px, py, pz)] is Empty,
{
    let size = chunk.size;
    let s0 = size.x + 2;
    let s1 = size.y + 2;
    let s2 = size.z + 2;
    assert forall|px: int, py: int, pz: int| 0 <= px < s0 && 0 <= py < s1 && 0 <= pz < s2 implies {
        let k = #[trigger] box_position(s0, s1, px, py, pz);
        &&& 0 <= k < r.len()
        &&& pad_source(size, k) == (if 1 <= px <= size.x && 1 <= py <= size.y && 1 <= pz <= size.z {
            Some(box_position(size.x as int, size.y as int, px - 1, py - 1, pz - 1))
        } else {
            None::<int>
        })
    } by {
        lemma_pad_coords(size, px, py, pz);
        let k = box_position(s0, s1, px, py, pz);
        assert(0 <= k < s0 * s1 * s2) by (nonlinear_arith)
            requires
                0 <= px < s0, 0 <= py < s1, 0 <= pz < s2,
                k == (pz * s1 + py) * s0 + px;
        assert(s0 * s1 * s2 == padded_volume(size));
    }
    assert forall|x: int, y: int, z: int|
        0 <= x < size.x && 0 <= y < size.y && 0 <= z < size.z implies copied(
            chunk.data@[box_position(size.x as int, size.y as int, x, y, z)],
            r[#[trigger] box_position(s0, s1, x + 1, y + 1, z + 1)],
        ) by {
        let k = box_position(s0, s1, x + 1, y + 1, z + 1);
        assert(0 <= k < r.len());
    }
    assert forall|px: int, py: int, pz: int|
        0 <= px < s0 && 0 <= py < s1 && 0 <= pz < s2 && (px == 0 || px == size.x + 1 || py == 0 || py == size.y + 1
            || pz == 0 || pz == size.z + 1) implies r[#[trigger] box_position(s0, s1, px, py, pz)] is Empty by {
        let k = box_position(s0, s1, px, py, pz);
        assert(0 <= k < r.len());
    }
}

} // verus!
