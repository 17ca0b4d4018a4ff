use std::collections::{HashMap, HashSet};
use vstd::prelude::*;

verus! {

broadcast use vstd::std_specs::hash::group_hash_axioms;

/// A point or extent on the integer voxel grid.
#[derive(Clone, Copy, Debug, PartialEq, Eq, Structural)]
pub struct Vec3i {
    pub x: i32,
    pub y: i32,
    pub z: i32,
}

impl View for Vec3i {
    type V = (int, int, int);

    open spec fn view(&self) -> (int, int, int) {
        (self.x as int, self.y as int, self.z as int)
    }
}

impl Vec3i {
    pub fn new(x: i32, y: i32, z: i32) -> (r: Self)
        ensures
            r.x == x,
            r.y == y,
            r.z == z,
    {
        Vec3i { x, y, z }
    }
}

/// Row-major position of `(x, y, z)` in a box of extent `size` (x fastest).
pub open spec fn linear_index(size: Vec3i, x: int, y: int, z: int) -> int {
    (z * size.y + y) * size.x + x
}

/// The value that `T::default()` may return.
pub open spec fn is_default<T: Default>(v: T) -> bool {
    call_ensures(T::default, (), v)
}

/// A dense box of voxels stored in a flat vector.
pub struct VoxelChunk<T> {
    pub origin: Vec3i,
    pub size: Vec3i,
    pub data: Vec<T>,
}

impl<T> VoxelChunk<T> {
    /// The cell `(x, y, z)` can be addressed: the index arithmetic stays in
    /// `i32` and lands inside `data`.
    pub open spec fn addressable(&self, x: i32, y: i32, z: i32) -> bool {
        let zy = z * self.size.y;
        let zyy = zy + y;
        let row = zyy * self.size.x;
        let idx = row + x;
        &&& i32::MIN <= zy <= i32::MAX
        &&& i32::MIN <= zyy <= i32::MAX
        &&& i32::MIN <= row <= i32::MAX
        &&& i32::MIN <= idx <= i32::MAX
        &&& 0 <= idx < self.data.len()
    }

    pub open spec fn index_of(&self, x: int, y: int, z: int) -> int {
        linear_index(self.size, x, y, z)
    }

    fn flat_index(&self, x: i32, y: i32, z: i32) -> (r: usize)
        requires
            self.addressable(x, y, z),
        ensures
            r as int == self.index_of(x as int, y as int, z as int),
            r < self.data.len(),
    {
        (((z * self.size.y + y) * self.size.x + x) as usize)
    }

    /// Borrow the voxel at `(x, y, z)`.
    pub fn get(&self, x: i32, y: i32, z: i32) -> (r: &T)
        requires
            self.addressable(x, y, z),
        ensures
            *r == self.data@[self.index_of(x as int, y as int, z as int)],
    {
        let i = self.flat_index(x, y, z);
        &self.data[i]
    }

    /// Mutably borrow the voxel at `(x, y, z)`.
    pub fn get_mut(&mut self, x: i32, y: i32, z: i32) -> (r: &mut T)
        requires
            old(self).addressable(x, y, z),
        ensures
            *r == old(self).data@[old(self).index_of(x as int, y as int, z as int)],
            final(self).data@ == old(self).data@.update(
                old(self).index_of(x as int, y as int, z as int),
                *final(r),
            ),
            final(self).origin == old(self).origin,
            final(self).size == old(self).size,
    {
        let i = self.flat_index(x, y, z);
        &mut self.data[i]
    }
}

impl<T: Clone> VoxelChunk<T> {
    /// Overwrite every voxel with a clone of `val`.
    pub fn fill(&mut self, val: &T)
        ensures
            final(self).data.len() == old(self).data.len(),
            forall|i: int| 0 <= i < final(self).data.len() ==> cloned(*val, #[trigger] final(self).data@[i]),
            final(self).origin == old(self).origin,
            final(self).size == old(self).size,
    {
        let n = self.data.len();
        for i in 0..n
            invariant
                n == self.data.len(),
                forall|j: int| 0 <= j < i ==> cloned(*val, #[trigger] self.data@[j]),
                self.origin == old(self).origin,
                self.size == old(self).size,
        {
            self.data.set(i, val.clone());
        }
    }
}

impl<T: Default + Clone> VoxelChunk<T> {
    /// A chunk at `origin` of extent `size` whose voxels are all clones of one
    /// `T::default()` value.
    pub fn new(origin: Vec3i, size: Vec3i) -> (r: Self)
        requires
            i32::MIN <= size.x * size.y <= i32::MAX,
            0 <= size.x * size.y * size.z <= i32::MAX,
        ensures
            r.origin == origin,
            r.size == size,
            r.data.len() == size.x * size.y * size.z,
            exists|d: T| is_default(d) && forall|i: int| 0 <= i < r.data.len() ==> cloned(d, #[trigger] r.data@[i]),
    {
        let n: i32 = size.x * size.y * size.z;
        let d = T::default();
        assert(is_default(d));
        let data = vec![d; n as usize];
        VoxelChunk { origin, size, data }
    }
}


/// The grid-aligned start of the cell of extent `s` that holds `p`: the
/// floor of `p / s`, times `s`. For `s > 0` that is `p` rounded down to a
/// multiple of `s`; for `s < 0` it is the multiple of `s` in `[p, p - s)`;
/// for `s == 0` it is `0`.
pub open spec fn floor_origin(p: int, s: int) -> int {
    if s > 0 {
        (p / s) * s
    } else if s < 0 {
        ((-p) / (-s)) * s
    } else {
        0
    }
}

pub open spec fn origin_of(p: (int, int, int), size: Vec3i) -> (int, int, int) {
    (floor_origin(p.0, size.x as int), floor_origin(p.1, size.y as int), floor_origin(p.2, size.z as int))
}

/// `floor_origin(p, s)` is the multiple of `s` in `(p - s, p]`.
pub proof fn lemma_floor_origin(p: int, s: int)
    requires
        s > 0,
    ensures
        floor_origin(p, s) <= p < floor_origin(p, s) + s,
        floor_origin(p, s) % s == 0,
        floor_origin(floor_origin(p, s), s) == floor_origin(p, s),
        p - floor_origin(p, s) == p % s,
{
    vstd::arithmetic::div_mod::lemma_fundamental_div_mod(p, s);
    vstd::arithmetic::div_mod::lemma_mod_bound(p, s);
    vstd::arithmetic::mul::lemma_mul_is_commutative(p / s, s);
    let q = p / s;
    vstd::arithmetic::div_mod::lemma_fundamental_div_mod_converse(q * s, s, q, 0);
}

fn floor_origin_wide(p: i64, s: i64) -> (r: i64)
    requires
        0 < s <= 0x8000_0000,
        -0x8000_0000 <= p <= 0x8000_0000,
    ensures
        r as int == floor_origin(p as int, s as int),
{
    proof {
        lemma_floor_origin(p as int, s as int);
    }
    let su: u64 = s as u64;
    let q: i64;
    if p >= 0 {
        let pu: u64 = p as u64;
        let qu: u64 = pu / su;
        q = qu as i64;
        assert(q == (p as int) / (s as int));
    } else {
        let m: u64 = (0i64 - p) as u64;
        let c: u64 = (m + su - 1) / su;
        q = 0i64 - (c as i64);
        proof {
            let mi = m as int;
            let si = s as int;
            let ci = c as int;
            vstd::arithmetic::div_mod::lemma_fundamental_div_mod(mi + si - 1, si);
            vstd::arithmetic::div_mod::lemma_mod_pos_bound(mi + si - 1, si);
            let r = (mi + si - 1) % si;
            assert(mi + si - 1 == si * ci + r);
            assert((p as int) == (0 - ci) * si + (si - 1 - r)) by (nonlinear_arith)
                requires
                    mi + si - 1 == si * ci + r,
                    (p as int) == 0 - mi,
            ;
            vstd::arithmetic::div_mod::lemma_fundamental_div_mod_converse(p as int, si, 0 - ci, si - 1 - r);
        }
    }
    proof {
        vstd::arithmetic::mul::lemma_mul_is_commutative(q as int, s as int);
    }
    q * s
}

/// `floor_origin(p, s)` for any `s`, computed without overflow.
fn floor_origin_any(p: i32, s: i32) -> (r: i64)
    ensures
        r as int == floor_origin(p as int, s as int),
{
    if s > 0 {
        floor_origin_wide(p as i64, s as i64)
    } else if s < 0 {
        let w = floor_origin_wide(0i64 - (p as i64), 0i64 - (s as i64));
        proof {
            let q = (-(p as int)) / (-(s as int));
            lemma_floor_origin(-(p as int), -(s as int));
            assert(q * (s as int) == -(q * (-(s as int)))) by (nonlinear_arith);
        }
        0i64 - w
    } else {
        0
    }
}

/// `floor_origin(p, s)`: `p` rounded down to a multiple of `s`.
pub fn floor_origin_axis(p: i32, s: i32) -> (r: i32)
    requires
        i32::MIN <= floor_origin(p as int, s as int) <= i32::MAX,
    ensures
        r as int == floor_origin(p as int, s as int),
{
    floor_origin_any(p, s) as i32
}

/// `floor_origin(p, s)`, or `None` when it does not fit in `i32`.
pub fn try_floor_origin_axis(p: i32, s: i32) -> (r: Option<i32>)
    ensures
        r is Some <==> i32::MIN <= floor_origin(p as int, s as int) <= i32::MAX,
        r matches Some(o) ==> o as int == floor_origin(p as int, s as int),
{
    let o = floor_origin_any(p, s);
    if i32::MIN as i64 <= o && o <= i32::MAX as i64 {
        Some(o as i32)
    } else {
        None
    }
}


/// Local coordinates inside a box of extent `(sx, sy, sz)` address a distinct
/// cell of the flat storage, and all index arithmetic stays below the volume.
pub proof fn lemma_local_index_bounds(sx: int, sy: int, sz: int, x: int, y: int, z: int)
    requires
        0 <= x < sx,
        0 <= y < sy,
        0 <= z < sz,
    ensures
        0 <= z * sy <= z * sy + y < sy * sz,
        0 <= (z * sy + y) * sx <= (z * sy + y) * sx + x < sx * sy * sz,
{
    assert(0 <= z * sy) by (nonlinear_arith)
        requires 0 <= z, 0 <= sy;
    assert(z * sy + y < sy * sz) by (nonlinear_arith)
        requires 0 <= y < sy, 0 <= z < sz;
    let w = z * sy + y;
    assert(0 <= w * sx) by (nonlinear_arith)
        requires 0 <= w, 0 <= sx;
    assert(w * sx + x < sx * sy * sz) by (nonlinear_arith)
        requires 0 <= x < sx, 0 <= w < sy * sz;
}

/// Distinct local coordinates give distinct flat indices.
pub proof fn lemma_local_index_injective(
    sx: int, sy: int, sz: int,
    x1: int, y1: int, z1: int,
    x2: int, y2: int, z2: int,
)
    requires
        0 <= x1 < sx, 0 <= y1 < sy, 0 <= z1 < sz,
        0 <= x2 < sx, 0 <= y2 < sy, 0 <= z2 < sz,
    ensures
        (z1 * sy + y1) * sx + x1 == (z2 * sy + y2) * sx + x2 ==> x1 == x2 && y1 == y2 && z1 == z2,
{
    if (z1 * sy + y1) * sx + x1 != (z2 * sy + y2) * sx + x2 {
        return;
    }
    lemma_local_index_bounds(sx, sy, sz, x1, y1, z1);
    lemma_local_index_bounds(sx, sy, sz, x2, y2, z2);
    let w1 = z1 * sy + y1;
    let w2 = z2 * sy + y2;
    let l = w1 * sx + x1;
    vstd::arithmetic::div_mod::lemma_fundamental_div_mod_converse(l, sx, w1, x1);
    vstd::arithmetic::div_mod::lemma_fundamental_div_mod_converse(l, sx, w2, x2);
    vstd::arithmetic::div_mod::lemma_fundamental_div_mod_converse(w1, sy, z1, y1);
    vstd::arithmetic::div_mod::lemma_fundamental_div_mod_converse(w1, sy, z2, y2);
}

impl<T> VoxelChunk<T> {
    /// A chunk of positive extent with full storage addresses every local cell.
    pub proof fn lemma_addressable(&self, x: i32, y: i32, z: i32)
        requires
            self.size.x > 0,
            self.size.y > 0,
            self.size.z > 0,
            self.size.x * self.size.y * self.size.z <= self.data.len(),
            self.size.x * self.size.y * self.size.z <= i32::MAX + 1,
            0 <= x < self.size.x,
            0 <= y < self.size.y,
            0 <= z < self.size.z,
        ensures
            self.addressable(x, y, z),
    {
        let sx = self.size.x as int;
        let sy = self.size.y as int;
        let sz = self.size.z as int;
        lemma_local_index_bounds(sx, sy, sz, x as int, y as int, z as int);
        assert(sy * sz <= sx * sy * sz) by (nonlinear_arith)
            requires sx > 0, sy > 0, sz > 0;
        assert((z * sy + y) * sx <= sx * sy * sz - sx) by (nonlinear_arith)
            requires sx > 0, 0 <= z * sy + y, z * sy + y < sy * sz;
    }
}

/// Whether every coordinate of `o` fits in `i32`.
spec fn fits_i32(o: (int, int, int)) -> bool {
    &&& i32::MIN <= o.0 <= i32::MAX
    &&& i32::MIN <= o.1 <= i32::MAX
    &&& i32::MIN <= o.2 <= i32::MAX
}

/// The number a chunk origin is filed under: its three coordinates, each
/// shifted to be non-negative, side by side in 32-bit fields.
spec fn origin_key(o: (int, int, int)) -> int {
    (o.0 + 0x8000_0000) * 0x1_0000_0000_0000_0000 + (o.1 + 0x8000_0000) * 0x1_0000_0000 + (o.2 + 0x8000_0000)
}

/// Distinct origins that fit in `i32` are filed under distinct numbers.
proof fn lemma_origin_key_injective(a: (int, int, int), b: (int, int, int))
    requires
        fits_i32(a),
        fits_i32(b),
        origin_key(a) == origin_key(b),
    ensures
        a == b,
{
    let lo_a = (a.1 + 0x8000_0000) * 0x1_0000_0000 + (a.2 + 0x8000_0000);
    let lo_b = (b.1 + 0x8000_0000) * 0x1_0000_0000 + (b.2 + 0x8000_0000);
    vstd::arithmetic::div_mod::lemma_fundamental_div_mod_converse(
        origin_key(a), 0x1_0000_0000_0000_0000, a.0 + 0x8000_0000, lo_a);
    vstd::arithmetic::div_mod::lemma_fundamental_div_mod_converse(
        origin_key(b), 0x1_0000_0000_0000_0000, b.0 + 0x8000_0000, lo_b);
    vstd::arithmetic::div_mod::lemma_fundamental_div_mod_converse(
        lo_a, 0x1_0000_0000, a.1 + 0x8000_0000, a.2 + 0x8000_0000);
    vstd::arithmetic::div_mod::lemma_fundamental_div_mod_converse(
        lo_b, 0x1_0000_0000, b.1 + 0x8000_0000, b.2 + 0x8000_0000);
}

/// The number the chunk at `o` is filed under.
fn key_of(o: &Vec3i) -> (k: u128)
    ensures
        k as int == origin_key(o@),
{
    let x: u128 = ((o.x as i64) + 0x8000_0000i64) as u128;
    let y: u128 = ((o.y as i64) + 0x8000_0000i64) as u128;
    let z: u128 = ((o.z as i64) + 0x8000_0000i64) as u128;
    x * 0x1_0000_0000_0000_0000u128 + y * 0x1_0000_0000u128 + z
}

/// The chunks of a voxel map, filed by origin, and the origins written, kept
/// well formed by the map around it.
struct Grid<T> {
    map: HashMap<u128, VoxelChunk<T>>,
    chunk_size: Vec3i,
    dirty_set: HashSet<u128>,
}

impl<T> Grid<T> {
    spec fn chunk_volume(&self) -> int {
        self.chunk_size.x * self.chunk_size.y * self.chunk_size.z
    }

    /// Positive chunk extent whose volume fits in `i32`, every chunk of that
    /// extent with full storage and filed under its own origin.
    spec fn wf(&self) -> bool {
        &&& self.chunk_size.x > 0
        &&& self.chunk_size.y > 0
        &&& self.chunk_size.z > 0
        &&& self.chunk_size.x * self.chunk_size.y <= i32::MAX
        &&& self.chunk_volume() <= i32::MAX
        &&& forall|k: u128| #[trigger] self.map@.contains_key(k) ==> {
            &&& self.map@[k].size == self.chunk_size
            &&& self.map@[k].data.len() == self.chunk_volume()
            &&& origin_key(self.map@[k].origin@) == k
        }
    }

    spec fn has_chunk(&self, o: (int, int, int)) -> bool {
        fits_i32(o) && self.map@.contains_key(origin_key(o) as u128)
    }

    spec fn chunk_at(&self, o: (int, int, int)) -> VoxelChunk<T> {
        self.map@[origin_key(o) as u128]
    }

    /// The origin of the chunk that holds voxel `p`.
    spec fn origin_at(&self, p: (int, int, int)) -> (int, int, int) {
        origin_of(p, self.chunk_size)
    }

    /// The voxel stored at `p`, if its chunk exists.
    spec fn cell(&self, p: (int, int, int)) -> Option<T> {
        let o = self.origin_at(p);
        if self.has_chunk(o) {
            Some(self.chunk_at(o).data@[linear_index(self.chunk_size, p.0 - o.0, p.1 - o.1, p.2 - o.2)])
        } else {
            None
        }
    }

    /// The chunk origins marked as modified.
    spec fn dirty(&self) -> Set<(int, int, int)> {
        Set::new(|o: (int, int, int)| fits_i32(o) && self.dirty_set@.contains(origin_key(o) as u128))
    }

    /// The chunk origin of every voxel `p` fits in `i32`.
    spec fn origin_fits(&self, p: (int, int, int)) -> bool {
        let o = self.origin_at(p);
        &&& i32::MIN <= o.0
        &&& i32::MIN <= o.1
        &&& i32::MIN <= o.2
    }

    /// A chunk filed under the key of `o` has origin `o`.
    proof fn lemma_chunk_origin(&self, o: (int, int, int))
        requires
            self.wf(),
            self.has_chunk(o),
        ensures
            self.chunk_at(o).origin@ == o,
            self.chunk_at(o).size == self.chunk_size,
            self.chunk_at(o).data.len() == self.chunk_volume(),
    {
        let k = origin_key(o) as u128;
        assert(self.map@.contains_key(k));
        lemma_origin_key_injective(self.map@[k].origin@, o);
    }

    /// An empty map of chunks with extent `chunk_size`.
    fn new(chunk_size: Vec3i) -> (r: Self)
        requires
            chunk_size.x > 0,
            chunk_size.y > 0,
            chunk_size.z > 0,
            chunk_size.x * chunk_size.y * chunk_size.z <= i32::MAX,
        ensures
            r.wf(),
            r.chunk_size == chunk_size,
            r.map@ == Map::<u128, VoxelChunk<T>>::empty(),
            r.dirty_set@ == Set::<u128>::empty(),
            forall|p: (int, int, int)| r.cell(p) is None,
            r.dirty() == Set::<(int, int, int)>::empty(),
    {
        proof {
            assert(chunk_size.x * chunk_size.y <= chunk_size.x * chunk_size.y * chunk_size.z) by (nonlinear_arith)
                requires chunk_size.x > 0, chunk_size.y > 0, chunk_size.z > 0;
        }
        let r = Grid { map: HashMap::new(), chunk_size, dirty_set: HashSet::new() };
        assert(r.dirty() =~= Set::<(int, int, int)>::empty());
        r
    }

    /// The origin of the chunk that holds voxel `pos`.
    fn get_origin(&self, pos: &Vec3i) -> (r: Vec3i)
        requires
            self.chunk_size.x > 0,
            self.chunk_size.y > 0,
            self.chunk_size.z > 0,
            self.origin_fits(pos@),
        ensures
            r@ == self.origin_at(pos@),
    {
        proof {
            self.lemma_local_offset(pos@);
        }
        Vec3i::new(
            floor_origin_axis(pos.x, self.chunk_size.x),
            floor_origin_axis(pos.y, self.chunk_size.y),
            floor_origin_axis(pos.z, self.chunk_size.z),
        )
    }

    /// The chunk holding voxel `pos`, if it exists.
    fn get_chunk_by_voxel(&self, pos: &Vec3i) -> (r: Option<&VoxelChunk<T>>)
        requires
            self.wf(),
            self.origin_fits(pos@),
        ensures
            r is None <==> !self.has_chunk(self.origin_at(pos@)),
            r matches Some(c) ==> *c == self.chunk_at(self.origin_at(pos@)),
    {
        let origin = self.get_origin(pos);
        let k = key_of(&origin);
        self.map.get(&k)
    }

    /// The offset of voxel `p` inside its chunk lies in `[0, chunk_size)`.
    proof fn lemma_local_offset(&self, p: (int, int, int))
        requires
            self.chunk_size.x > 0,
            self.chunk_size.y > 0,
            self.chunk_size.z > 0,
        ensures
            0 <= p.0 - self.origin_at(p).0 < self.chunk_size.x,
            0 <= p.1 - self.origin_at(p).1 < self.chunk_size.y,
            0 <= p.2 - self.origin_at(p).2 < self.chunk_size.z,
    {
        lemma_floor_origin(p.0, self.chunk_size.x as int);
        lemma_floor_origin(p.1, self.chunk_size.y as int);
        lemma_floor_origin(p.2, self.chunk_size.z as int);
    }

    /// Whether `origin` is marked as modified.
    fn is_dirty(&self, origin: &Vec3i) -> (r: bool)
        ensures
            r == self.dirty().contains(origin@),
    {
        let k = key_of(origin);
        self.dirty_set.contains(&k)
    }

    fn mark_dirty(&mut self, origin: Vec3i)
        requires
            old(self).wf(),
        ensures
            final(self).wf(),
            final(self).map@ == old(self).map@,
            final(self).chunk_size == old(self).chunk_size,
            final(self).dirty() == old(self).dirty().insert(origin@),
    {
        let k = key_of(&origin);
        self.dirty_set.insert(k);
        proof {
            assert forall|o: (int, int, int)| #[trigger] self.dirty().contains(o)
                == old(self).dirty().insert(origin@).contains(o) by {
                if fits_i32(o) && origin_key(o) as u128 == k {
                    lemma_origin_key_injective(o, origin@);
                }
            }
            assert(self.dirty() =~= old(self).dirty().insert(origin@));
        }
    }
}

impl<T: Default + Clone> Grid<T> {
    /// A clone of the voxel at `pos`, or `T::default()` where no chunk holds it.
    fn get_cloned_by_voxel(&self, pos: &Vec3i) -> (r: T)
        requires
            self.wf(),
            self.origin_fits(pos@),
        ensures
            match self.cell(pos@) {
                Some(v) => cloned(v, r),
                None => is_default(r),
            },
    {
        let origin = self.get_origin(pos);
        let k = key_of(&origin);
        match self.map.get(&k) {
            Some(chunk) => {
                proof {
                    self.lemma_local_offset(pos@);
                    self.lemma_chunk_origin(origin@);
                }
                let lx = pos.x - origin.x;
                let ly = pos.y - origin.y;
                let lz = pos.z - origin.z;
                proof {
                    chunk.lemma_addressable(lx, ly, lz);
                }
                chunk.get(lx, ly, lz).clone()
            },
            None => T::default(),
        }
    }

    /// Store `val` at voxel `pos`, creating its chunk (filled with a default
    /// value) when missing, and mark the chunk's origin as modified.
    fn set_by_voxel(&mut self, pos: &Vec3i, val: T)
        requires
            old(self).wf(),
            old(self).origin_fits(pos@),
        ensures
            final(self).wf(),
            final(self).chunk_size == old(self).chunk_size,
            final(self).cell(pos@) == Some(val),
            forall|q: (int, int, int)| #[trigger] final(self).origin_at(q) != final(self).origin_at(pos@)
                ==> final(self).cell(q) == old(self).cell(q),
            forall|q: (int, int, int)| q != pos@ && #[trigger] old(self).cell(q) is Some
                ==> final(self).cell(q) == old(self).cell(q),
            forall|q: (int, int, int)| final(self).origin_at(q) == final(self).origin_at(pos@) && q != pos@
                && #[trigger] old(self).cell(q) is None
                ==> exists|d: T| is_default(d) && cloned(d, final(self).cell(q)->0),
            final(self).dirty() == old(self).dirty().insert(final(self).origin_at(pos@)),
            forall|o: (int, int, int)| #[trigger] final(self).has_chunk(o)
                <==> (old(self).has_chunk(o) || o == final(self).origin_at(pos@)),
            final(self).has_chunk(final(self).origin_at(pos@)),
            final(self).chunk_at(final(self).origin_at(pos@)).origin@ == final(self).origin_at(pos@),
            final(self).chunk_at(final(self).origin_at(pos@)).size == final(self).chunk_size,
    {
        let origin = self.get_origin(pos);
        proof {
            self.lemma_local_offset(pos@);
        }
        let lx = pos.x - origin.x;
        let ly = pos.y - origin.y;
        let lz = pos.z - origin.z;
        let k = key_of(&origin);
        let ghost cs = self.chunk_size;
        let ghost sx = cs.x as int;
        let ghost sy = cs.y as int;
        let ghost sz = cs.z as int;
        let ghost pre = *self;
        let ghost ok = origin_key(origin@) as u128;
        assert(ok == k);
        let mut chunk;
        let ghost fresh: Option<Seq<T>>;
        match self.map.remove(&k) {
            Some(c) => {
                proof {
                    pre.lemma_chunk_origin(origin@);
                    fresh = None;
                }
                chunk = c;
            },
            None => {
                proof {
                    assert(sx * sy <= sx * sy * sz) by (nonlinear_arith)
                        requires sx > 0, sy > 0, sz > 0;
                    assert(0 <= sx * sy * sz) by (nonlinear_arith)
                        requires sx > 0, sy > 0, sz > 0;
                }
                chunk = VoxelChunk::new(origin, self.chunk_size);
                proof {
                    fresh = Some(chunk.data@);
                }
            },
        }
        proof {
            chunk.lemma_addressable(lx, ly, lz);
        }
        let ghost before_data = chunk.data@;
        let idx = chunk.flat_index(lx, ly, lz);
        chunk.data.set(idx, val);
        self.map.insert(k, chunk);
        proof {
            assert(self.map@ == pre.map@.insert(k, chunk));
            assert forall|kk: u128| #[trigger] self.map@.contains_key(kk) implies {
                &&& self.map@[kk].size == self.chunk_size
                &&& self.map@[kk].data.len() == self.chunk_volume()
                &&& origin_key(self.map@[kk].origin@) == kk
            } by {
                if kk != k {
                    assert(pre.map@.contains_key(kk));
                }
            }
            assert(self.wf());
            assert forall|o: (int, int, int)| #[trigger] self.has_chunk(o)
                <==> (pre.has_chunk(o) || o == origin@) by {
                if fits_i32(o) && origin_key(o) as u128 == k {
                    lemma_origin_key_injective(o, origin@);
                }
            }
            assert forall|q: (int, int, int)| #[trigger] self.origin_at(q) != self.origin_at(pos@)
                implies self.cell(q) == pre.cell(q) by {
                let oq = self.origin_at(q);
                if fits_i32(oq) && origin_key(oq) as u128 == k {
                    lemma_origin_key_injective(oq, origin@);
                }
            }
            assert forall|q: (int, int, int)| q != pos@ && #[trigger] pre.cell(q) is Some
                implies self.cell(q) == pre.cell(q) by {
                let oq = self.origin_at(q);
                if fits_i32(oq) && origin_key(oq) as u128 == k {
                    lemma_origin_key_injective(oq, origin@);
                    pre.lemma_chunk_origin(oq);
                    self.lemma_local_offset(q);
                    let kq = linear_index(cs, q.0 - oq.0, q.1 - oq.1, q.2 - oq.2);
                    lemma_local_index_bounds(sx, sy, sz, q.0 - oq.0, q.1 - oq.1, q.2 - oq.2);
                    lemma_local_index_injective(sx, sy, sz,
                        q.0 - oq.0, q.1 - oq.1, q.2 - oq.2,
                        lx as int, ly as int, lz as int);
                    assert(kq != idx as int);
                    assert(fresh is None);
                    assert(before_data == pre.map@[k].data@);
                }
            }
            assert forall|q: (int, int, int)| self.origin_at(q) == self.origin_at(pos@) && q != pos@
                && #[trigger] pre.cell(q) is None
                implies exists|d: T| is_default(d) && cloned(d, self.cell(q)->0) by {
                let oq = self.origin_at(q);
                assert(oq == origin@);
                assert(!pre.has_chunk(origin@));
                assert(fresh is Some);
                self.lemma_local_offset(q);
                let kq = linear_index(cs, q.0 - oq.0, q.1 - oq.1, q.2 - oq.2);
                lemma_local_index_bounds(sx, sy, sz, q.0 - oq.0, q.1 - oq.1, q.2 - oq.2);
                lemma_local_index_injective(sx, sy, sz,
                    q.0 - oq.0, q.1 - oq.1, q.2 - oq.2,
                    lx as int, ly as int, lz as int);
                assert(self.cell(q)->0 == before_data[kq]);
            }
            self.lemma_chunk_origin(origin@);
        }
        let ghost before_mark = *self;
        self.mark_dirty(origin);
        proof {
            assert forall|o: (int, int, int)| #[trigger] self.has_chunk(o) == before_mark.has_chunk(o) by {
            }
        }
    }
}


/// A chunk extent the map can hold: positive on every axis, its volume
/// within `i32`.
pub open spec fn size_valid(s: Vec3i) -> bool {
    s.x > 0 && s.y > 0 && s.z > 0 && s.x * s.y * s.z <= i32::MAX
}

/// Whether chunks of extent `s` can be held.
pub fn chunk_size_valid(s: Vec3i) -> (r: bool)
    ensures
        r == size_valid(s),
{
    if s.x <= 0 || s.y <= 0 || s.z <= 0 {
        return false;
    }
    proof {
        assert(0 < (s.x as int) * (s.y as int) <= 0x4000_0000_0000_0000) by (nonlinear_arith)
            requires 0 < s.x <= 0x8000_0000int, 0 < s.y <= 0x8000_0000int;
    }
    let v: i64 = (s.x as i64) * (s.y as i64);
    if v > i32::MAX as i64 {
        proof {
            assert(v * (s.z as int) > i32::MAX) by (nonlinear_arith)
                requires v > i32::MAX, s.z >= 1;
        }
        return false;
    }
    proof {
        assert(v * (s.z as int) <= 0x4000_0000_0000_0000) by (nonlinear_arith)
            requires 0 < v <= 0x8000_0000int, 0 < s.z <= 0x8000_0000int;
    }
    let w: i64 = v * (s.z as i64);
    w <= i32::MAX as i64
}

/// A sparse voxel grid made of equally sized chunks, each created on first
/// write, together with the set of chunk origins written since creation.
pub struct VoxelMap<T> {
    grid: Grid<T>,
}

impl<T> VoxelMap<T> {
    /// Every chunk has the map's extent and full storage and is filed under
    /// its own origin; a map whose extent cannot hold chunks holds none.
    #[verifier::type_invariant]
    spec fn inv(self) -> bool {
        if size_valid(self.grid.chunk_size) {
            self.grid.wf()
        } else {
            self.grid.map@ == Map::<u128, VoxelChunk<T>>::empty() && self.grid.dirty_set@ == Set::<u128>::empty()
        }
    }

    /// The extent of every chunk.
    pub closed spec fn size(&self) -> Vec3i {
        self.grid.chunk_size
    }

    /// The origin of the chunk that holds voxel `p`.
    pub open spec fn origin_at(&self, p: (int, int, int)) -> (int, int, int) {
        origin_of(p, self.size())
    }

    /// The chunk origin of voxel `p` fits in `i32`.
    pub open spec fn origin_fits(&self, p: (int, int, int)) -> bool {
        let o = self.origin_at(p);
        &&& i32::MIN <= o.0 <= i32::MAX
        &&& i32::MIN <= o.1 <= i32::MAX
        &&& i32::MIN <= o.2 <= i32::MAX
    }

    /// Whether a chunk exists at origin `o`.
    pub closed spec fn has_chunk(&self, o: (int, int, int)) -> bool {
        self.grid.has_chunk(o)
    }

    /// The chunk at origin `o` (meaningful where `has_chunk(o)`).
    pub closed spec fn chunk_at(&self, o: (int, int, int)) -> VoxelChunk<T> {
        self.grid.chunk_at(o)
    }

    /// The number of chunks.
    pub closed spec fn chunk_total(&self) -> nat {
        self.grid.map@.len()
    }

    /// The voxel stored at `p`, if its chunk exists: the cell of `chunk_at`
    /// at `p`'s offset from the chunk's origin.
    pub closed spec fn cell(&self, p: (int, int, int)) -> Option<T> {
        self.grid.cell(p)
    }

    /// The chunk origins marked as modified.
    pub closed spec fn dirty(&self) -> Set<(int, int, int)> {
        self.grid.dirty()
    }

    /// Where a chunk exists, `cell` reads it at the voxel's offset.
    pub proof fn lemma_cell_in_chunk(&self, p: (int, int, int))
        requires
            self.has_chunk(self.origin_at(p)),
        ensures
            self.cell(p) == Some(
                self.chunk_at(self.origin_at(p)).data@[linear_index(
                    self.size(),
                    p.0 - self.origin_at(p).0,
                    p.1 - self.origin_at(p).1,
                    p.2 - self.origin_at(p).2,
                )],
            ),
    {
    }

    fn size_is_valid(&self) -> (r: bool)
        ensures
            r == size_valid(self.size()),
    {
        chunk_size_valid(self.grid.chunk_size)
    }

    /// An empty map of chunks with extent `chunk_size`.
    pub fn new(chunk_size: Vec3i) -> (r: Self)
        ensures
            r.size() == chunk_size,
            r.chunk_total() == 0,
            forall|p: (int, int, int)| r.cell(p) is None,
            r.dirty() == Set::<(int, int, int)>::empty(),
    {
        if chunk_size_valid(chunk_size) {
            let g = Grid::new(chunk_size);
            VoxelMap { grid: g }
        } else {
            let grid = Grid { map: HashMap::new(), chunk_size, dirty_set: HashSet::new() };
            assert(grid.dirty() =~= Set::<(int, int, int)>::empty());
            VoxelMap { grid }
        }
    }

    /// The extent of every chunk.
    pub fn get_chunk_size(&self) -> (r: Vec3i)
        ensures
            r == self.size(),
    {
        self.grid.chunk_size
    }

    /// The number of chunks.
    pub fn chunk_count(&self) -> (r: usize)
        ensures
            r == self.chunk_total(),
    {
        self.grid.map.len()
    }

    /// The origin of the chunk that holds voxel `pos`: on each axis the
    /// floor of the coordinate over the extent, times the extent (`0` on an
    /// axis of extent `0`).
    pub fn get_origin(&self, pos: &Vec3i) -> (r: Vec3i)
        requires
            self.origin_fits(pos@),
        ensures
            r@ == self.origin_at(pos@),
    {
        Vec3i::new(
            floor_origin_axis(pos.x, self.grid.chunk_size.x),
            floor_origin_axis(pos.y, self.grid.chunk_size.y),
            floor_origin_axis(pos.z, self.grid.chunk_size.z),
        )
    }

    /// The origin of the chunk that holds voxel `pos`, or `None` when it does
    /// not fit in `i32`.
    pub fn try_get_origin(&self, pos: &Vec3i) -> (r: Option<Vec3i>)
        ensures
            r is Some <==> self.origin_fits(pos@),
            r matches Some(o) ==> o@ == self.origin_at(pos@),
    {
        let x = try_floor_origin_axis(pos.x, self.grid.chunk_size.x);
        let y = try_floor_origin_axis(pos.y, self.grid.chunk_size.y);
        let z = try_floor_origin_axis(pos.z, self.grid.chunk_size.z);
        match (x, y, z) {
            (Some(x), Some(y), Some(z)) => Some(Vec3i::new(x, y, z)),
            _ => None,
        }
    }

    /// The chunk holding voxel `pos`, if it exists.
    pub fn get_chunk_by_voxel(&self, pos: &Vec3i) -> (r: Option<&VoxelChunk<T>>)
        requires
            self.origin_fits(pos@),
        ensures
            r is None <==> !self.has_chunk(self.origin_at(pos@)),
            r matches Some(c) ==> *c == self.chunk_at(self.origin_at(pos@)),
            r matches Some(c) ==> c.origin@ == self.origin_at(pos@) && c.size == self.size(),
    {
        proof {
            use_type_invariant(self);
        }
        if !self.size_is_valid() {
            return None;
        }
        let r = self.grid.get_chunk_by_voxel(pos);
        proof {
            if r is Some {
                self.grid.lemma_chunk_origin(self.grid.origin_at(pos@));
            }
        }
        r
    }

    /// Whether `origin` is marked as modified.
    pub fn is_dirty(&self, origin: &Vec3i) -> (r: bool)
        ensures
            r == self.dirty().contains(origin@),
    {
        self.grid.is_dirty(origin)
    }
}

impl<T: Default + Clone> VoxelMap<T> {
    /// A clone of the voxel at `pos`, or `T::default()` where no chunk holds it.
    pub fn get_cloned_by_voxel(&self, pos: &Vec3i) -> (r: T)
        requires
            self.origin_fits(pos@),
        ensures
            match self.cell(pos@) {
                Some(v) => cloned(v, r),
                None => is_default(r),
            },
    {
        proof {
            use_type_invariant(self);
        }
        if !self.size_is_valid() {
            return T::default();
        }
        self.grid.get_cloned_by_voxel(pos)
    }

    /// Store `val` at voxel `pos`, creating its chunk (filled with a default
    /// value) when missing, and mark the chunk's origin as modified.
    ///
    /// Only a map whose extent is `size_valid` stores voxels. With a zero
    /// extent a chunk has no storage, and with a negative one the offsets
    /// inside a chunk are negative and its storage length is a wrapped
    /// product, so a store would land outside the chunk's storage for most
    /// voxels; such writes are refused by the precondition.
    pub fn set_by_voxel(&mut self, pos: &Vec3i, val: T)
        requires
            size_valid(old(self).size()),
            old(self).origin_fits(pos@),
        ensures
            final(self).size() == old(self).size(),
            final(self).cell(pos@) == Some(val),
            forall|q: (int, int, int)| #[trigger] final(self).origin_at(q) != final(self).origin_at(pos@)
                ==> final(self).cell(q) == old(self).cell(q),
            forall|q: (int, int, int)| q != pos@ && #[trigger] old(self).cell(q) is Some
                ==> final(self).cell(q) == old(self).cell(q),
            forall|q: (int, int, int)| final(self).origin_at(q) == final(self).origin_at(pos@) && q != pos@
                && #[trigger] old(self).cell(q) is None
                ==> exists|d: T| is_default(d) && cloned(d, final(self).cell(q)->0),
            final(self).dirty() == old(self).dirty().insert(final(self).origin_at(pos@)),
            forall|o: (int, int, int)| #[trigger] final(self).has_chunk(o)
                <==> (old(self).has_chunk(o) || o == final(self).origin_at(pos@)),
            final(self).chunk_at(final(self).origin_at(pos@)).origin@ == final(self).origin_at(pos@),
            final(self).chunk_at(final(self).origin_at(pos@)).size == final(self).size(),
    {
        proof {
            use_type_invariant(&*self);
        }
        let cs = self.grid.chunk_size;
        let mut g = Grid { map: HashMap::new(), chunk_size: cs, dirty_set: HashSet::new() };
        proof {
            assert(cs.x * cs.y <= cs.x * cs.y * cs.z) by (nonlinear_arith)
                requires cs.x > 0, cs.y > 0, cs.z > 0;
            assert(g.wf());
        }
        std::mem::swap(&mut g, &mut self.grid);
        g.set_by_voxel(pos, val);
        self.grid = g;
    }
}

/// Writing a chunk cell through `get_mut` and reading it back with `get`
/// gives the written value; every other cell reads as before.
pub proof fn law_chunk_read_after_write<T>(
    c0: &VoxelChunk<T>,
    c1: &VoxelChunk<T>,
    x: i32, y: i32, z: i32,
    v: T,
    x2: i32, y2: i32, z2: i32,
)
    requires
        c0.addressable(x, y, z),
        c1.data@ == c0.data@.update(c0.index_of(x as int, y as int, z as int), v),
        c1.size == c0.size,
        c0.addressable(x2, y2, z2),
    ensures
        c1.addressable(x, y, z),
        c1.data@[c1.index_of(x as int, y as int, z as int)] == v,
        c0.index_of(x2 as int, y2 as int, z2 as int) != c0.index_of(x as int, y as int, z as int)
            ==> c1.data@[c1.index_of(x2 as int, y2 as int, z2 as int)] == c0.data@[c0.index_of(x2 as int, y2 as int, z2 as int)],
{
}

/// Reading a voxel of the map after writing it gives a clone of the value
/// written (the state after `set_by_voxel`, the result of
/// `get_cloned_by_voxel`).
pub proof fn law_map_read_after_write<T: Default + Clone>(m: &VoxelMap<T>, p: (int, int, int), v: T, r: T)
    requires
        m.cell(p) == Some(v),
        match m.cell(p) {
            Some(c) => cloned(c, r),
            None => is_default(r),
        },
    ensures
        cloned(v, r),
{
}

/// Reading a voxel whose chunk was never written gives a default value.
pub proof fn law_map_unwritten_reads_default<T: Default + Clone>(m: &VoxelMap<T>, p: (int, int, int), r: T)
    requires
        !m.has_chunk(m.origin_at(p)),
        match m.cell(p) {
            Some(c) => cloned(c, r),
            None => is_default(r),
        },
    ensures
        is_default(r),
{
}

} // verus!
