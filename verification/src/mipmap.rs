use vstd::prelude::*;

verus! {

/// Extent of mip level `level` of a texture side of `base` texels: halved
/// (rounding down) at each level, never below one.
pub open spec fn mip_extent(base: u32, level: nat) -> u32
    decreases level,
{
    if level == 0 {
        base
    } else {
        let prev = mip_extent(base, (level - 1) as nat);
        if prev / 2 >= 1 { prev / 2 } else { 1 }
    }
}

/// Every level after the first is at least one texel wide and no wider than
/// the level before it.
pub proof fn law_mip_extent_shrinks(base: u32, level: nat)
    requires
        level >= 1,
    ensures
        mip_extent(base, level) >= 1,
        mip_extent(base, (level - 1) as nat) >= 1 ==> mip_extent(base, level) <= mip_extent(base, (level - 1) as nat),
{
}

/// The passes read the mip chain level by level: the first pass reads the
/// whole texture, and each later pass reads a level half as wide and half as
/// high as the one before (rounded down), never narrower than one texel.
pub proof fn law_source_sizes_halve(width: u32, height: u32, mipcount: u32, r: Seq<(u32, u32)>)
    requires
        r.len() == (if mipcount == 0 { 0 } else { mipcount - 1 }),
        forall|i: int| 0 <= i < r.len() ==> #[trigger] r[i] == (mip_extent(width, i as nat), mip_extent(height, i as nat)),
    ensures
        r.len() > 0 ==> r[0] == (width, height),
        forall|i: int| 1 <= i < r.len() ==> {
            &&& (#[trigger] r[i]).0 >= 1
            &&& r[i].1 >= 1
            &&& r[i - 1].0 >= 2 ==> 2 * r[i].0 <= r[i - 1].0 < 2 * r[i].0 + 2
            &&& r[i - 1].0 < 2 ==> r[i].0 == 1
            &&& r[i - 1].1 >= 2 ==> 2 * r[i].1 <= r[i - 1].1 < 2 * r[i].1 + 2
            &&& r[i - 1].1 < 2 ==> r[i].1 == 1
        },
{
    if r.len() > 0 {
        assert(r[0] == (mip_extent(width, 0), mip_extent(height, 0)));
    }
    assert forall|i: int| 1 <= i < r.len() implies {
        &&& (#[trigger] r[i]).0 >= 1
        &&& r[i].1 >= 1
        &&& r[i - 1].0 >= 2 ==> 2 * r[i].0 <= r[i - 1].0 < 2 * r[i].0 + 2
        &&& r[i - 1].0 < 2 ==> r[i].0 == 1
        &&& r[i - 1].1 >= 2 ==> 2 * r[i].1 <= r[i - 1].1 < 2 * r[i].1 + 2
        &&& r[i - 1].1 < 2 ==> r[i].1 == 1
    } by {
        assert(r[i - 1] == (mip_extent(width, (i - 1) as nat), mip_extent(height, (i - 1) as nat)));
        assert(((i - 1) as nat) == ((i as nat) - 1) as nat);
    }
}

/// Generates the mip chain of a texture on the GPU; the GPU work is done by
/// the caller, this decides which level each pass reads.
pub struct MipmapGenerator {}

impl MipmapGenerator {
    /// The size of the level read by each pass of the mip chain: pass `i`
    /// (which renders level `i + 1`) reads level `i`.
    pub fn source_sizes(width: u32, height: u32, mipcount: u32) -> (r: Vec<(u32, u32)>)
        ensures
            r.len() == (if mipcount == 0 { 0 } else { mipcount - 1 }),
            forall|i: int| 0 <= i < r.len() ==> #[trigger] r@[i] == (mip_extent(width, i as nat), mip_extent(height, i as nat)),
            r.len() > 0 ==> r@[0] == (width, height),
            forall|i: int| 1 <= i < r.len() ==> {
                &&& (#[trigger] r@[i]).0 >= 1
                &&& r@[i].1 >= 1
                &&& r@[i - 1].0 >= 2 ==> 2 * r@[i].0 <= r@[i - 1].0 < 2 * r@[i].0 + 2
                &&& r@[i - 1].0 < 2 ==> r@[i].0 == 1
                &&& r@[i - 1].1 >= 2 ==> 2 * r@[i].1 <= r@[i - 1].1 < 2 * r@[i].1 + 2
                &&& r@[i - 1].1 < 2 ==> r@[i].1 == 1
            },
    {
        let mut sizes: Vec<(u32, u32)> = Vec::new();
        let mut mip_width = width;
        let mut mip_height = height;
        let mut mip: u32 = 1;
        while mip < mipcount
            invariant
                1 <= mip,
                mipcount == 0 ==> mip == 1,
                mipcount > 0 ==> mip <= mipcount,
                sizes.len() == mip - 1,
                mip_width == mip_extent(width, (mip - 1) as nat),
                mip_height == mip_extent(height, (mip - 1) as nat),
                forall|i: int| 0 <= i < sizes.len() ==> #[trigger] sizes@[i] == (mip_extent(width, i as nat), mip_extent(height, i as nat)),
            decreases mipcount - mip,
        {
            sizes.push((mip_width, mip_height));
            mip_width = mip_width / 2;
            mip_width = if mip_width >= 1 { mip_width } else { 1 };
            mip_height = mip_height / 2;
            mip_height = if mip_height >= 1 { mip_height } else { 1 };
            mip += 1;
        }
        proof {
            law_source_sizes_halve(width, height, mipcount, sizes@);
        }
        sizes
    }
}

} // verus!
