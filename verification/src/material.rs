use vstd::prelude::*;

verus! {

/// Whether a material's texture binding must be rebuilt: it has none yet, or
/// the versions of its color, normal and metallic-roughness textures no
/// longer add up to the sum recorded when it was built.
pub fn need_rebind(
    has_bind: bool,
    color_version: u32,
    normal_version: u32,
    metallic_roughness_version: u32,
    version_sum: u32,
) -> (r: bool)
    requires
        has_bind ==> color_version + normal_version + metallic_roughness_version <= u32::MAX,
    ensures
        r == (!has_bind || color_version + normal_version + metallic_roughness_version != version_sum),
{
    if !has_bind {
        return true;
    } else {
        let sum = color_version + normal_version + metallic_roughness_version;
        if sum != version_sum {
            return true;
        } else {
            return false;
        }
    }
}

} // verus!
